//! Plain text pieces: numbers, bytes, addresses, and the search for a substring.

use vstd::prelude::*;

verus! {

/// The character of a decimal or hexadecimal digit.
pub open spec fn digit(d: int) -> char {
    if d == 0 { '0' }
    else if d == 1 { '1' }
    else if d == 2 { '2' }
    else if d == 3 { '3' }
    else if d == 4 { '4' }
    else if d == 5 { '5' }
    else if d == 6 { '6' }
    else if d == 7 { '7' }
    else if d == 8 { '8' }
    else if d == 9 { '9' }
    else if d == 10 { 'a' }
    else if d == 11 { 'b' }
    else if d == 12 { 'c' }
    else if d == 13 { 'd' }
    else if d == 14 { 'e' }
    else { 'f' }
}

/// A natural number in base ten, without leading zeros.
pub open spec fn decimal(n: nat) -> Seq<char>
    decreases n,
{
    if n < 10 {
        seq![digit(n as int)]
    } else {
        decimal(n / 10).push(digit((n % 10) as int))
    }
}

/// An integer in base ten, with a leading minus sign when it is negative.
pub open spec fn signed_decimal(n: int) -> Seq<char> {
    if n < 0 {
        seq!['-'] + decimal((-n) as nat)
    } else {
        decimal(n as nat)
    }
}

/// A byte as two lower-case hexadecimal digits.
pub open spec fn hex_byte(b: u8) -> Seq<char> {
    seq![digit((b / 16) as int), digit((b % 16) as int)]
}

/// Bytes as hexadecimal pairs with one space between neighbours.
pub open spec fn hex_bytes(bytes: Seq<u8>) -> Seq<char>
    decreases bytes.len(),
{
    if bytes.len() == 0 {
        Seq::empty()
    } else if bytes.len() == 1 {
        hex_byte(bytes[0])
    } else {
        hex_bytes(bytes.drop_last()) + seq![' '] + hex_byte(bytes.last())
    }
}

/// An IPv4 address in dotted decimal notation.
pub open spec fn dotted(ip: [u8; 4]) -> Seq<char> {
    decimal(ip@[0] as nat) + "."@ + decimal(ip@[1] as nat) + "."@ + decimal(ip@[2] as nat) + "."@
        + decimal(ip@[3] as nat)
}

/// Whether `needle` stands in `text` at the position `at`.
pub open spec fn occurs_at(text: Seq<char>, needle: Seq<char>, at: int) -> bool {
    0 <= at && at + needle.len() <= text.len() && text.subrange(at, at + needle.len() as int)
        == needle
}

/// Whether `needle` stands somewhere in `text`.
pub open spec fn is_substring(text: Seq<char>, needle: Seq<char>) -> bool {
    exists|at: int| occurs_at(text, needle, at)
}

/// The text of a truth value.
pub open spec fn bool_text(b: bool) -> Seq<char> {
    if b {
        "true"@
    } else {
        "false"@
    }
}

/// The text of one digit.
fn digit_text(d: u8) -> (text: &'static str)
    requires
        d < 16,
    ensures
        text@ == seq![digit(d as int)],
{
    proof {
        reveal_strlit("0");
        reveal_strlit("1");
        reveal_strlit("2");
        reveal_strlit("3");
        reveal_strlit("4");
        reveal_strlit("5");
        reveal_strlit("6");
        reveal_strlit("7");
        reveal_strlit("8");
        reveal_strlit("9");
        reveal_strlit("a");
        reveal_strlit("b");
        reveal_strlit("c");
        reveal_strlit("d");
        reveal_strlit("e");
        reveal_strlit("f");
    }
    match d {
        0 => "0",
        1 => "1",
        2 => "2",
        3 => "3",
        4 => "4",
        5 => "5",
        6 => "6",
        7 => "7",
        8 => "8",
        9 => "9",
        10 => "a",
        11 => "b",
        12 => "c",
        13 => "d",
        14 => "e",
        _ => "f",
    }
}

/// Appends a number in base ten.
pub fn push_decimal(out: &mut String, n: u64)
    ensures
        final(out)@ == old(out)@ + decimal(n as nat),
    decreases n,
{
    if n >= 10 {
        push_decimal(out, n / 10);
    }
    out.append(digit_text((n % 10) as u8));
}

/// Appends a signed number in base ten.
pub fn push_signed_decimal(out: &mut String, n: i32)
    ensures
        final(out)@ == old(out)@ + signed_decimal(n as int),
{
    if n < 0 {
        proof {
            reveal_strlit("-");
        }
        assert("-"@ =~= seq!['-']);
        out.append("-");
        let wide: i64 = n as i64;
        push_decimal(out, (-wide) as u64);
    } else {
        push_decimal(out, n as u64);
    }
}

/// Appends a byte as two hexadecimal digits.
pub fn push_hex_byte(out: &mut String, b: u8)
    ensures
        final(out)@ == old(out)@ + hex_byte(b),
{
    out.append(digit_text(b / 16));
    out.append(digit_text(b % 16));
}

/// Renders the first `limit` bytes as hexadecimal pairs separated by spaces.
pub fn hex_preview(bytes: &Vec<u8>, limit: usize) -> (text: String)
    ensures
        text@ == hex_bytes(bytes@.take(if bytes@.len() < limit { bytes@.len() as int } else { limit as int })),
{
    let mut text = String::new();
    let count: usize = if bytes.len() < limit { bytes.len() } else { limit };
    let mut i: usize = 0;
    while i < count
        invariant
            i <= count <= bytes@.len(),
            text@ == hex_bytes(bytes@.take(i as int)),
        decreases count - i,
    {
        let ghost before = bytes@.take(i as int);
        let ghost after = bytes@.take(i + 1);
        assert(after.drop_last() =~= before);
        if i > 0 {
            proof {
                reveal_strlit(" ");
            }
            assert(" "@ =~= seq![' ']);
            text.append(" ");
        }
        push_hex_byte(&mut text, bytes[i]);
        assert(text@ =~= hex_bytes(after));
        i += 1;
    }
    text
}

/// Appends an IPv4 address in dotted decimal notation.
pub fn push_dotted(out: &mut String, ip: [u8; 4])
    ensures
        final(out)@ == old(out)@ + dotted(ip),
{
    push_decimal(out, ip[0] as u64);
    out.append(".");
    push_decimal(out, ip[1] as u64);
    out.append(".");
    push_decimal(out, ip[2] as u64);
    out.append(".");
    push_decimal(out, ip[3] as u64);
    assert(out@ =~= old(out)@ + dotted(ip));
}

/// Appends a truth value.
pub fn push_bool(out: &mut String, b: bool)
    ensures
        final(out)@ == old(out)@ + bool_text(b),
{
    if b {
        out.append("true");
    } else {
        out.append("false");
    }
}

/// The characters of a text.
fn characters(text: &str) -> (chars: Vec<char>)
    ensures
        chars@ == text@,
{
    let mut chars: Vec<char> = Vec::new();
    for c in it: text.chars()
        invariant
            chars@ == it.seq().take(it.index() as int),
            it.seq() == text@,
    {
        chars.push(c);
    }
    assert(chars@ =~= text@);
    chars
}

/// Tests whether `needle` stands in `text` at the position `at`.
fn stands_at(text: &Vec<char>, needle: &Vec<char>, at: usize) -> (found: bool)
    requires
        at + needle@.len() <= text@.len(),
    ensures
        found == occurs_at(text@, needle@, at as int),
{
    let length: usize = text.len();
    let mut k: usize = 0;
    while k < needle.len()
        invariant
            k <= needle@.len(),
            at + needle@.len() <= length == text@.len(),
            forall|j: int| 0 <= j < k ==> text@[at + j] == #[trigger] needle@[j],
        decreases needle.len() - k,
    {
        if text[at + k] != needle[k] {
            assert(text@.subrange(at as int, at + needle@.len())[k as int] == text@[at + k]);
            return false;
        }
        k += 1;
    }
    assert(text@.subrange(at as int, at + needle@.len()) =~= needle@);
    true
}

/// Tests whether `needle` stands somewhere in `text`. The empty text stands
/// everywhere.
pub fn contains_text(text: &str, needle: &str) -> (found: bool)
    ensures
        found == is_substring(text@, needle@),
{
    let text_chars = characters(text);
    let needle_chars = characters(needle);
    if needle_chars.len() > text_chars.len() {
        return false;
    }
    let last: usize = text_chars.len() - needle_chars.len();
    let mut at: usize = 0;
    loop
        invariant
            text_chars@ == text@,
            needle_chars@ == needle@,
            at <= last,
            last + needle_chars@.len() == text_chars@.len(),
            forall|i: int| 0 <= i < at ==> !occurs_at(text@, needle@, i),
        decreases last - at,
    {
        if stands_at(&text_chars, &needle_chars, at) {
            return true;
        }
        if at == last {
            assert forall|i: int| !occurs_at(text@, needle@, i) by {
                if 0 <= i < at {
                    assert(!occurs_at(text@, needle@, i));
                }
            }
            return false;
        }
        at += 1;
    }
}

} // verus!
