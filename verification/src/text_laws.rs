//! Laws of plain text: what is written can be read back.

use vstd::prelude::*;

use crate::text::bool_text;
use crate::text::decimal;
use crate::text::dotted;
use crate::text::hex_byte;
use crate::text::hex_bytes;
use crate::text::is_substring;
use crate::text::occurs_at;
use crate::text::signed_decimal;

verus! {

/// The number that a row of decimal digits stands for.
pub open spec fn numeral_value(text: Seq<char>) -> int
    decreases text.len(),
{
    if text.len() == 0 {
        0
    } else {
        10 * numeral_value(text.drop_last()) + (text.last() as int - '0' as int)
    }
}

/// Whether a text is the numeral of a number: decimal digits alone, none of them
/// a needless zero in front, with that value.
pub open spec fn reads_as(text: Seq<char>, n: int) -> bool {
    &&& text.len() > 0
    &&& forall|i: int| 0 <= i < text.len() ==> '0' <= #[trigger] text[i] <= '9'
    &&& text.len() > 1 ==> text[0] != '0'
    &&& numeral_value(text) == n
}

proof fn lemma_one_digit(text: Seq<char>)
    requires
        text.len() == 1,
    ensures
        numeral_value(text) == text[0] as int - '0' as int,
{
    assert(text.drop_last() =~= Seq::empty());
    assert(numeral_value(text.drop_last()) == 0);
}

/// A number is written as its numeral.
pub proof fn decimal_reads_back(n: nat)
    ensures
        reads_as(decimal(n), n as int),
    decreases n,
{
    let text = decimal(n);
    if n < 10 {
        lemma_one_digit(text);
    } else {
        decimal_reads_back(n / 10);
        let front = decimal(n / 10);
        assert(text.drop_last() =~= front);
        assert(text[0] == front[0]);
        if front.len() == 1 && front[0] == '0' {
            lemma_one_digit(front);
        }
    }
}

proof fn lemma_numeral_size(text: Seq<char>)
    requires
        text.len() > 0,
        forall|i: int| 0 <= i < text.len() ==> '0' <= #[trigger] text[i] <= '9',
        text[0] != '0',
    ensures
        numeral_value(text) >= 1,
        text.len() > 1 ==> numeral_value(text) >= 10,
    decreases text.len(),
{
    let front = text.drop_last();
    if text.len() > 1 {
        assert forall|i: int| 0 <= i < front.len() implies '0' <= #[trigger] front[i] <= '9' by {
            assert(front[i] == text[i]);
        }
        lemma_numeral_size(front);
    } else {
        lemma_one_digit(text);
    }
}

/// A number has one numeral.
pub proof fn numerals_are_unique(a: Seq<char>, b: Seq<char>, n: int)
    requires
        reads_as(a, n),
        reads_as(b, n),
    ensures
        a == b,
    decreases a.len(),
{
    let a_front = a.drop_last();
    let b_front = b.drop_last();
    assert(a.last() == a[a.len() - 1] && b.last() == b[b.len() - 1]);
    if a.len() > 1 {
        lemma_numeral_size(a);
    } else {
        lemma_one_digit(a);
    }
    if b.len() > 1 {
        lemma_numeral_size(b);
    } else {
        lemma_one_digit(b);
    }
    assert(a.len() > 1 <==> b.len() > 1);
    if a.len() > 1 {
        assert forall|i: int| 0 <= i < a_front.len() implies '0' <= #[trigger] a_front[i] <= '9' by {
            assert(a_front[i] == a[i]);
        }
        assert forall|i: int| 0 <= i < b_front.len() implies '0' <= #[trigger] b_front[i] <= '9' by {
            assert(b_front[i] == b[i]);
        }
        assert(numeral_value(a_front) == numeral_value(b_front));
        numerals_are_unique(a_front, b_front, numeral_value(a_front));
        assert(a =~= a_front.push(a.last()));
        assert(b =~= b_front.push(b.last()));
    } else {
        assert(a =~= b);
    }
}

/// A signed number is written as the numeral of its size, behind a minus sign if
/// it is negative.
pub proof fn signed_decimal_reads_back(n: int)
    ensures
        n >= 0 ==> reads_as(signed_decimal(n), n),
        n < 0 ==> signed_decimal(n).len() > 0 && signed_decimal(n)[0] == '-' && reads_as(
            signed_decimal(n).skip(1),
            -n,
        ),
{
    if n < 0 {
        decimal_reads_back((-n) as nat);
        assert(signed_decimal(n).skip(1) =~= decimal((-n) as nat));
    } else {
        decimal_reads_back(n as nat);
    }
}

/// The number that a lower-case hexadecimal digit stands for.
pub open spec fn hex_value(c: char) -> int {
    if '0' <= c <= '9' {
        c as int - '0' as int
    } else if 'a' <= c <= 'f' {
        c as int - 'a' as int + 10
    } else {
        -1
    }
}

/// Whether two characters are the hexadecimal digits of a byte.
pub open spec fn shows_byte(high: char, low: char, b: u8) -> bool {
    &&& 0 <= hex_value(high) < 16
    &&& 0 <= hex_value(low) < 16
    &&& 16 * hex_value(high) + hex_value(low) == b
}

/// A byte is written as its two hexadecimal digits.
pub proof fn hex_byte_reads_back(b: u8)
    ensures
        hex_byte(b).len() == 2,
        shows_byte(hex_byte(b)[0], hex_byte(b)[1], b),
{
    assert(b as int == 16 * (b as int / 16) + b as int % 16);
}

/// Whether a text shows these bytes: a pair of hexadecimal digits for each, with
/// one space between neighbours.
pub open spec fn shows_bytes(text: Seq<char>, bytes: Seq<u8>) -> bool {
    &&& text.len() == if bytes.len() == 0 {
        0
    } else {
        3 * bytes.len() - 1
    }
    &&& forall|i: int|
        0 <= i < bytes.len() ==> {
            let b = #[trigger] bytes[i];
            &&& shows_byte(text[3 * i], text[3 * i + 1], b)
            &&& i + 1 < bytes.len() ==> text[3 * i + 2] == ' '
        }
}

/// Bytes are written so that each can be read back.
pub proof fn hex_bytes_read_back(bytes: Seq<u8>)
    ensures
        shows_bytes(hex_bytes(bytes), bytes),
    decreases bytes.len(),
{
    let text = hex_bytes(bytes);
    if bytes.len() == 1 {
        hex_byte_reads_back(bytes[0]);
        assert(text == hex_byte(bytes[0]));
    } else if bytes.len() > 1 {
        let front = bytes.drop_last();
        let last = bytes.len() - 1;
        hex_bytes_read_back(front);
        hex_byte_reads_back(bytes.last());
        let shown = hex_bytes(front);
        assert(shown.len() == 3 * last - 1);
        assert(text == shown + seq![' '] + hex_byte(bytes.last()));
        assert(text.len() == 3 * bytes.len() - 1);
        assert(text[3 * last] == hex_byte(bytes.last())[0]);
        assert(text[3 * last + 1] == hex_byte(bytes.last())[1]);
        assert forall|i: int| 0 <= i < bytes.len() implies {
            let b = #[trigger] bytes[i];
            &&& shows_byte(text[3 * i], text[3 * i + 1], b)
            &&& i + 1 < bytes.len() ==> text[3 * i + 2] == ' '
        } by {
            if i < last {
                assert(front[i] == bytes[i]);
                assert(text[3 * i] == shown[3 * i]);
                assert(text[3 * i + 1] == shown[3 * i + 1]);
                if i + 1 < last {
                    assert(text[3 * i + 2] == shown[3 * i + 2]);
                } else {
                    assert(text[3 * i + 2] == ' ');
                }
            }
        }
    }
}

/// Whether four numerals are those of the octets of an address.
pub open spec fn octet_numerals(
    a: Seq<char>,
    b: Seq<char>,
    c: Seq<char>,
    d: Seq<char>,
    ip: [u8; 4],
) -> bool {
    &&& reads_as(a, ip@[0] as int)
    &&& reads_as(b, ip@[1] as int)
    &&& reads_as(c, ip@[2] as int)
    &&& reads_as(d, ip@[3] as int)
}

/// Whether a text shows an IPv4 address: the numerals of its octets, with a dot
/// between neighbours.
pub open spec fn shows_ip(text: Seq<char>, ip: [u8; 4]) -> bool {
    exists|a: Seq<char>, b: Seq<char>, c: Seq<char>, d: Seq<char>| #[trigger]
        octet_numerals(a, b, c, d, ip) && text == a + seq!['.'] + b + seq!['.'] + c + seq!['.'] + d
}

/// An address is written as the numerals of its octets.
pub proof fn dotted_reads_back(ip: [u8; 4])
    ensures
        shows_ip(dotted(ip), ip),
{
    reveal_strlit(".");
    let (a, b) = (decimal(ip@[0] as nat), decimal(ip@[1] as nat));
    let (c, d) = (decimal(ip@[2] as nat), decimal(ip@[3] as nat));
    decimal_reads_back(ip@[0] as nat);
    decimal_reads_back(ip@[1] as nat);
    decimal_reads_back(ip@[2] as nat);
    decimal_reads_back(ip@[3] as nat);
    assert(octet_numerals(a, b, c, d, ip));
    assert(dotted(ip) =~= a + seq!['.'] + b + seq!['.'] + c + seq!['.'] + d);
}

/// A text ends in one way with a separator and a part without it.
pub proof fn last_part_is_unique(x: Seq<char>, a: Seq<char>, y: Seq<char>, b: Seq<char>, sep: char)
    requires
        x + seq![sep] + a == y + seq![sep] + b,
        !a.contains(sep),
        !b.contains(sep),
    ensures
        x == y,
        a == b,
{
    let text = x + seq![sep] + a;
    assert(text.len() == x.len() + 1 + a.len());
    assert(text.len() == y.len() + 1 + b.len());
    assert(text[x.len() as int] == sep);
    assert((y + seq![sep] + b)[y.len() as int] == sep);
    if x.len() < y.len() {
        let k = y.len() - x.len() - 1;
        assert(0 <= k < a.len());
        assert(text[y.len() as int] == a[k]);
        assert(a.contains(sep));
    } else if y.len() < x.len() {
        let k = x.len() - y.len() - 1;
        assert(0 <= k < b.len());
        assert((y + seq![sep] + b)[x.len() as int] == b[k]);
        assert(b.contains(sep));
    }
    assert(x =~= text.take(x.len() as int));
    assert(y =~= (y + seq![sep] + b).take(y.len() as int));
    assert(a =~= text.skip(x.len() as int + 1));
    assert(b =~= (y + seq![sep] + b).skip(y.len() as int + 1));
}

/// A numeral holds neither dot nor colon.
pub proof fn numerals_hold_digits_alone(text: Seq<char>, n: int)
    requires
        reads_as(text, n),
    ensures
        !text.contains('.'),
        !text.contains(':'),
{
}

/// A text shows at most one address.
pub proof fn shown_ip_is_unique(text: Seq<char>, ip: [u8; 4], other: [u8; 4])
    requires
        shows_ip(text, ip),
        shows_ip(text, other),
    ensures
        ip == other,
{
    let (a, b, c, d) = choose|a: Seq<char>, b: Seq<char>, c: Seq<char>, d: Seq<char>| #[trigger]
        octet_numerals(a, b, c, d, ip) && text == a + seq!['.'] + b + seq!['.'] + c + seq!['.'] + d;
    let (e, f, g, h) = choose|e: Seq<char>, f: Seq<char>, g: Seq<char>, h: Seq<char>| #[trigger]
        octet_numerals(e, f, g, h, other) && text == e + seq!['.'] + f + seq!['.'] + g + seq!['.']
            + h;
    numerals_hold_digits_alone(b, ip@[1] as int);
    numerals_hold_digits_alone(c, ip@[2] as int);
    numerals_hold_digits_alone(d, ip@[3] as int);
    numerals_hold_digits_alone(f, other@[1] as int);
    numerals_hold_digits_alone(g, other@[2] as int);
    numerals_hold_digits_alone(h, other@[3] as int);
    let abc = a + seq!['.'] + b + seq!['.'] + c;
    let efg = e + seq!['.'] + f + seq!['.'] + g;
    last_part_is_unique(abc, d, efg, h, '.');
    last_part_is_unique(a + seq!['.'] + b, c, e + seq!['.'] + f, g, '.');
    last_part_is_unique(a, b, e, f, '.');
    assert(ip@ =~= other@);
}

/// Whether a text is made of a part with something before and behind it.
pub open spec fn holds_part(text: Seq<char>, part: Seq<char>) -> bool {
    exists|before: Seq<char>, behind: Seq<char>| text == #[trigger] (before + part + behind)
}

/// A text contains another exactly if it is made of it with something before and
/// behind it.
pub proof fn substring_is_a_part(text: Seq<char>, part: Seq<char>)
    ensures
        is_substring(text, part) <==> holds_part(text, part),
{
    if is_substring(text, part) {
        let at = choose|at: int| occurs_at(text, part, at);
        let before = text.take(at);
        let behind = text.skip(at + part.len());
        assert(text =~= before + part + behind) by {
            assert(text.subrange(at, at + part.len() as int) == part);
            assert forall|i: int| 0 <= i < text.len() implies text[i] == (before + part
                + behind)[i] by {
                if at <= i < at + part.len() {
                    assert(text[i] == text.subrange(at, at + part.len() as int)[i - at]);
                }
            }
        }
    }
    if holds_part(text, part) {
        let (before, behind) = choose|before: Seq<char>, behind: Seq<char>|
            text == #[trigger] (before + part + behind);
        assert(text.subrange(before.len() as int, before.len() + part.len() as int) =~= part);
        assert(occurs_at(text, part, before.len() as int));
    }
}

/// A truth value is written as its word.
pub proof fn bool_is_its_word(b: bool)
    ensures
        bool_text(b) == if b {
            seq!['t', 'r', 'u', 'e']
        } else {
            seq!['f', 'a', 'l', 's', 'e']
        },
{
    reveal_strlit("true");
    reveal_strlit("false");
    assert("true"@ =~= seq!['t', 'r', 'u', 'e']);
    assert("false"@ =~= seq!['f', 'a', 'l', 's', 'e']);
}

} // verus!
