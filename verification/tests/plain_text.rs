use hailort_networked::text::contains_text;
use hailort_networked::text::hex_preview;
use hailort_networked::text::push_bool;
use hailort_networked::text::push_decimal;
use hailort_networked::text::push_dotted;
use hailort_networked::text::push_hex_byte;
use hailort_networked::text::push_signed_decimal;

#[test]
fn decimals_match_std() {
    for n in [0u64, 1, 9, 10, 11, 99, 100, 50051, u32::MAX as u64, u64::MAX] {
        let mut text = String::from(">");
        push_decimal(&mut text, n);
        assert_eq!(text, format!(">{}", n));
    }
    for n in [0i32, 7, -1, -10, i32::MAX, i32::MIN] {
        let mut text = String::new();
        push_signed_decimal(&mut text, n);
        assert_eq!(text, format!("{}", n));
    }
}

#[test]
fn hex_bytes_match_std() {
    for b in 0u8..=255 {
        let mut text = String::new();
        push_hex_byte(&mut text, b);
        assert_eq!(text, format!("{:02x}", b));
    }
}

#[test]
fn preview_stops_at_the_limit() {
    assert_eq!(hex_preview(&vec![], 32), "");
    assert_eq!(hex_preview(&vec![0x0a], 32), "0a");
    assert_eq!(hex_preview(&vec![0xde, 0xad, 0xbe, 0xef], 32), "de ad be ef");
    assert_eq!(hex_preview(&vec![1, 2, 3], 2), "01 02");
}

#[test]
fn addresses_and_truth_values() {
    let mut text = String::new();
    push_dotted(&mut text, [192, 168, 0, 10]);
    push_bool(&mut text, true);
    push_bool(&mut text, false);
    assert_eq!(text, "192.168.0.10truefalse");
}

#[test]
fn substrings_match_std() {
    let texts = ["", "a", "aab", "worker-1._hailort._tcp.local.", "häuser über", "ababac"];
    let needles = ["", "a", "ab", "b", "worker", "local.", "ü", "abac", "x", "ababacx"];
    for text in texts {
        for needle in needles {
            assert_eq!(contains_text(text, needle), text.contains(needle));
        }
    }
}
