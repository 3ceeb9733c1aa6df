use openvaf::json::{array, jstr, member, object, quoted, Layout};
use openvaf::text::{blanks, decimal, digit, join, signed_decimal};

fn strings(parts: &[&str]) -> Vec<String> {
    parts.iter().map(|part| part.to_string()).collect()
}

#[test]
fn plain_text_is_left_alone() {
    assert_eq!(jstr(""), "");
    assert_eq!(jstr("V(a,b) <+ 1;"), "V(a,b) <+ 1;");
    assert_eq!(jstr("Ωμ 𝛼\u{7f}"), "Ωμ 𝛼\u{7f}");
    assert_eq!(jstr("/'"), "/'");
}

#[test]
fn quotes_and_backslashes_are_escaped() {
    assert_eq!(jstr("\\"), "\\\\");
    assert_eq!(jstr("\""), "\\\"");
    assert_eq!(jstr("a\"b\\c"), "a\\\"b\\\\c");
}

#[test]
fn control_characters_are_escaped() {
    assert_eq!(jstr("\n"), "\\n");
    assert_eq!(jstr("\r"), "\\r");
    assert_eq!(jstr("\t"), "\\t");
    assert_eq!(jstr("\u{0}"), "\\u0000");
    assert_eq!(jstr("\u{8}"), "\\u0008");
    assert_eq!(jstr("\u{b}"), "\\u000b");
    assert_eq!(jstr("\u{1f}"), "\\u001f");
    assert_eq!(jstr("\u{20}"), " ");
}

#[test]
fn every_control_character_has_four_digits() {
    for code in 0..0x20u32 {
        let c = char::from_u32(code).unwrap();
        let expected = match c {
            '\n' => "\\n".to_string(),
            '\r' => "\\r".to_string(),
            '\t' => "\\t".to_string(),
            _ => format!("\\u{:04x}", code),
        };
        assert_eq!(jstr(&c.to_string()), expected);
    }
}

#[test]
fn decimals_have_no_leading_zeros() {
    assert_eq!(decimal(0), "0");
    assert_eq!(decimal(9), "9");
    assert_eq!(decimal(10), "10");
    assert_eq!(decimal(1203), "1203");
    assert_eq!(decimal(u64::MAX), "18446744073709551615");
}

#[test]
fn decimals_read_back() {
    for n in [0u64, 7, 99, 100, 4294967295, 4294967296, u64::MAX] {
        assert_eq!(decimal(n).parse::<u64>(), Ok(n));
    }
}

#[test]
fn signed_decimals() {
    assert_eq!(signed_decimal(0), "0");
    assert_eq!(signed_decimal(42), "42");
    assert_eq!(signed_decimal(-1), "-1");
    assert_eq!(signed_decimal(i32::MIN), "-2147483648");
    assert_eq!(signed_decimal(i32::MAX), "2147483647");
}

#[test]
fn digits() {
    assert_eq!(digit(0), '0');
    assert_eq!(digit(9), '9');
    assert_eq!(digit(10), 'a');
    assert_eq!(digit(15), 'f');
}

#[test]
fn joining() {
    assert_eq!(join(&strings(&[]), ", "), "");
    assert_eq!(join(&strings(&["a"]), ", "), "a");
    assert_eq!(join(&strings(&["a", "", "b"]), ", "), "a, , b");
    assert_eq!(blanks(0), "");
    assert_eq!(blanks(4), "    ");
}

#[test]
fn layouts() {
    assert_eq!(array(Layout::Tight, &strings(&["1", "2"])), "[1,2]");
    assert_eq!(array(Layout::Spaced, &strings(&["1", "2"])), "[1, 2]");
    assert_eq!(array(Layout::Lines(4), &strings(&["1", "2"])), "[\n    1,\n    2\n  ]");
    assert_eq!(array(Layout::Lines(4), &strings(&[])), "[]");
    assert_eq!(object(Layout::Tight, &strings(&[])), "{}");
    assert_eq!(quoted("a"), "\"a\"");
    assert_eq!(member("a", "1", Layout::Tight), "\"a\":1");
    assert_eq!(member("a", "1", Layout::Spaced), "\"a\": 1");
    assert_eq!(member("a", "1", Layout::Lines(6)), "\"a\": 1");
}
