use glimpse::text::{
    chars_of, decimal_string, is_whitespace, parse_u32, push_number, string_of, text_is, trim,
};

fn parse(s: &str) -> Option<u32> {
    let v = chars_of(s);
    parse_u32(&v, 0, v.len())
}

#[test]
fn numbers_are_written_in_decimal() {
    assert_eq!(decimal_string(0), "0");
    assert_eq!(decimal_string(9), "9");
    assert_eq!(decimal_string(10), "10");
    assert_eq!(decimal_string(u64::MAX), "18446744073709551615");
}

#[test]
fn numbers_are_padded_with_zeros() {
    let mut s = "VK".to_string();
    push_number(&mut s, 7, 16, 2);
    assert_eq!(s, "VK07");
    let mut s = String::new();
    push_number(&mut s, 0xBEEF, 16, 2);
    assert_eq!(s, "BEEF");
    let mut s = String::new();
    push_number(&mut s, 31, 10, 4);
    assert_eq!(s, "0031");
}

#[test]
fn written_numbers_read_back() {
    for n in [0u32, 1, 10, 99, 12345, u32::MAX] {
        assert_eq!(parse(&decimal_string(n as u64)), Some(n));
    }
}

#[test]
fn numbers_are_read_as_the_standard_library_reads_them() {
    for s in [
        "", "+", "-", "0", "+7", "-0", "007", "4294967295", "4294967296", "99999999999999999999",
        " 1", "1 ", "1_0", "+-1", "\u{0661}", "12a",
    ] {
        assert_eq!(parse(s), s.parse::<u32>().ok(), "{s:?}");
    }
}

#[test]
fn white_space_is_what_the_standard_library_takes_for_it() {
    for n in 0..=0x10FFFFu32 {
        if let Some(c) = char::from_u32(n) {
            assert_eq!(is_whitespace(c), c.is_whitespace(), "{n:x}");
        }
    }
}

#[test]
fn texts_are_trimmed_at_both_ends() {
    for s in ["", " ", "\u{3000}\t", "a", "  a b\r", "\u{a0}x\u{85}", "no"] {
        let v = chars_of(s);
        let (lo, hi) = trim(&v, 0, v.len());
        assert_eq!(string_of(&v, lo, hi), s.trim());
    }
}

#[test]
fn parts_of_a_text_are_told_apart() {
    let v = chars_of("clip_secs=5");
    assert!(text_is(&v, 0, 9, "clip_secs"));
    assert!(!text_is(&v, 0, 9, "clip_sec"));
    assert!(!text_is(&v, 0, 9, "clip_secz"));
    assert!(text_is(&v, 3, 3, ""));
    assert_eq!(string_of(&v, 10, 11), "5");
}
