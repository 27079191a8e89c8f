use glimpse::wide::{fit, le_bytes, text_in_buffer, wide};

#[test]
fn wide_strings_end_with_a_zero() {
    assert_eq!(wide(""), vec![0]);
    assert_eq!(wide("Ab"), vec![65, 98, 0]);
}

#[test]
fn wide_strings_are_utf_16() {
    for s in ["Glimpse", "\u{d7}\u{25b6}", "\u{1F600}x\u{10FFFF}\u{10000}", "\u{FFFF}\u{E000}\u{D7FF}"] {
        let mut expected: Vec<u16> = s.encode_utf16().collect();
        assert_eq!(wide(s)[..expected.len()], expected[..]);
        expected.push(0);
        assert_eq!(wide(s), expected);
    }
}

#[test]
fn wide_strings_read_back() {
    for s in ["", "C:\\a b.png", "\u{1F600}", "\u{e9}\u{3000}"] {
        assert_eq!(text_in_buffer(&wide(s)), s);
    }
}

#[test]
fn a_buffer_is_read_up_to_its_first_zero() {
    assert_eq!(text_in_buffer(&vec![104, 105, 0, 104]), "hi");
    assert_eq!(text_in_buffer(&vec![104, 105]), "hi");
    assert_eq!(text_in_buffer(&vec![]), "");
    assert_eq!(text_in_buffer(&vec![0, 65]), "");
}

#[test]
fn lone_surrogates_become_replacement_characters() {
    for v in [
        vec![0xD800u16],
        vec![0xDC00],
        vec![65, 0xD83D, 66],
        vec![0xD83D, 0xD83D, 0xDE00],
        vec![0xDE00, 0xD83D],
        vec![0xD83D, 0xDE00, 0xDE00],
    ] {
        assert_eq!(text_in_buffer(&v), String::from_utf16_lossy(&v));
    }
}

#[test]
fn a_long_text_is_cut_to_its_buffer() {
    assert_eq!(fit("abc", 5), vec![97, 98, 99, 0]);
    assert_eq!(fit("abc", 4), vec![97, 98, 99, 0]);
    assert_eq!(fit("abc", 3), vec![97, 98, 99]);
    assert_eq!(fit("abc", 2), vec![97, 98]);
    assert_eq!(fit("abc", 0), Vec::<u16>::new());
}

#[test]
fn bytes_are_laid_out_low_byte_first() {
    assert_eq!(le_bytes(&vec![0x1234, 0x00FF]), vec![0x34, 0x12, 0xFF, 0x00]);
}
