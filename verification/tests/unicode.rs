use txdc::clean::Clean;
use txdc::normalize::Normalize;
use txdc::unicode::{ControlCharRemover, NfkcNormalizer};

fn buf(s: &str) -> Vec<char> {
    s.chars().collect()
}

fn text(v: &Vec<char>) -> String {
    v.iter().collect()
}

#[test]
fn test_nfkc_normalizer_decomposes_compatibility_characters() {
    // The ffi ligature decomposes under NFKC; plain letters stay put.
    let mut data = buf("\u{fb03}ce");

    NfkcNormalizer.normalize(&mut data);

    assert_eq!(text(&data), "ffice");
}

#[test]
fn test_nfkc_normalizer_composes_combining_marks() {
    // 'e' followed by a combining acute accent composes to a single scalar.
    let mut data = buf("e\u{301}");

    NfkcNormalizer.normalize(&mut data);

    assert_eq!(text(&data), "\u{e9}");
}

#[test]
fn test_control_char_remover() {
    let mut data = buf("a\u{1}b\u{7f}c\u{9f}\nd");

    ControlCharRemover.clean(&mut data);

    // The line feed is a control character too.
    assert_eq!(text(&data), "abcd");
}
