use txdc::utils::{get_next_char, get_previous_char};

fn buf(s: &str) -> Vec<char> {
    s.chars().collect()
}

#[test]
fn test_get_previous_char() {
    assert_eq!(get_previous_char(&buf("abc"), 0), None);
    assert_eq!(get_previous_char(&buf("abc"), 1), Some('a'));
    assert_eq!(get_previous_char(&buf("abc"), 2), Some('b'));
    assert_eq!(get_previous_char(&buf("abc"), 3), Some('c'));
    assert_eq!(get_previous_char(&buf("abc"), 4), None);
    assert_eq!(get_previous_char(&buf("\u{153}abc"), 1), Some('\u{153}'));
    assert_eq!(get_previous_char(&buf("a\u{153}bc"), 1), Some('a'));
}

#[test]
fn test_get_next_char() {
    assert_eq!(get_next_char(&buf("abc"), 0), Some('a'));
    assert_eq!(get_next_char(&buf("abc"), 2), Some('c'));
    assert_eq!(get_next_char(&buf("abc"), 3), None);
    assert_eq!(get_next_char(&buf("a\u{153}bc"), 1), Some('\u{153}'));
    assert_eq!(get_next_char(&buf(""), 0), None);
}
