use txdc::common::append::{AppendAfterChar, AppendAfterCharIf, AppendAfterCharIfDifferent};
use txdc::common::predicates::{NeighborDiffers, NeighborNotAsciiWhitespace};
use txdc::normalize::Normalize;

fn buf(s: &str) -> Vec<char> {
    s.chars().collect()
}

fn text(v: &Vec<char>) -> String {
    v.iter().collect()
}

#[test]
fn test_append() {
    let mut data = buf("abc");

    let append = AppendAfterChar::new('b', 'd');
    append.normalize(&mut data);

    assert_eq!(text(&data), "abdc");

    let mut data = buf("ab\u{153}c");
    let append = AppendAfterChar::new('\u{153}', 'd');

    append.normalize(&mut data);
    assert_eq!(text(&data), "ab\u{153}dc");
}

#[test]
fn test_should_not_append_if() {
    let mut data = buf("; ");

    let append_if = AppendAfterCharIf::new(';', ' ', NeighborDiffers);
    append_if.normalize(&mut data);

    assert_eq!("; ", text(&data));

    let mut data = buf(" : ee");

    let append_if = AppendAfterCharIf::new(':', ' ', NeighborDiffers);
    append_if.normalize(&mut data);

    assert_eq!(" : ee", text(&data));
}

#[test]
fn test_should_append_if() {
    let mut data = buf(";");

    let append_if = AppendAfterCharIf::new(';', ' ', NeighborDiffers);
    append_if.normalize(&mut data);

    assert_eq!("; ", text(&data));

    let mut data = buf(":eee");

    let append_if = AppendAfterCharIf::new(':', ' ', NeighborNotAsciiWhitespace);
    append_if.normalize(&mut data);

    assert_eq!(": eee", text(&data));
}

#[test]
fn test_should_append_if_different() {
    let mut data = buf(";");

    let append_if_different = AppendAfterCharIfDifferent::new(';', ' ');
    append_if_different.normalize(&mut data);

    assert_eq!("; ", text(&data));
}

#[test]
fn test_should_not_append_if_different() {
    let mut data = buf("; ");

    let append_if_different = AppendAfterCharIfDifferent::new(';', ' ');
    append_if_different.normalize(&mut data);

    assert_eq!("; ", text(&data));

    let mut data = buf("; e");

    let append_if_different = AppendAfterCharIfDifferent::new(';', ' ');
    append_if_different.normalize(&mut data);

    assert_eq!("; e", text(&data));

    let mut data = buf(" : eee");

    let append_if_different = AppendAfterCharIfDifferent::new(':', ' ');
    append_if_different.normalize(&mut data);

    assert_eq!(" : eee", text(&data));
}

#[test]
fn test_append_touches_only_rightmost_occurrence() {
    // Four occurrences of the target; exactly one location changes.
    let mut data = buf("b.b.b.b");

    AppendAfterChar::new('b', 'd').normalize(&mut data);

    assert_eq!(text(&data), "b.b.b.bd");
}

#[test]
fn test_append_on_absent_target_is_a_no_op() {
    let mut data = buf("abc");

    AppendAfterChar::new('z', 'd').normalize(&mut data);

    assert_eq!(text(&data), "abc");

    let mut data = buf("");

    AppendAfterChar::new('z', 'd').normalize(&mut data);

    assert_eq!(text(&data), "");
}
