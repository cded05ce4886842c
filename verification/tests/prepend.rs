use txdc::common::predicates::NeighborDiffers;
use txdc::common::prepend::{PrependBeforeChar, PrependBeforeCharIf, PrependBeforeCharIfDifferent};
use txdc::normalize::Normalize;

fn buf(s: &str) -> Vec<char> {
    s.chars().collect()
}

fn text(v: &Vec<char>) -> String {
    v.iter().collect()
}

#[test]
fn test_prepend() {
    let mut data = buf("abc");

    let prepend = PrependBeforeChar::new('b', 'd');
    prepend.normalize(&mut data);

    assert_eq!(text(&data), "adbc");

    let mut data = buf("ab\u{153}c");
    let prepend = PrependBeforeChar::new('\u{153}', 'd');

    prepend.normalize(&mut data);
    assert_eq!(text(&data), "abd\u{153}c");
}

#[test]
fn test_should_not_prepend_if() {
    let mut data = buf(" ;");

    let prepend_if = PrependBeforeCharIf::new(';', ' ', NeighborDiffers);
    prepend_if.normalize(&mut data);

    assert_eq!(" ;", text(&data));

    let mut data = buf("\u{153};");

    let prepend_if = PrependBeforeCharIf::new(';', '\u{153}', NeighborDiffers);
    prepend_if.normalize(&mut data);

    assert_eq!("\u{153};", text(&data));

    let mut data = buf("lor\u{153}m");

    let prepend_if = PrependBeforeCharIf::new('\u{153}', '\u{153}', NeighborDiffers);
    prepend_if.normalize(&mut data);

    assert_eq!("lor\u{153}\u{153}m", text(&data));
}

#[test]
fn test_should_prepend_if() {
    let mut data = buf(";");

    let prepend_if = PrependBeforeCharIf::new(';', ' ', NeighborDiffers);
    prepend_if.normalize(&mut data);

    assert_eq!(" ;", text(&data));
}

#[test]
fn test_should_prepend_if_different() {
    let mut data = buf(";");

    let prepend_if_different = PrependBeforeCharIfDifferent::new(';', ' ');
    prepend_if_different.normalize(&mut data);

    assert_eq!(" ;", text(&data));

    let mut data = buf("lorem;");

    let prepend_if_different = PrependBeforeCharIfDifferent::new(';', ' ');
    prepend_if_different.normalize(&mut data);

    assert_eq!("lorem ;", text(&data));
}

#[test]
fn test_should_not_prepend_if_different() {
    let mut data = buf(" ;");

    let prepend_if_different = PrependBeforeCharIfDifferent::new(';', ' ');
    prepend_if_different.normalize(&mut data);

    assert_eq!(" ;", text(&data));
}

#[test]
fn test_prepend_if_different_on_already_spaced_punctuation() {
    // Already set off with spaces on both sides: nothing changes.
    let mut data = buf(" ; ");

    let prepend_if_different = PrependBeforeCharIfDifferent::new(';', ' ');
    prepend_if_different.normalize(&mut data);

    assert_eq!(" ; ", text(&data));
}

#[test]
fn test_prepend_touches_only_rightmost_occurrence() {
    // Three occurrences of the target; exactly one location changes.
    let mut data = buf("b.b.b");

    PrependBeforeChar::new('b', 'd').normalize(&mut data);

    assert_eq!(text(&data), "b.b.db");
}
