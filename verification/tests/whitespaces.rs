use txdc::clean::Clean;
use txdc::normalize::Normalize;
use txdc::whitespaces::{
    ConsecutiveWhiteSpaceRemover, SpaceNormalizer, SpaceTrimmer, WhitespaceNormalizer,
};

fn buf(s: &str) -> Vec<char> {
    s.chars().collect()
}

fn text(v: &Vec<char>) -> String {
    v.iter().collect()
}

#[test]
fn test_trim_spaces() {
    let input = " \tlorem ipsum dolor sit amet, consectetur adipiscing elit.\n ";
    let expected = "lorem ipsum dolor sit amet, consectetur adipiscing elit.";

    let mut data = buf(input);
    SpaceTrimmer.clean(&mut data);

    assert_eq!(text(&data), expected);
}

#[test]
fn test_remove_consecutive_spaces() {
    let input = "lorem ipsum dolor sit\t\n amet, consectetur adipiscing elit.\n ";
    let expected = "lorem ipsum dolor sit\tamet, consectetur adipiscing elit.\n";

    let mut data = buf(input);
    ConsecutiveWhiteSpaceRemover.clean(&mut data);

    assert_eq!(text(&data), expected);
}

#[test]
fn test_space_normalizer() {
    let input = "lorem ipsum dolor sit\t\n amet, consectetur adipiscing elit.\n ";
    let expected = "lorem ipsum dolor sit   amet, consectetur adipiscing elit.  ";

    let mut data = buf(input);
    SpaceNormalizer.normalize(&mut data);

    assert_eq!(text(&data), expected);
}

#[test]
fn test_whitespace_normalizer() {
    let input = "lorem ipsum dolor sit\t\n amet, consectetur adipiscing elit.\n ";
    let expected = "lorem ipsum dolor sit amet, consectetur adipiscing elit.";

    let mut data = buf(input);
    WhitespaceNormalizer.clean(&mut data);

    assert_eq!(text(&data), expected);
}

#[test]
fn test_remove_consecutive_spaces_ignores_non_ascii_whitespace() {
    // The collapse stage recognizes only the ASCII whitespace subset: a run
    // of no-break spaces survives it untouched unless `SpaceNormalizer`
    // canonicalized them first.
    let input = "a\u{a0}\u{a0}b";

    let mut data = buf(input);
    ConsecutiveWhiteSpaceRemover.clean(&mut data);
    assert_eq!(text(&data), input);

    let mut data = buf(input);
    SpaceNormalizer.normalize(&mut data);
    ConsecutiveWhiteSpaceRemover.clean(&mut data);
    assert_eq!(text(&data), "a b");
}

#[test]
fn test_space_trimmer_twice_equals_once() {
    // Non-ASCII whitespace at the edges too: no-break space and ideographic
    // space are trimmed like ASCII whitespace.
    let input = "\u{a0} \tlorem ipsum.\n\u{3000} ";

    let mut once = buf(input);
    SpaceTrimmer.clean(&mut once);

    let mut twice = once.clone();
    SpaceTrimmer.clean(&mut twice);

    assert_eq!(text(&once), "lorem ipsum.");
    assert_eq!(twice, once);
}

#[test]
fn test_whitespace_normalizer_twice_equals_once() {
    let input = " lorem\u{a0}\u{a0}ipsum \t dolor \n";

    let mut once = buf(input);
    WhitespaceNormalizer.clean(&mut once);

    let mut twice = once.clone();
    WhitespaceNormalizer.clean(&mut twice);

    assert_eq!(text(&once), "lorem ipsum dolor");
    assert_eq!(twice, once);
}

#[test]
fn test_whitespace_suite_on_empty_and_all_space_input() {
    let mut data = buf("");
    WhitespaceNormalizer.clean(&mut data);
    assert_eq!(text(&data), "");

    let mut data = buf(" \t\n\u{a0} ");
    WhitespaceNormalizer.clean(&mut data);
    assert_eq!(text(&data), "");

    let mut data = buf(" \t ");
    SpaceTrimmer.clean(&mut data);
    assert_eq!(text(&data), "");
}
