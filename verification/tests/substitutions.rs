use txdc::clean::Clean;
use txdc::substitutions::{Substitute, SubstitutionRule};

fn buf(s: &str) -> Vec<char> {
    s.chars().collect()
}

fn text(v: &Vec<char>) -> String {
    v.iter().collect()
}

fn rep(s: &str) -> Vec<char> {
    s.chars().collect()
}

#[test]
fn test_substitutions_list_generation() {
    let s1 = vec![SubstitutionRule::new('\u{e0}', '\u{e0}', rep("a"))];

    let expected_1 = vec![SubstitutionRule::new('\u{e0}', '\u{e0}', rep("a"))];

    assert_eq!(s1, expected_1);

    let s2 = vec![
        SubstitutionRule::new('\u{e0}', '\u{e0}', rep("a")),
        SubstitutionRule::new('a', 'z', rep("")),
    ];

    let expected_2 = vec![
        SubstitutionRule::new('\u{e0}', '\u{e0}', rep("a")),
        SubstitutionRule::new('a', 'z', rep("")),
    ];

    assert_eq!(s2, expected_2);
}

#[test]
fn test_substitute() {
    let substitutions = vec![
        SubstitutionRule::new('\u{153}', '\u{153}', rep("oe")),
        SubstitutionRule::new('\u{e6}', '\u{e6}', rep("ae")),
    ];

    let mut input = buf("\u{e6} \u{153}");
    Substitute::new(substitutions, None).clean(&mut input);

    assert_eq!("ae oe", text(&input));
}

#[test]
fn test_substitute_whole_range() {
    // A full multi-character range: every scalar value in it is rewritten.
    let substitutions = vec![SubstitutionRule::new('a', 'z', rep(""))];

    let mut input = buf("abz!B");
    Substitute::new(substitutions, None).clean(&mut input);

    assert_eq!("!B", text(&input));
}

#[test]
fn test_substitute_leaves_no_range_character_behind() {
    // Disjoint ranges whose replacements stay out of every range: after the
    // pass no character from any declared range remains.
    let substitutions = vec![
        SubstitutionRule::new('a', 'c', rep("x")),
        SubstitutionRule::new('0', '2', rep("")),
    ];

    let mut input = buf("a0b1c2d3");
    Substitute::new(substitutions, None).clean(&mut input);

    let out = text(&input);
    assert_eq!(out, "xxxd3");
    assert!(!out.chars().any(|c| ('a'..='c').contains(&c) || ('0'..='2').contains(&c)));
}

#[test]
fn test_substitute_replacement_is_not_rescanned() {
    // The replacement contains the matched character itself; one pass must
    // not loop and must rewrite each occurrence exactly once.
    let substitutions = vec![SubstitutionRule::new('x', 'x', rep("xx"))];

    let mut input = buf("axa");
    Substitute::new(substitutions, None).clean(&mut input);

    assert_eq!("axxa", text(&input));
}

#[test]
fn test_substitute_empty_rule_set_and_empty_input() {
    let mut input = buf("abc");
    Substitute::new(Vec::new(), None).clean(&mut input);
    assert_eq!("abc", text(&input));

    let substitutions = vec![SubstitutionRule::new('a', 'c', rep("x"))];
    let mut input = buf("");
    Substitute::new(substitutions, None).clean(&mut input);
    assert_eq!("", text(&input));
}
