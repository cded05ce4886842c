use txdc::clean::Clean;
use txdc::french::{FrenchSubstitutions, FrenchTypography};
use txdc::normalize::Normalize;

fn buf(s: &str) -> Vec<char> {
    s.chars().collect()
}

fn text(v: &Vec<char>) -> String {
    v.iter().collect()
}

#[test]
fn test_french_typography() {
    let mut input = buf("\u{ab}Je suis un texte: en fran\u{e7}ais.(e).\u{bb}");
    let expected = "\u{ab} Je suis un texte : en fran\u{e7}ais. (e). \u{bb}";

    FrenchTypography::new().normalize(&mut input);

    assert_eq!(text(&input), expected);
}

#[test]
fn test_french_substitutions() {
    let mut input = buf("\u{153}uf \u{ab}\u{e6}\u{bb} \u{2019}");

    FrenchSubstitutions::new().clean(&mut input);

    assert_eq!(text(&input), "oeuf \"ae\" '");
}
