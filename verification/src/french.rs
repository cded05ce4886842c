//! The French typography profile: a substitution rule set for ligatures and
//! quote styles, and a spacing pass for the punctuation marks that French
//! sets off with a space.

use vstd::prelude::*;

use crate::clean::Clean;
use crate::common::append::{append_after_if_spec, AppendAfterCharIf};
use crate::common::predicates::{NeighborDiffers, NeighborNotSpaceOrTerminal};
use crate::common::prepend::{prepend_before_if_spec, PrependBeforeCharIfDifferent};
use crate::normalize::Normalize;
use crate::substitutions::{
    apply_rules_to, rules_applied, SubstitutionRule, SubstitutionsList,
};
use crate::whitespaces::{trimmed, SpaceTrimmer};

verus! {

/// True when `rule` rewrites exactly the single scalar `c` to `rep`.
pub open spec fn singleton_rule(rule: SubstitutionRule, c: char, rep: Seq<char>) -> bool {
    rule.lo == c && rule.hi == c && rule.replacement@ == rep
}

/// The French rule table: the œ/æ ligatures to their letter pairs, the
/// grave accent and the typographic apostrophes to the ASCII apostrophe,
/// and smart double quotes and guillemets to the ASCII double quote.
pub open spec fn is_french_rules(rules: Seq<SubstitutionRule>) -> bool {
    &&& rules.len() == 12
    &&& singleton_rule(rules[0], 'œ', seq!['o', 'e'])
    &&& singleton_rule(rules[1], 'Œ', seq!['O', 'E'])
    &&& singleton_rule(rules[2], 'æ', seq!['a', 'e'])
    &&& singleton_rule(rules[3], 'Æ', seq!['A', 'E'])
    &&& singleton_rule(rules[4], '`', seq!['\''])
    &&& singleton_rule(rules[5], '’', seq!['\''])
    &&& singleton_rule(rules[6], '“', seq!['"'])
    &&& singleton_rule(rules[7], '”', seq!['"'])
    &&& singleton_rule(rules[8], '‘', seq!['\''])
    &&& singleton_rule(rules[9], '’', seq!['\''])
    &&& singleton_rule(rules[10], '«', seq!['"'])
    &&& singleton_rule(rules[11], '»', seq!['"'])
}

/// A one-character replacement fragment.
fn replacement1(a: char) -> (r: Vec<char>)
    ensures
        r@ == seq![a],
{
    let mut r: Vec<char> = Vec::new();
    r.push(a);
    proof {
        assert(r@ =~= seq![a]);
    }
    r
}

/// A two-character replacement fragment.
fn replacement2(a: char, b: char) -> (r: Vec<char>)
    ensures
        r@ == seq![a, b],
{
    let mut r: Vec<char> = Vec::new();
    r.push(a);
    r.push(b);
    proof {
        assert(r@ =~= seq![a, b]);
    }
    r
}

/// The substitution rule set of the French profile.
pub struct FrenchSubstitutions {
    pub substitutions_list: SubstitutionsList,
    pub unicode_block_scope: Option<String>,
}

impl FrenchSubstitutions {
    pub fn new() -> (r: FrenchSubstitutions)
        ensures
            is_french_rules(r.substitutions_list@),
            r.unicode_block_scope is None,
    {
        let mut substitutions_list: SubstitutionsList = Vec::new();
        substitutions_list.push(SubstitutionRule::new('œ', 'œ', replacement2('o', 'e')));
        substitutions_list.push(SubstitutionRule::new('Œ', 'Œ', replacement2('O', 'E')));
        substitutions_list.push(SubstitutionRule::new('æ', 'æ', replacement2('a', 'e')));
        substitutions_list.push(SubstitutionRule::new('Æ', 'Æ', replacement2('A', 'E')));
        substitutions_list.push(SubstitutionRule::new('`', '`', replacement1('\'')));
        substitutions_list.push(SubstitutionRule::new('’', '’', replacement1('\'')));
        substitutions_list.push(SubstitutionRule::new('“', '“', replacement1('"')));
        substitutions_list.push(SubstitutionRule::new('”', '”', replacement1('"')));
        substitutions_list.push(SubstitutionRule::new('‘', '‘', replacement1('\'')));
        substitutions_list.push(SubstitutionRule::new('’', '’', replacement1('\'')));
        substitutions_list.push(SubstitutionRule::new('«', '«', replacement1('"')));
        substitutions_list.push(SubstitutionRule::new('»', '»', replacement1('"')));
        proof {
            assert(substitutions_list@.len() == 12);
            assert(singleton_rule(substitutions_list@[0], 'œ', seq!['o', 'e']));
            assert(singleton_rule(substitutions_list@[1], 'Œ', seq!['O', 'E']));
            assert(singleton_rule(substitutions_list@[2], 'æ', seq!['a', 'e']));
            assert(singleton_rule(substitutions_list@[3], 'Æ', seq!['A', 'E']));
            assert(singleton_rule(substitutions_list@[4], '`', seq!['\'']));
            assert(singleton_rule(substitutions_list@[5], '’', seq!['\'']));
            assert(singleton_rule(substitutions_list@[6], '“', seq!['"']));
            assert(singleton_rule(substitutions_list@[7], '”', seq!['"']));
            assert(singleton_rule(substitutions_list@[8], '‘', seq!['\'']));
            assert(singleton_rule(substitutions_list@[9], '’', seq!['\'']));
            assert(singleton_rule(substitutions_list@[10], '«', seq!['"']));
            assert(singleton_rule(substitutions_list@[11], '»', seq!['"']));
        }
        FrenchSubstitutions { substitutions_list, unicode_block_scope: None }
    }
}

impl Clean for FrenchSubstitutions {
    open spec fn cleaned(&self, s: Seq<char>) -> Seq<char> {
        rules_applied(s, self.substitutions_list@)
    }

    fn clean(&self, data: &mut Vec<char>) {
        apply_rules_to(&self.substitutions_list, data);
    }
}

/// The spacing pass of the French profile: a space is prepended before the
/// punctuation that takes a leading space and appended after the
/// punctuation that takes a trailing space — each judged at the rightmost
/// occurrence only — and the buffer's edges are trimmed afterwards.
pub open spec fn french_typography_spec(s: Seq<char>) -> Seq<char> {
    let s1 = prepend_before_if_spec(s, '»', ' ', NeighborDiffers);
    let s2 = prepend_before_if_spec(s1, '(', ' ', NeighborDiffers);
    let s3 = prepend_before_if_spec(s2, ':', ' ', NeighborDiffers);
    let s4 = prepend_before_if_spec(s3, ';', ' ', NeighborDiffers);
    let s5 = prepend_before_if_spec(s4, '!', ' ', NeighborDiffers);
    let s6 = prepend_before_if_spec(s5, '?', ' ', NeighborDiffers);
    let s7 = prepend_before_if_spec(s6, '«', ' ', NeighborDiffers);
    let s8 = append_after_if_spec(s7, '.', ' ', NeighborNotSpaceOrTerminal);
    let s9 = append_after_if_spec(s8, '«', ' ', NeighborNotSpaceOrTerminal);
    let s10 = append_after_if_spec(s9, ',', ' ', NeighborNotSpaceOrTerminal);
    let s11 = append_after_if_spec(s10, ')', ' ', NeighborNotSpaceOrTerminal);
    let s12 = append_after_if_spec(s11, ':', ' ', NeighborNotSpaceOrTerminal);
    let s13 = append_after_if_spec(s12, ';', ' ', NeighborNotSpaceOrTerminal);
    trimmed(s13)
}

/// The spacing rules of French typography, built from the conditional
/// insertion combinators. Each pass acts at the rightmost occurrence of its
/// punctuation character only.
pub struct FrenchTypography;

impl FrenchTypography {
    pub fn new() -> (r: FrenchTypography)
        ensures
            r == FrenchTypography,
    {
        FrenchTypography
    }
}

impl Normalize for FrenchTypography {
    open spec fn normalized(&self, s: Seq<char>) -> Seq<char> {
        french_typography_spec(s)
    }

    fn normalize(&self, data: &mut Vec<char>) {
        PrependBeforeCharIfDifferent::new('»', ' ').normalize(data);
        PrependBeforeCharIfDifferent::new('(', ' ').normalize(data);
        PrependBeforeCharIfDifferent::new(':', ' ').normalize(data);
        PrependBeforeCharIfDifferent::new(';', ' ').normalize(data);
        PrependBeforeCharIfDifferent::new('!', ' ').normalize(data);
        PrependBeforeCharIfDifferent::new('?', ' ').normalize(data);
        PrependBeforeCharIfDifferent::new('«', ' ').normalize(data);
        AppendAfterCharIf::new('.', ' ', NeighborNotSpaceOrTerminal).normalize(data);
        AppendAfterCharIf::new('«', ' ', NeighborNotSpaceOrTerminal).normalize(data);
        AppendAfterCharIf::new(',', ' ', NeighborNotSpaceOrTerminal).normalize(data);
        AppendAfterCharIf::new(')', ' ', NeighborNotSpaceOrTerminal).normalize(data);
        AppendAfterCharIf::new(':', ' ', NeighborNotSpaceOrTerminal).normalize(data);
        AppendAfterCharIf::new(';', ' ', NeighborNotSpaceOrTerminal).normalize(data);
        SpaceTrimmer::new().clean(data);
    }
}

} // verus!
