//! The range-based substitution engine: every scalar value falling in a
//! declared inclusive range is rewritten to a fixed replacement fragment,
//! rule by rule in declared order, scalar value by scalar value in ascending
//! order; replacement text is never rescanned within the same pass.

use vstd::prelude::*;

use crate::chars::{char_from_u32, is_scalar_value, lemma_char_is_scalar_value};
use crate::clean::Clean;

verus! {

/// One rewriting rule: an inclusive range of scalar values paired with a
/// replacement fragment, which may be empty, one character or several.
/// A range with `lo > hi` is empty and the rule is a no-op.
#[derive(Debug, PartialEq)]
pub struct SubstitutionRule {
    pub lo: char,
    pub hi: char,
    pub replacement: Vec<char>,
}

impl SubstitutionRule {
    pub fn new(lo: char, hi: char, replacement: Vec<char>) -> (r: Self)
        ensures
            r.lo == lo,
            r.hi == hi,
            r.replacement == replacement,
    {
        Self { lo, hi, replacement }
    }
}

/// An ordered sequence of rules; order is insertion order and matters, since
/// a later rule can re-match characters introduced by an earlier rule's
/// replacement text.
pub type SubstitutionsList = Vec<SubstitutionRule>;

/// `s` with every occurrence of the scalar value `v` replaced by `rep`;
/// the replacement text itself is never rescanned for `v`.
pub open spec fn replace_scalar(s: Seq<char>, v: int, rep: Seq<char>) -> Seq<char>
    decreases s.len(),
{
    if s.len() == 0 {
        Seq::empty()
    } else if s[0] as int == v {
        rep + replace_scalar(s.drop_first(), v, rep)
    } else {
        seq![s[0]] + replace_scalar(s.drop_first(), v, rep)
    }
}

/// One rule applied: the scalar values `v..=hi` substituted through the
/// whole buffer one after the other, in ascending order. Surrogate code
/// point values match no character, so they contribute nothing.
pub open spec fn rule_applied_from(s: Seq<char>, v: int, hi: int, rep: Seq<char>) -> Seq<char>
    decreases hi - v + 1,
{
    if v > hi {
        s
    } else {
        rule_applied_from(replace_scalar(s, v, rep), v + 1, hi, rep)
    }
}

/// The effect of one whole rule on a buffer.
pub open spec fn rule_applied(s: Seq<char>, rule: SubstitutionRule) -> Seq<char> {
    rule_applied_from(s, rule.lo as int, rule.hi as int, rule.replacement@)
}

/// The rule set applied in declared order, starting from rule `i`.
pub open spec fn rules_applied_from(s: Seq<char>, rules: Seq<SubstitutionRule>, i: int) -> Seq<
    char,
>
    decreases rules.len() - i,
{
    if 0 <= i < rules.len() {
        rules_applied_from(rule_applied(s, rules[i]), rules, i + 1)
    } else {
        s
    }
}

/// The effect of a whole rule set on a buffer.
pub open spec fn rules_applied(s: Seq<char>, rules: Seq<SubstitutionRule>) -> Seq<char> {
    rules_applied_from(s, rules, 0)
}

/// A surrogate or out-of-range code point value matches no character, so
/// substituting it changes nothing.
proof fn lemma_replace_scalar_no_char(s: Seq<char>, v: int, rep: Seq<char>)
    requires
        !is_scalar_value(v),
    ensures
        replace_scalar(s, v, rep) == s,
    decreases s.len(),
{
    if s.len() > 0 {
        lemma_char_is_scalar_value(s[0]);
        lemma_replace_scalar_no_char(s.drop_first(), v, rep);
        assert(seq![s[0]] + s.drop_first() =~= s);
    }
}

/// Replaces every occurrence of the single character `c` in `data` with
/// `rep`, building the result left to right.
fn replace_scalar_pass(data: &mut Vec<char>, c: char, rep: &Vec<char>)
    ensures
        final(data)@ == replace_scalar(old(data)@, c as int, rep@),
{
    let n = data.len();
    let mut out: Vec<char> = Vec::new();
    let mut i: usize = 0;
    proof {
        assert(data@.skip(0) =~= data@);
        assert(out@ + replace_scalar(data@, c as int, rep@) =~= replace_scalar(
            data@,
            c as int,
            rep@,
        ));
    }
    while i < n
        invariant
            n == data@.len(),
            data@ == old(data)@,
            i <= n,
            replace_scalar(data@, c as int, rep@) == out@ + replace_scalar(
                data@.skip(i as int),
                c as int,
                rep@,
            ),
        decreases n - i,
    {
        let ghost pre = out@;
        let ghost t = data@.skip(i as int);
        proof {
            assert(t[0] == data@[i as int]);
            assert(t.drop_first() =~= data@.skip(i + 1));
        }
        if data[i] == c {
            let m = rep.len();
            let mut k: usize = 0;
            while k < m
                invariant
                    m == rep@.len(),
                    k <= m,
                    out@ == pre + rep@.take(k as int),
                decreases m - k,
            {
                out.push(rep[k]);
                proof {
                    assert(pre + rep@.take(k + 1) =~= (pre + rep@.take(k as int)).push(
                        rep@[k as int],
                    ));
                }
                k += 1;
            }
            proof {
                assert(rep@.take(m as int) =~= rep@);
                assert(replace_scalar(t, c as int, rep@) == rep@ + replace_scalar(
                    t.drop_first(),
                    c as int,
                    rep@,
                ));
                assert(pre + (rep@ + replace_scalar(data@.skip(i + 1), c as int, rep@)) =~= (pre
                    + rep@) + replace_scalar(data@.skip(i + 1), c as int, rep@));
            }
        } else {
            out.push(data[i]);
            proof {
                assert(data@[i as int] as int != c as int);
                assert(replace_scalar(t, c as int, rep@) == seq![t[0]] + replace_scalar(
                    t.drop_first(),
                    c as int,
                    rep@,
                ));
                assert(pre + (seq![t[0]] + replace_scalar(data@.skip(i + 1), c as int, rep@))
                    =~= pre.push(t[0]) + replace_scalar(data@.skip(i + 1), c as int, rep@));
            }
        }
        i += 1;
    }
    proof {
        assert(data@.skip(n as int) =~= Seq::<char>::empty());
        assert(out@ + Seq::<char>::empty() =~= out@);
    }
    *data = out;
}

/// Applies one rule: walks the rule's range in ascending order and
/// substitutes each scalar value through the whole buffer in turn.
fn rule_pass(data: &mut Vec<char>, rule: &SubstitutionRule)
    ensures
        final(data)@ == rule_applied(old(data)@, *rule),
{
    proof {
        lemma_char_is_scalar_value(rule.lo);
        lemma_char_is_scalar_value(rule.hi);
    }
    let lo = rule.lo as u32;
    let hi = rule.hi as u32;
    if lo > hi {
        return ;
    }
    let mut v = lo;
    while v <= hi
        invariant
            lo == rule.lo as u32,
            hi == rule.hi as u32,
            hi <= 0x10FFFF,
            lo <= v <= hi + 1,
            rule_applied(old(data)@, *rule) == rule_applied_from(
                data@,
                v as int,
                rule.hi as int,
                rule.replacement@,
            ),
        decreases hi + 1 - v,
    {
        match char_from_u32(v) {
            Some(c) => {
                replace_scalar_pass(data, c, &rule.replacement);
            },
            None => {
                proof {
                    lemma_replace_scalar_no_char(data@, v as int, rule.replacement@);
                }
            },
        }
        v = v + 1;
    }
}

/// Substitutes a set of scalar-value ranges with their replacement
/// fragments, in declared order. `unicode_block_scope` is configuration
/// carried for the caller; the engine applies the rules to the whole buffer.
pub struct Substitute {
    pub substitutions_list: SubstitutionsList,
    pub unicode_block_scope: Option<String>,
}

impl Substitute {
    pub fn new(substitutions_list: SubstitutionsList, unicode_block_scope: Option<String>) -> (r:
        Self)
        ensures
            r.substitutions_list == substitutions_list,
            r.unicode_block_scope == unicode_block_scope,
    {
        Self { substitutions_list, unicode_block_scope }
    }
}

/// The engine's core: applies a whole rule set to a buffer, in declared
/// order.
pub fn apply_rules_to(rules: &SubstitutionsList, data: &mut Vec<char>)
    ensures
        final(data)@ == rules_applied(old(data)@, rules@),
{
    let n = rules.len();
    let mut i: usize = 0;
    while i < n
        invariant
            n == rules@.len(),
            i <= n,
            rules_applied(old(data)@, rules@) == rules_applied_from(data@, rules@, i as int),
        decreases n - i,
    {
        rule_pass(data, &rules[i]);
        i += 1;
    }
}

impl Clean for Substitute {
    open spec fn cleaned(&self, s: Seq<char>) -> Seq<char> {
        rules_applied(s, self.substitutions_list@)
    }

    fn clean(&self, data: &mut Vec<char>) {
        apply_rules_to(&self.substitutions_list, data);
    }
}

/// True when the ranges of the rules are pairwise disjoint.
pub open spec fn disjoint_ranges(rules: Seq<SubstitutionRule>) -> bool {
    forall|i: int, j: int|
        #![trigger rules[i], rules[j]]
        0 <= i < j < rules.len() ==> ((rules[i].hi as int) < rules[j].lo as int
            || (rules[j].hi as int) < rules[i].lo as int)
}

/// True when `c` falls in the declared range of some rule of the set.
pub open spec fn in_some_range(c: char, rules: Seq<SubstitutionRule>) -> bool {
    exists|i: int|
        0 <= i < rules.len() && (#[trigger] rules[i]).lo as int <= c as int <= rules[i].hi as int
}

/// True when no replacement character of any rule falls in the declared
/// range of any rule of the set.
pub open spec fn replacements_avoid_ranges(rules: Seq<SubstitutionRule>) -> bool {
    forall|i: int, k: int|
        0 <= i < rules.len() && 0 <= k < (#[trigger] rules[i]).replacement@.len()
            ==> !in_some_range(#[trigger] rules[i].replacement@[k], rules)
}

/// Every character of a substituted buffer comes from the replacement text
/// or survived because its value is not the substituted one.
proof fn lemma_replace_scalar_contains(s: Seq<char>, v: int, rep: Seq<char>, w: char)
    requires
        replace_scalar(s, v, rep).contains(w),
    ensures
        rep.contains(w) || (s.contains(w) && w as int != v),
    decreases s.len(),
{
    let r = replace_scalar(s, v, rep);
    let head: Seq<char> = if s[0] as int == v {
        rep
    } else {
        seq![s[0]]
    };
    let tail = replace_scalar(s.drop_first(), v, rep);
    let idx = choose|idx: int| 0 <= idx < r.len() && r[idx] == w;
    if idx < head.len() {
        if s[0] as int == v {
            assert(rep[idx] == w);
        } else {
            assert(w == s[0]);
            assert(s.contains(w)) by {
                assert(s[0] == w);
            }
        }
    } else {
        assert(tail[idx - head.len()] == w);
        assert(tail.contains(w));
        lemma_replace_scalar_contains(s.drop_first(), v, rep, w);
        if s.drop_first().contains(w) {
            let k = choose|k: int| 0 <= k < s.drop_first().len() && s.drop_first()[k] == w;
            assert(s[k + 1] == w);
        }
    }
}

proof fn lemma_rule_applied_from_contains(s: Seq<char>, v: int, hi: int, rep: Seq<char>, w: char)
    requires
        rule_applied_from(s, v, hi, rep).contains(w),
    ensures
        rep.contains(w) || (s.contains(w) && !(v <= w as int <= hi)),
    decreases hi - v + 1,
{
    if v <= hi {
        lemma_rule_applied_from_contains(replace_scalar(s, v, rep), v + 1, hi, rep, w);
        if replace_scalar(s, v, rep).contains(w) {
            lemma_replace_scalar_contains(s, v, rep, w);
        }
    }
}

proof fn lemma_rules_applied_from_contains(
    s: Seq<char>,
    rules: Seq<SubstitutionRule>,
    i: int,
    w: char,
)
    requires
        0 <= i,
        rules_applied_from(s, rules, i).contains(w),
    ensures
        (exists|j: int| i <= j < rules.len() && (#[trigger] rules[j]).replacement@.contains(w)) || (
        s.contains(w) && forall|j: int|
            i <= j < rules.len() ==> !((#[trigger] rules[j]).lo as int <= w as int
                <= rules[j].hi as int)),
    decreases rules.len() - i,
{
    if 0 <= i < rules.len() {
        lemma_rules_applied_from_contains(rule_applied(s, rules[i]), rules, i + 1, w);
        if exists|j: int|
            i + 1 <= j < rules.len() && (#[trigger] rules[j]).replacement@.contains(w) {
            let j0 = choose|j: int|
                i + 1 <= j < rules.len() && (#[trigger] rules[j]).replacement@.contains(w);
            assert(i <= j0 < rules.len() && rules[j0].replacement@.contains(w));
        } else {
            lemma_rule_applied_from_contains(
                s,
                rules[i].lo as int,
                rules[i].hi as int,
                rules[i].replacement@,
                w,
            );
            if rules[i].replacement@.contains(w) {
                assert(i <= i < rules.len() && rules[i].replacement@.contains(w));
            } else {
                assert(s.contains(w) && !(rules[i].lo as int <= w as int <= rules[i].hi as int));
                assert(forall|j: int|
                    i <= j < rules.len() ==> !((#[trigger] rules[j]).lo as int <= w as int
                        <= rules[j].hi as int));
            }
        }
    }
}

/// Law: substitution completeness — for every input and every rule set with
/// pairwise disjoint ranges whose replacement text stays out of every
/// declared range, the rewritten buffer contains no scalar value from any
/// declared range.
pub proof fn lemma_substitution_completeness(s: Seq<char>, rules: Seq<SubstitutionRule>)
    requires
        disjoint_ranges(rules),
        replacements_avoid_ranges(rules),
    ensures
        forall|c: char|
            in_some_range(c, rules) ==> !(#[trigger] rules_applied(s, rules).contains(c)),
{
    assert forall|c: char|
        in_some_range(c, rules) implies !(#[trigger] rules_applied(s, rules).contains(c)) by {
        if rules_applied(s, rules).contains(c) {
            lemma_rules_applied_from_contains(s, rules, 0, c);
            if exists|j: int| 0 <= j < rules.len() && (#[trigger] rules[j]).replacement@.contains(
                c,
            ) {
                let j = choose|j: int|
                    0 <= j < rules.len() && (#[trigger] rules[j]).replacement@.contains(c);
                let k = choose|k: int|
                    0 <= k < rules[j].replacement@.len() && rules[j].replacement@[k] == c;
                assert(!in_some_range(rules[j].replacement@[k], rules));
            } else {
                let m = choose|m: int|
                    0 <= m < rules.len() && (#[trigger] rules[m]).lo as int <= c as int
                        <= rules[m].hi as int;
                assert(!(rules[m].lo as int <= c as int <= rules[m].hi as int));
            }
        }
    }
}

} // verus!
