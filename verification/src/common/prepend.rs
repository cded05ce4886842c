//! Prepend a character right before the rightmost occurrence of a target
//! character in a buffer; the mirror image of the append combinators, with
//! the predicate judged on the preceding character.

use vstd::prelude::*;

use crate::common::predicates::{InsertionPredicate, NeighborDiffers};
use crate::normalize::Normalize;
use crate::utils::{get_previous_char, last_index_of, lemma_last_index_of, rfind_char};

verus! {

/// The character immediately preceding position `j` of `s`, or `None` when
/// `j` is the first position.
pub open spec fn previous_neighbor(s: Seq<char>, j: int) -> Option<char> {
    if j > 0 {
        Some(s[j - 1])
    } else {
        None
    }
}

/// `s` with `ins` inserted immediately before the rightmost occurrence of
/// `target`; `s` unchanged when `target` does not occur.
pub open spec fn prepend_before_spec(s: Seq<char>, target: char, ins: char) -> Seq<char> {
    let j = last_index_of(s, target);
    if j < 0 {
        s
    } else {
        s.insert(j, ins)
    }
}

/// As `prepend_before_spec`, but the insertion happens only when the predicate
/// allows it, judged on the character preceding the found occurrence.
pub open spec fn prepend_before_if_spec<P: InsertionPredicate>(
    s: Seq<char>,
    target: char,
    ins: char,
    condition: P,
) -> Seq<char> {
    let j = last_index_of(s, target);
    if j < 0 {
        s
    } else if condition.spec_allows(previous_neighbor(s, j), target, ins) {
        s.insert(j, ins)
    } else {
        s
    }
}

/// Prepends a character before the rightmost occurrence of a target
/// character, unconditionally.
pub struct PrependBeforeChar {
    pub target_char: char,
    pub char_to_insert: char,
}

impl PrependBeforeChar {
    pub fn new(target_char: char, char_to_insert: char) -> (r: Self)
        ensures
            r.target_char == target_char,
            r.char_to_insert == char_to_insert,
    {
        Self { target_char, char_to_insert }
    }
}

impl Normalize for PrependBeforeChar {
    open spec fn normalized(&self, s: Seq<char>) -> Seq<char> {
        prepend_before_spec(s, self.target_char, self.char_to_insert)
    }

    fn normalize(&self, data: &mut Vec<char>) {
        proof {
            lemma_last_index_of(data@, self.target_char);
        }
        match rfind_char(data, self.target_char) {
            Some(index) => {
                data.insert(index, self.char_to_insert);
            },
            None => {},
        }
    }
}

/// Prepends a character before the rightmost occurrence of a target
/// character when the predicate allows it.
pub struct PrependBeforeCharIf<P: InsertionPredicate> {
    pub target_char: char,
    pub char_to_insert: char,
    pub condition: P,
}

impl<P: InsertionPredicate> PrependBeforeCharIf<P> {
    pub fn new(target_char: char, char_to_insert: char, condition: P) -> (r: Self)
        ensures
            r.target_char == target_char,
            r.char_to_insert == char_to_insert,
            r.condition == condition,
    {
        Self { target_char, char_to_insert, condition }
    }
}

impl<P: InsertionPredicate> Normalize for PrependBeforeCharIf<P> {
    open spec fn normalized(&self, s: Seq<char>) -> Seq<char> {
        prepend_before_if_spec(s, self.target_char, self.char_to_insert, self.condition)
    }

    fn normalize(&self, data: &mut Vec<char>) {
        proof {
            lemma_last_index_of(data@, self.target_char);
        }
        match rfind_char(data, self.target_char) {
            Some(index) => {
                let previous_char = get_previous_char(data, index);
                if self.condition.allows(previous_char, self.target_char, self.char_to_insert) {
                    data.insert(index, self.char_to_insert);
                }
            },
            None => {},
        }
    }
}

/// Prepends a character before the rightmost occurrence of a target
/// character unless the preceding character already equals it.
#[derive(Clone, Copy)]
pub struct PrependBeforeCharIfDifferent {
    pub target_char: char,
    pub char_to_insert: char,
}

impl PrependBeforeCharIfDifferent {
    pub fn new(target_char: char, char_to_insert: char) -> (r: Self)
        ensures
            r.target_char == target_char,
            r.char_to_insert == char_to_insert,
    {
        Self { target_char, char_to_insert }
    }
}

impl From<PrependBeforeCharIfDifferent> for PrependBeforeCharIf<NeighborDiffers> {
    fn from(other: PrependBeforeCharIfDifferent) -> (r: Self) {
        PrependBeforeCharIf::new(other.target_char, other.char_to_insert, NeighborDiffers)
    }
}

impl vstd::std_specs::convert::FromSpecImpl<PrependBeforeCharIfDifferent> for PrependBeforeCharIf<NeighborDiffers> {
    open spec fn obeys_from_spec() -> bool {
        true
    }

    open spec fn from_spec(other: PrependBeforeCharIfDifferent) -> Self {
        PrependBeforeCharIf {
            target_char: other.target_char,
            char_to_insert: other.char_to_insert,
            condition: NeighborDiffers,
        }
    }
}

impl Normalize for PrependBeforeCharIfDifferent {
    open spec fn normalized(&self, s: Seq<char>) -> Seq<char> {
        prepend_before_if_spec(s, self.target_char, self.char_to_insert, NeighborDiffers)
    }

    fn normalize(&self, data: &mut Vec<char>) {
        PrependBeforeCharIf::from(*self).normalize(data);
    }
}

/// Law: single-occurrence insertion — however many occurrences of `target`
/// the buffer holds, an unconditional prepend changes exactly one location,
/// right before the rightmost occurrence, and keeps everything around it.
pub proof fn lemma_prepend_single_insertion(s: Seq<char>, target: char, ins: char)
    requires
        s.contains(target),
    ensures
        ({
            let j = last_index_of(s, target);
            &&& 0 <= j < s.len()
            &&& s[j] == target
            &&& forall|k: int| j < k < s.len() ==> s[k] != target
            &&& prepend_before_spec(s, target, ins) == s.take(j) + seq![ins] + s.skip(j)
        }),
{
    lemma_last_index_of(s, target);
    let j = last_index_of(s, target);
    if j < 0 {
        assert(forall|k: int| 0 <= k < s.len() ==> s[k] != target);
        assert(!s.contains(target));
    }
    assert(s.insert(j, ins) =~= s.take(j) + seq![ins] + s.skip(j));
}

} // verus!
