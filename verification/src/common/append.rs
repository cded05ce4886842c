//! Append a character right after the rightmost occurrence of a target
//! character in a buffer; each call is a single-shot mutation at one
//! location, never a sweep over every occurrence.

use vstd::prelude::*;

use crate::common::predicates::{InsertionPredicate, NeighborDiffers};
use crate::normalize::Normalize;
use crate::utils::{get_next_char, last_index_of, lemma_last_index_of, rfind_char};

verus! {

/// The character immediately following position `j` of `s`, or `None` when
/// `j` is the last position.
pub open spec fn next_neighbor(s: Seq<char>, j: int) -> Option<char> {
    if j + 1 < s.len() {
        Some(s[j + 1])
    } else {
        None
    }
}

/// `s` with `ins` inserted immediately after the rightmost occurrence of
/// `target`; `s` unchanged when `target` does not occur.
pub open spec fn append_after_spec(s: Seq<char>, target: char, ins: char) -> Seq<char> {
    let j = last_index_of(s, target);
    if j < 0 {
        s
    } else {
        s.insert(j + 1, ins)
    }
}

/// As `append_after_spec`, but the insertion happens only when the predicate
/// allows it, judged on the character following the found occurrence.
pub open spec fn append_after_if_spec<P: InsertionPredicate>(
    s: Seq<char>,
    target: char,
    ins: char,
    condition: P,
) -> Seq<char> {
    let j = last_index_of(s, target);
    if j < 0 {
        s
    } else if condition.spec_allows(next_neighbor(s, j), target, ins) {
        s.insert(j + 1, ins)
    } else {
        s
    }
}

/// Appends a character after the rightmost occurrence of a target
/// character, unconditionally.
pub struct AppendAfterChar {
    pub target_char: char,
    pub char_to_insert: char,
}

impl AppendAfterChar {
    pub fn new(target_char: char, char_to_insert: char) -> (r: Self)
        ensures
            r.target_char == target_char,
            r.char_to_insert == char_to_insert,
    {
        Self { target_char, char_to_insert }
    }
}

impl Normalize for AppendAfterChar {
    open spec fn normalized(&self, s: Seq<char>) -> Seq<char> {
        append_after_spec(s, self.target_char, self.char_to_insert)
    }

    fn normalize(&self, data: &mut Vec<char>) {
        proof {
            lemma_last_index_of(data@, self.target_char);
        }
        match rfind_char(data, self.target_char) {
            Some(index) => {
                let n = data.len();
                assert(index < n);
                data.insert(index + 1, self.char_to_insert);
            },
            None => {},
        }
    }
}

/// Appends a character after the rightmost occurrence of a target character
/// when the predicate allows it.
pub struct AppendAfterCharIf<P: InsertionPredicate> {
    pub target_char: char,
    pub char_to_insert: char,
    pub condition: P,
}

impl<P: InsertionPredicate> AppendAfterCharIf<P> {
    pub fn new(target_char: char, char_to_insert: char, condition: P) -> (r: Self)
        ensures
            r.target_char == target_char,
            r.char_to_insert == char_to_insert,
            r.condition == condition,
    {
        Self { target_char, char_to_insert, condition }
    }
}

impl<P: InsertionPredicate> Normalize for AppendAfterCharIf<P> {
    open spec fn normalized(&self, s: Seq<char>) -> Seq<char> {
        append_after_if_spec(s, self.target_char, self.char_to_insert, self.condition)
    }

    fn normalize(&self, data: &mut Vec<char>) {
        proof {
            lemma_last_index_of(data@, self.target_char);
        }
        match rfind_char(data, self.target_char) {
            Some(index) => {
                let n = data.len();
                assert(index < n);
                let next_char = get_next_char(data, index + 1);
                if self.condition.allows(next_char, self.target_char, self.char_to_insert) {
                    data.insert(index + 1, self.char_to_insert);
                }
            },
            None => {},
        }
    }
}

/// Appends a character after the rightmost occurrence of a target character
/// unless the following character already equals it.
#[derive(Clone, Copy)]
pub struct AppendAfterCharIfDifferent {
    pub target_char: char,
    pub char_to_insert: char,
}

impl AppendAfterCharIfDifferent {
    pub fn new(target_char: char, char_to_insert: char) -> (r: Self)
        ensures
            r.target_char == target_char,
            r.char_to_insert == char_to_insert,
    {
        Self { target_char, char_to_insert }
    }
}

impl From<AppendAfterCharIfDifferent> for AppendAfterCharIf<NeighborDiffers> {
    fn from(other: AppendAfterCharIfDifferent) -> (r: Self) {
        AppendAfterCharIf::new(other.target_char, other.char_to_insert, NeighborDiffers)
    }
}

impl vstd::std_specs::convert::FromSpecImpl<AppendAfterCharIfDifferent> for AppendAfterCharIf<NeighborDiffers> {
    open spec fn obeys_from_spec() -> bool {
        true
    }

    open spec fn from_spec(other: AppendAfterCharIfDifferent) -> Self {
        AppendAfterCharIf {
            target_char: other.target_char,
            char_to_insert: other.char_to_insert,
            condition: NeighborDiffers,
        }
    }
}

impl Normalize for AppendAfterCharIfDifferent {
    open spec fn normalized(&self, s: Seq<char>) -> Seq<char> {
        append_after_if_spec(s, self.target_char, self.char_to_insert, NeighborDiffers)
    }

    fn normalize(&self, data: &mut Vec<char>) {
        AppendAfterCharIf::from(*self).normalize(data);
    }
}

/// Law: single-occurrence insertion — however many occurrences of `target`
/// the buffer holds, an unconditional append changes exactly one location,
/// right after the rightmost occurrence, and keeps everything around it.
pub proof fn lemma_append_single_insertion(s: Seq<char>, target: char, ins: char)
    requires
        s.contains(target),
    ensures
        ({
            let j = last_index_of(s, target);
            &&& 0 <= j < s.len()
            &&& s[j] == target
            &&& forall|k: int| j < k < s.len() ==> s[k] != target
            &&& append_after_spec(s, target, ins) == s.take(j + 1) + seq![ins] + s.skip(j + 1)
        }),
{
    lemma_last_index_of(s, target);
    let j = last_index_of(s, target);
    if j < 0 {
        assert(forall|k: int| 0 <= k < s.len() ==> s[k] != target);
        assert(!s.contains(target));
    }
    assert(s.insert(j + 1, ins) =~= s.take(j + 1) + seq![ins] + s.skip(j + 1));
}

} // verus!
