//! Insertion predicates: the predicate interface of the conditional combinators
//! and the built-in predicates the library itself uses.

use vstd::prelude::*;

use crate::chars::{is_ascii_whitespace_char, is_whitespace_char, spec_is_whitespace};

verus! {

/// The deciding predicate of a conditional insertion. It is judged on the character
/// adjacent to the found target (`None` when the target sits at the buffer's
/// edge), the target itself and the character to insert. `spec_allows` is
/// the mathematical meaning that `allows` is proved to compute, so built-in
/// and caller-supplied predicates compose uniformly.
pub trait InsertionPredicate {
    spec fn spec_allows(&self, neighbor: Option<char>, target: char, to_insert: char) -> bool;

    fn allows(&self, neighbor: Option<char>, target: char, to_insert: char) -> (r: bool)
        ensures
            r == self.spec_allows(neighbor, target, to_insert),
    ;
}

/// Insert unless the neighbor already equals the character to insert; a
/// missing neighbor counts as different, so the insertion still happens at
/// the buffer's edge.
#[derive(Clone, Copy)]
pub struct NeighborDiffers;

impl InsertionPredicate for NeighborDiffers {
    open spec fn spec_allows(&self, neighbor: Option<char>, target: char, to_insert: char) -> bool {
        match neighbor {
            Some(c) => c != to_insert,
            None => true,
        }
    }

    fn allows(&self, neighbor: Option<char>, _target: char, to_insert: char) -> (r: bool) {
        match neighbor {
            Some(c) => c != to_insert,
            None => true,
        }
    }
}

/// Insert unless the neighbor is ASCII whitespace; a missing neighbor still
/// allows the insertion.
#[derive(Clone, Copy)]
pub struct NeighborNotAsciiWhitespace;

impl InsertionPredicate for NeighborNotAsciiWhitespace {
    open spec fn spec_allows(&self, neighbor: Option<char>, target: char, to_insert: char) -> bool {
        match neighbor {
            Some(c) => !crate::chars::spec_is_ascii_whitespace(c),
            None => true,
        }
    }

    fn allows(&self, neighbor: Option<char>, _target: char, _to_insert: char) -> (r: bool) {
        match neighbor {
            Some(c) => !is_ascii_whitespace_char(c),
            None => true,
        }
    }
}

/// Insert unless the neighbor is whitespace or a French sentence-terminal
/// punctuation mark, so a spacing pass does not pile a space onto another
/// space or onto a following punctuation run.
#[derive(Clone, Copy)]
pub struct NeighborNotSpaceOrTerminal;

impl InsertionPredicate for NeighborNotSpaceOrTerminal {
    open spec fn spec_allows(&self, neighbor: Option<char>, target: char, to_insert: char) -> bool {
        match neighbor {
            Some(c) => !spec_is_whitespace(c) && c != '.',
            None => true,
        }
    }

    fn allows(&self, neighbor: Option<char>, _target: char, _to_insert: char) -> (r: bool) {
        match neighbor {
            Some(c) => !is_whitespace_char(c) && c != '.',
            None => true,
        }
    }
}

} // verus!
