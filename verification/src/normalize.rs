//! The normalizing capability: structurally the same contract as `Clean`;
//! the two names only keep the cleaning and normalizing stages of a pipeline
//! apart in the caller's vocabulary.

use vstd::prelude::*;

verus! {

/// A normalizing transform over a buffer of Unicode scalar values.
/// `normalized` says, as a mathematical function of the old contents, exactly
/// what the buffer holds after `normalize` returns.
pub trait Normalize {
    spec fn normalized(&self, s: Seq<char>) -> Seq<char>;

    fn normalize(&self, data: &mut Vec<char>)
        ensures
            final(data)@ == self.normalized(old(data)@),
    ;
}

} // verus!
