//! The cleaning capability: a transform that mutates a text buffer in place.

use vstd::prelude::*;

verus! {

/// A cleaning transform over a buffer of Unicode scalar values. `cleaned`
/// says, as a mathematical function of the old contents, exactly what the
/// buffer holds after `clean` returns; every implementation proves its
/// `clean` against its own `cleaned`.
pub trait Clean {
    spec fn cleaned(&self, s: Seq<char>) -> Seq<char>;

    fn clean(&self, data: &mut Vec<char>)
        ensures
            final(data)@ == self.cleaned(old(data)@),
    ;
}

} // verus!
