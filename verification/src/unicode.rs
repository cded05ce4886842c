//! The pipeline stages delegated to, or framed around, Unicode tables: NFKC
//! compatibility normalization (through the external normalization library)
//! and removal of control-category scalar values.

use vstd::prelude::*;

use unicode_normalization::UnicodeNormalization;

use crate::chars::{is_control_char, spec_is_control};
use crate::clean::Clean;
use crate::normalize::Normalize;

verus! {

/// What NFKC compatibility normalization yields on a buffer; the result is
/// a function of the input characters alone.
pub uninterp spec fn nfkc_of(s: Seq<char>) -> Seq<char>;

/// Relies on unicode_normalization's `nfkc` (compatibility decomposition
/// followed by canonical composition): the result depends on the input
/// characters alone, and an empty input stays empty.
#[verifier::external_body]
fn nfkc_chars(data: &Vec<char>) -> (r: Vec<char>)
    ensures
        r@ == nfkc_of(data@),
        data@.len() == 0 ==> r@.len() == 0,
{
    data.iter().cloned().nfkc().collect()
}

/// Normalizes the buffer to Unicode Normalization Form KC, delegated to the
/// external normalization library.
pub struct NfkcNormalizer;

impl Normalize for NfkcNormalizer {
    open spec fn normalized(&self, s: Seq<char>) -> Seq<char> {
        nfkc_of(s)
    }

    fn normalize(&self, data: &mut Vec<char>) {
        let r = nfkc_chars(data);
        *data = r;
    }
}

/// `s` without its control-category scalar values.
pub open spec fn controls_removed(s: Seq<char>) -> Seq<char>
    decreases s.len(),
{
    if s.len() == 0 {
        s
    } else if spec_is_control(s.last()) {
        controls_removed(s.drop_last())
    } else {
        controls_removed(s.drop_last()).push(s.last())
    }
}

/// Removes every Unicode control-category scalar value from the buffer.
pub struct ControlCharRemover;

impl Clean for ControlCharRemover {
    open spec fn cleaned(&self, s: Seq<char>) -> Seq<char> {
        controls_removed(s)
    }

    fn clean(&self, data: &mut Vec<char>) {
        let n = data.len();
        let mut out: Vec<char> = Vec::new();
        let mut i: usize = 0;
        while i < n
            invariant
                n == data@.len(),
                data@ == old(data)@,
                i <= n,
                out@ == controls_removed(data@.take(i as int)),
            decreases n - i,
        {
            if !is_control_char(data[i]) {
                out.push(data[i]);
            }
            proof {
                let pre = data@.take(i + 1);
                assert(pre.drop_last() =~= data@.take(i as int));
                assert(pre.last() == data@[i as int]);
            }
            i += 1;
        }
        proof {
            assert(data@.take(n as int) =~= data@);
        }
        *data = out;
    }
}

} // verus!
