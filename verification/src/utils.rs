//! Neighbor lookup and rightmost search over a buffer of scalar values.

use vstd::prelude::*;

verus! {

/// The scalar value just before position `pos`, or `None` when `pos` is at
/// the start of the buffer or past its end.
pub fn get_previous_char(text: &Vec<char>, pos: usize) -> (r: Option<char>)
    ensures
        r == (if 1 <= pos <= text@.len() {
            Some(text@[pos - 1])
        } else {
            None::<char>
        }),
{
    if pos == 0 {
        return None;
    }
    if pos <= text.len() {
        Some(text[pos - 1])
    } else {
        None
    }
}

/// The scalar value at position `pos`, or `None` when `pos` is at or past
/// the end of the buffer.
pub fn get_next_char(text: &Vec<char>, pos: usize) -> (r: Option<char>)
    ensures
        r == (if pos < text@.len() {
            Some(text@[pos as int])
        } else {
            None::<char>
        }),
{
    if pos < text.len() {
        Some(text[pos])
    } else {
        None
    }
}

/// The index of the rightmost occurrence of `t` in `s`, or -1 when `t` does
/// not occur.
pub open spec fn last_index_of(s: Seq<char>, t: char) -> int
    decreases s.len(),
{
    if s.len() == 0 {
        -1
    } else if s[s.len() - 1] == t {
        s.len() - 1
    } else {
        last_index_of(s.drop_last(), t)
    }
}

/// `last_index_of` points at an occurrence of `t`, and nothing to its right
/// is an occurrence.
pub proof fn lemma_last_index_of(s: Seq<char>, t: char)
    ensures
        -1 <= last_index_of(s, t) < s.len(),
        last_index_of(s, t) >= 0 ==> s[last_index_of(s, t)] == t,
        forall|k: int| last_index_of(s, t) < k < s.len() ==> s[k] != t,
    decreases s.len(),
{
    if s.len() > 0 && s[s.len() - 1] != t {
        lemma_last_index_of(s.drop_last(), t);
        assert(forall|k: int| 0 <= k < s.len() - 1 ==> s.drop_last()[k] == s[k]);
    }
}

/// The rightmost occurrence of `target` in `text`, scanning from the end.
pub fn rfind_char(text: &Vec<char>, target: char) -> (r: Option<usize>)
    ensures
        match r {
            Some(j) => j == last_index_of(text@, target),
            None => last_index_of(text@, target) == -1,
        },
{
    proof {
        assert(text@.take(text@.len() as int) =~= text@);
    }
    let mut i: usize = text.len();
    while i > 0
        invariant
            i <= text@.len(),
            last_index_of(text@, target) == last_index_of(text@.take(i as int), target),
        decreases i,
    {
        i = i - 1;
        if text[i] == target {
            proof {
                let pre = text@.take(i + 1);
                assert(pre[pre.len() - 1] == text@[i as int]);
                assert(last_index_of(pre, target) == i);
            }
            return Some(i);
        }
        proof {
            let pre = text@.take(i + 1);
            assert(pre[pre.len() - 1] == text@[i as int]);
            assert(pre.drop_last() =~= text@.take(i as int));
        }
    }
    None
}

} // verus!
