//! The whitespace suite: canonicalize every whitespace scalar to an ASCII
//! space, collapse consecutive ASCII whitespace, trim the edges, and the
//! composite pass that chains the three.

use vstd::prelude::*;
use vstd::pervasive::VecAdditionalExecFns;

use crate::chars::{
    is_ascii_whitespace_char, is_whitespace_char, spec_is_ascii_whitespace, spec_is_whitespace,
};
use crate::clean::Clean;
use crate::normalize::Normalize;

verus! {

/// Every whitespace scalar of `s` replaced by the canonical ASCII space.
pub open spec fn space_normalized(s: Seq<char>) -> Seq<char> {
    s.map_values(|c: char| if spec_is_whitespace(c) { ' ' } else { c })
}

/// `s` with every character dropped that is ASCII whitespace immediately
/// following another ASCII whitespace; the neighbor examined is the previous
/// character of the input, not of the output built so far.
pub open spec fn consecutive_ws_removed(s: Seq<char>) -> Seq<char>
    decreases s.len(),
{
    if s.len() <= 1 {
        s
    } else if spec_is_ascii_whitespace(s[s.len() - 2]) && spec_is_ascii_whitespace(s[s.len() - 1]) {
        consecutive_ws_removed(s.drop_last())
    } else {
        consecutive_ws_removed(s.drop_last()).push(s[s.len() - 1])
    }
}

/// `s` without its trailing whitespace characters.
pub open spec fn trim_end_spec(s: Seq<char>) -> Seq<char>
    decreases s.len(),
{
    if s.len() > 0 && spec_is_whitespace(s[s.len() - 1]) {
        trim_end_spec(s.drop_last())
    } else {
        s
    }
}

/// `s` without its leading whitespace characters.
pub open spec fn trim_start_spec(s: Seq<char>) -> Seq<char>
    decreases s.len(),
{
    if s.len() > 0 && spec_is_whitespace(s[0]) {
        trim_start_spec(s.drop_first())
    } else {
        s
    }
}

/// `s` without leading and trailing whitespace.
pub open spec fn trimmed(s: Seq<char>) -> Seq<char> {
    trim_start_spec(trim_end_spec(s))
}

/// The composite pass: canonicalize, collapse, then trim, in that order.
pub open spec fn whitespace_normalized(s: Seq<char>) -> Seq<char> {
    trimmed(consecutive_ws_removed(space_normalized(s)))
}

/// Replaces every kind of whitespace scalar (tab, line feed, no-break space,
/// and so on) with the standard space ` ` (U+0020). Applies to all
/// occurrences.
pub struct SpaceNormalizer;

impl Normalize for SpaceNormalizer {
    open spec fn normalized(&self, s: Seq<char>) -> Seq<char> {
        space_normalized(s)
    }

    fn normalize(&self, data: &mut Vec<char>) {
        let n = data.len();
        let mut i: usize = 0;
        while i < n
            invariant
                n == data@.len(),
                data@.len() == old(data)@.len(),
                i <= n,
                forall|k: int|
                    0 <= k < i ==> data@[k] == (if spec_is_whitespace(old(data)@[k]) {
                        ' '
                    } else {
                        old(data)@[k]
                    }),
                forall|k: int| i <= k < n ==> data@[k] == old(data)@[k],
            decreases n - i,
        {
            let c = data[i];
            if is_whitespace_char(c) {
                data.set(i, ' ');
            }
            i += 1;
        }
        proof {
            assert(data@ =~= space_normalized(old(data)@));
        }
    }
}

/// Collapses runs of consecutive ASCII whitespace to their first character.
/// Deliberately narrower than `SpaceNormalizer`: a non-ASCII whitespace
/// scalar that was not canonicalized first survives this stage.
pub struct ConsecutiveWhiteSpaceRemover;

impl Clean for ConsecutiveWhiteSpaceRemover {
    open spec fn cleaned(&self, s: Seq<char>) -> Seq<char> {
        consecutive_ws_removed(s)
    }

    fn clean(&self, data: &mut Vec<char>) {
        let n = data.len();
        let mut out: Vec<char> = Vec::new();
        let mut i: usize = 0;
        while i < n
            invariant
                n == data@.len(),
                data@ == old(data)@,
                i <= n,
                out@ == consecutive_ws_removed(data@.take(i as int)),
            decreases n - i,
        {
            let keep = if i > 0 {
                !(is_ascii_whitespace_char(data[i - 1]) && is_ascii_whitespace_char(data[i]))
            } else {
                true
            };
            if keep {
                out.push(data[i]);
            }
            proof {
                let pre = data@.take(i + 1);
                assert(pre.drop_last() =~= data@.take(i as int));
                assert(pre[pre.len() - 1] == data@[i as int]);
                if pre.len() <= 1 {
                    assert(out@ =~= pre);
                } else {
                    assert(pre[pre.len() - 2] == data@[i - 1]);
                }
            }
            i += 1;
        }
        proof {
            assert(data@.take(n as int) =~= data@);
        }
        *data = out;
    }
}

/// Removes trailing whitespace, then leading whitespace (full Unicode
/// `White_Space` classification on both sides).
pub struct SpaceTrimmer;

impl SpaceTrimmer {
    pub fn new() -> (r: Self)
        ensures
            r == SpaceTrimmer,
    {
        SpaceTrimmer
    }
}

impl Clean for SpaceTrimmer {
    open spec fn cleaned(&self, s: Seq<char>) -> Seq<char> {
        trimmed(s)
    }

    fn clean(&self, data: &mut Vec<char>) {
        while data.len() > 0 && is_whitespace_char(data[data.len() - 1])
            invariant
                trim_end_spec(data@) == trim_end_spec(old(data)@),
            decreases data@.len(),
        {
            proof {
                assert(data@.drop_last() =~= data@.take(data@.len() - 1));
            }
            data.pop();
        }
        let ghost mid = data@;
        proof {
            assert(mid == trim_end_spec(old(data)@));
        }
        while data.len() > 0 && is_whitespace_char(data[0])
            invariant
                trim_start_spec(data@) == trim_start_spec(mid),
            decreases data@.len(),
        {
            proof {
                assert(data@.drop_first() =~= data@.remove(0));
            }
            data.remove(0);
        }
    }
}

/// Normalizes all whitespace in a buffer, in the fixed order the collapse
/// stage needs: canonicalize every whitespace scalar to an ASCII space,
/// collapse consecutive whitespace, then trim both edges.
pub struct WhitespaceNormalizer;

impl Clean for WhitespaceNormalizer {
    open spec fn cleaned(&self, s: Seq<char>) -> Seq<char> {
        whitespace_normalized(s)
    }

    fn clean(&self, data: &mut Vec<char>) {
        SpaceNormalizer.normalize(data);
        ConsecutiveWhiteSpaceRemover.clean(data);
        SpaceTrimmer.clean(data);
    }
}

/// True when every whitespace character of `s` is already the canonical
/// ASCII space.
pub open spec fn ws_all_canonical(s: Seq<char>) -> bool {
    forall|i: int| 0 <= i < s.len() ==> (spec_is_whitespace(#[trigger] s[i]) ==> s[i] == ' ')
}

/// True when no ASCII whitespace character immediately follows another.
pub open spec fn no_adjacent_ascii_ws(s: Seq<char>) -> bool {
    forall|i: int|
        0 < i < s.len() ==> !(spec_is_ascii_whitespace(s[i - 1]) && spec_is_ascii_whitespace(
            #[trigger] s[i],
        ))
}

proof fn lemma_space_normalized_canonical(s: Seq<char>)
    ensures
        ws_all_canonical(space_normalized(s)),
{
}

proof fn lemma_space_normalized_identity(s: Seq<char>)
    requires
        ws_all_canonical(s),
    ensures
        space_normalized(s) == s,
{
    assert(space_normalized(s) =~= s);
}

proof fn lemma_cwr_canonical(s: Seq<char>)
    requires
        ws_all_canonical(s),
    ensures
        ws_all_canonical(consecutive_ws_removed(s)),
    decreases s.len(),
{
    if s.len() > 1 {
        assert(ws_all_canonical(s.drop_last()));
        lemma_cwr_canonical(s.drop_last());
    }
}

proof fn lemma_cwr_no_adjacent(s: Seq<char>)
    ensures
        no_adjacent_ascii_ws(consecutive_ws_removed(s)),
        s.len() > 0 ==> consecutive_ws_removed(s).len() > 0,
        s.len() > 0 && spec_is_ascii_whitespace(consecutive_ws_removed(s).last())
            ==> spec_is_ascii_whitespace(s.last()),
    decreases s.len(),
{
    if s.len() > 1 {
        lemma_cwr_no_adjacent(s.drop_last());
        let r = consecutive_ws_removed(s.drop_last());
        let t = consecutive_ws_removed(s);
        if !(spec_is_ascii_whitespace(s[s.len() - 2]) && spec_is_ascii_whitespace(
            s[s.len() - 1],
        )) {
            assert(t == r.push(s[s.len() - 1]));
            assert(s.drop_last().last() == s[s.len() - 2]);
            assert(forall|i: int| 0 <= i < r.len() ==> t[i] == r[i]);
            assert(t[r.len() as int] == s[s.len() - 1]);
            if spec_is_ascii_whitespace(s[s.len() - 1]) {
                assert(!spec_is_ascii_whitespace(r.last()));
            }
        }
    }
}

proof fn lemma_cwr_identity(s: Seq<char>)
    requires
        no_adjacent_ascii_ws(s),
    ensures
        consecutive_ws_removed(s) == s,
    decreases s.len(),
{
    if s.len() > 1 {
        assert(!(spec_is_ascii_whitespace(s[s.len() - 2]) && spec_is_ascii_whitespace(
            s[s.len() - 1],
        )));
        assert(no_adjacent_ascii_ws(s.drop_last()));
        lemma_cwr_identity(s.drop_last());
        assert(s.drop_last().push(s[s.len() - 1]) =~= s);
    }
}

proof fn lemma_trim_end_props(s: Seq<char>)
    ensures
        trim_end_spec(s).len() > 0 ==> !spec_is_whitespace(trim_end_spec(s).last()),
        ws_all_canonical(s) ==> ws_all_canonical(trim_end_spec(s)),
        no_adjacent_ascii_ws(s) ==> no_adjacent_ascii_ws(trim_end_spec(s)),
    decreases s.len(),
{
    if s.len() > 0 && spec_is_whitespace(s[s.len() - 1]) {
        assert(ws_all_canonical(s) ==> ws_all_canonical(s.drop_last()));
        assert(no_adjacent_ascii_ws(s) ==> no_adjacent_ascii_ws(s.drop_last()));
        lemma_trim_end_props(s.drop_last());
    }
}

proof fn lemma_trim_start_props(s: Seq<char>)
    ensures
        trim_start_spec(s).len() > 0 ==> !spec_is_whitespace(trim_start_spec(s)[0]),
        ws_all_canonical(s) ==> ws_all_canonical(trim_start_spec(s)),
        no_adjacent_ascii_ws(s) ==> no_adjacent_ascii_ws(trim_start_spec(s)),
        s.len() > 0 && !spec_is_whitespace(s.last()) ==> trim_start_spec(s).len() > 0
            && trim_start_spec(s).last() == s.last(),
    decreases s.len(),
{
    if s.len() > 0 && spec_is_whitespace(s[0]) {
        let t = s.drop_first();
        assert(forall|i: int| 0 <= i < t.len() ==> t[i] == s[i + 1]);
        assert(ws_all_canonical(s) ==> ws_all_canonical(t));
        assert(no_adjacent_ascii_ws(s) ==> no_adjacent_ascii_ws(t));
        lemma_trim_start_props(t);
        if s.len() > 1 {
            assert(t.last() == s.last());
        }
    }
}

/// Law: `SpaceTrimmer` is idempotent — applying it twice yields the same
/// buffer as applying it once, for every input.
pub proof fn lemma_space_trimmer_idempotent(s: Seq<char>)
    ensures
        trimmed(trimmed(s)) == trimmed(s),
{
    let t = trim_end_spec(s);
    let u = trim_start_spec(t);
    lemma_trim_end_props(s);
    lemma_trim_start_props(t);
    if t.len() == 0 {
        assert(u == t);
    } else {
        assert(!spec_is_whitespace(t.last()));
        assert(u.len() > 0 && u.last() == t.last());
        assert(trim_end_spec(u) == u);
        assert(!spec_is_whitespace(u[0]));
        assert(trim_start_spec(u) == u);
    }
}

/// Law: `WhitespaceNormalizer` is idempotent — for every input, a second
/// application is a no-op.
pub proof fn lemma_whitespace_normalizer_idempotent(s: Seq<char>)
    ensures
        whitespace_normalized(whitespace_normalized(s)) == whitespace_normalized(s),
{
    let n = space_normalized(s);
    let c = consecutive_ws_removed(n);
    let w = whitespace_normalized(s);
    lemma_space_normalized_canonical(s);
    lemma_cwr_canonical(n);
    lemma_cwr_no_adjacent(n);
    lemma_trim_end_props(c);
    lemma_trim_start_props(trim_end_spec(c));
    assert(ws_all_canonical(w));
    assert(no_adjacent_ascii_ws(w));
    lemma_space_normalized_identity(w);
    lemma_cwr_identity(w);
    lemma_space_trimmer_idempotent(c);
    assert(whitespace_normalized(w) == trimmed(w));
    assert(trimmed(w) == w);
}

} // verus!
