//! Request paths: from the path as received to its segments.

use vstd::prelude::*;
use crate::text::{copy_range, index_of, lemma_index_of, lemma_index_of_first, lines};

verus! {

/// The separator between the segments of a path.
pub const SLASH: u8 = 47;

/// The segments of a path: the stretches between slashes, in order,
/// without the empty ones. Repeated and trailing slashes thus vanish.
pub open spec fn segments(s: Seq<u8>) -> Seq<Seq<u8>>
    decreases s.len(),
{
    let i = index_of(s, SLASH);
    if s.len() == 0 {
        Seq::empty()
    } else if 0 <= i < s.len() {
        if i == 0 {
            segments(s.skip(i + 1))
        } else {
            seq![s.take(i)] + segments(s.skip(i + 1))
        }
    } else {
        seq![s]
    }
}

/// No segment is empty and none holds a slash.
pub proof fn lemma_segments(s: Seq<u8>)
    ensures
        forall|k: int|
            0 <= k < segments(s).len() ==> (#[trigger] segments(s)[k]).len() > 0 && forall|j: int|
                0 <= j < segments(s)[k].len() ==> segments(s)[k][j] != SLASH,
    decreases s.len(),
{
    let i = index_of(s, SLASH);
    lemma_index_of_first(s, SLASH);
    if s.len() > 0 && i < s.len() {
        let rest = segments(s.skip(i + 1));
        lemma_segments(s.skip(i + 1));
        assert forall|k: int| 0 <= k < segments(s).len() implies (#[trigger] segments(s)[k]).len()
            > 0 && forall|j: int| 0 <= j < segments(s)[k].len() ==> segments(s)[k][j] != SLASH by {
            if i == 0 {
                assert(segments(s)[k] == rest[k]);
            } else if k == 0 {
                assert(segments(s)[k] == s.take(i));
            } else {
                assert(segments(s)[k] == rest[k - 1]);
            }
        }
    }
}

/// Splits a path on `/` and drops the empty segments. Case is kept.
pub fn parse_path(path: &[u8]) -> (segs: Vec<Vec<u8>>)
    ensures
        lines(segs@) == segments(path@),
        forall|k: int| 0 <= k < segs@.len() ==> (#[trigger] segs@[k])@.len() > 0,
{
    proof {
        lemma_segments(path@);
    }
    let n: usize = path.len();
    let mut segs: Vec<Vec<u8>> = Vec::new();
    let mut start: usize = 0;
    let mut i: usize = 0;
    assert(path@.skip(0) =~= path@);
    assert(lines(segs@) + segments(path@) =~= segments(path@));
    while i < n
        invariant
            n == path@.len(),
            start <= i <= n,
            forall|j: int| start <= j < i ==> path@[j] != SLASH,
            segments(path@) == lines(segs@) + segments(path@.skip(start as int)),
        decreases n - i,
    {
        if path[i] == SLASH {
            let ghost rest = path@.skip(start as int);
            let ghost before = lines(segs@);
            proof {
                lemma_index_of(rest, SLASH, i - start);
                assert(rest.skip(i - start + 1) =~= path@.skip(i + 1));
                assert(rest.take(i - start) =~= path@.subrange(start as int, i as int));
            }
            if start < i {
                segs.push(copy_range(path, start, i));
                assert(lines(segs@) =~= before + seq![rest.take(i - start)]);
                assert(segments(path@) =~= lines(segs@) + segments(path@.skip(i + 1)));
            }
            start = i + 1;
        }
        i += 1;
    }
    let ghost rest = path@.skip(start as int);
    let ghost before = lines(segs@);
    proof {
        lemma_index_of(rest, SLASH, n - start);
    }
    if start < n {
        segs.push(copy_range(path, start, n));
        assert(rest =~= path@.subrange(start as int, n as int));
        assert(lines(segs@) =~= before + seq![rest]);
    } else {
        assert(before + segments(rest) =~= before);
    }
    assert forall|k: int| 0 <= k < segs@.len() implies (#[trigger] segs@[k])@.len() > 0 by {
        assert(lines(segs@)[k] == segs@[k]@);
    }
    segs
}

} // verus!
