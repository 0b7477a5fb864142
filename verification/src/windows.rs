//! Triangle-index windowing shared by both mesh-container decoders:
//! slicing a batch's index window out of a vertex group's index list with
//! the per-triple winding flip, and (for the older format) deriving the
//! vertex window from the sliced indices and re-biasing them.

use vstd::prelude::*;

use crate::error::DecodeError;

verus! {

/// Source position feeding output position `p` of the winding-reversed
/// index stream: positions are mirrored within each aligned triple.
pub open spec fn flip_pos(p: int) -> int {
    3 * (p / 3) + 2 - (p % 3)
}

/// The sliced triangle-index window: `count` elements of the
/// winding-reversed stream starting at `start`.
pub open spec fn sliced_window(indexes: Seq<u32>, start: int, count: int) -> Seq<u32> {
    Seq::new(count as nat, |j: int| indexes[flip_pos(start + j)])
}

/// Slicing stops cleanly at the end of a list whose length is a triple
/// multiple; how many elements the window then yields.
pub open spec fn window_count(len: int, start: int, num: int) -> int {
    if len % 3 == 0 {
        if start >= len {
            0
        } else if num <= len - start {
            num
        } else {
            len - start
        }
    } else {
        num
    }
}

/// A window is rejected when it would reach into a trailing partial
/// triple (whose reversal is undefined).
pub open spec fn window_error(len: int, start: int, num: int) -> bool {
    len % 3 != 0 && num > 0 && start + num > 3 * (len / 3)
}

/// Slice a batch's index window out of `indexes`, reversing the winding
/// of each aligned triple. A window over the end of a triple-aligned
/// list is truncated; one reaching into a trailing partial triple fails.
pub fn slice_indexes(indexes: &Vec<u32>, start: u64, num: u64) -> (r: Result<Vec<u32>, DecodeError>)
    ensures
        match r {
            Ok(v) => {
                &&& !window_error(indexes@.len() as int, start as int, num as int)
                &&& v@ == sliced_window(
                    indexes@,
                    start as int,
                    window_count(indexes@.len() as int, start as int, num as int),
                )
            },
            Err(e) => {
                &&& e == DecodeError::IndexWindowOutOfBounds
                &&& window_error(indexes@.len() as int, start as int, num as int)
            },
        },
{
    let len = indexes.len() as u64;
    let limit = len - len % 3;
    if len % 3 != 0 && num > 0 && (start > limit || num > limit - start) {
        return Err(DecodeError::IndexWindowOutOfBounds);
    }
    let count: u64 = if len % 3 == 0 {
        if start >= len {
            0
        } else if num <= len - start {
            num
        } else {
            len - start
        }
    } else {
        num
    };
    let mut out: Vec<u32> = Vec::new();
    let mut j: u64 = 0;
    while j < count
        invariant
            len == indexes@.len(),
            len <= usize::MAX,
            count == window_count(len as int, start as int, num as int),
            !window_error(len as int, start as int, num as int),
            len % 3 == 0 ==> (count > 0 ==> start + count <= len),
            len % 3 != 0 ==> (count > 0 ==> start + count <= 3 * (len as int / 3)),
            j <= count,
            out@.len() == j,
            forall|k: int| 0 <= k < j ==> out@[k] == indexes@[flip_pos(start + k)],
        decreases count - j,
    {
        let p = start + j;
        let q = p / 3;
        proof {
            assert(3 * ((p as int) / 3) + 3 <= len as int) by {
                if len as int % 3 == 0 {
                    assert(p < len);
                } else {
                    assert(p < 3 * (len as int / 3));
                }
            }
        }
        let src = 3 * q + 2 - p % 3;
        proof {
            assert(src as int == flip_pos(p as int));
        }
        out.push(indexes[src as usize]);
        j = j + 1;
    }
    proof {
        assert(out@ =~= sliced_window(
            indexes@,
            start as int,
            window_count(len as int, start as int, num as int),
        ));
    }
    Ok(out)
}

/// Winding reversal: any aligned triple `[a, b, c]` of the source window
/// is emitted as `[c, b, a]`.
pub proof fn lemma_triple_winding(indexes: Seq<u32>, start: int, count: int, t: int)
    requires
        start % 3 == 0,
        0 <= t,
        3 * t + 2 < count,
    ensures
        sliced_window(indexes, start, count)[3 * t] == indexes[start + 3 * t + 2],
        sliced_window(indexes, start, count)[3 * t + 1] == indexes[start + 3 * t + 1],
        sliced_window(indexes, start, count)[3 * t + 2] == indexes[start + 3 * t],
{
    assert((start + 3 * t) % 3 == 0 && (start + 3 * t) / 3 == start / 3 + t) by (nonlinear_arith)
        requires
            start % 3 == 0,
            0 <= t,
    ;
    assert(flip_pos(start + 3 * t) == start + 3 * t + 2);
    assert(flip_pos(start + 3 * t + 1) == start + 3 * t + 1);
    assert(flip_pos(start + 3 * t + 2) == start + 3 * t);
}

/// The least element of a non-empty index list.
pub open spec fn seq_u32_min(s: Seq<u32>) -> u32
    recommends
        s.len() > 0,
    decreases s.len(),
{
    if s.len() <= 1 {
        s[0]
    } else {
        let rest = seq_u32_min(s.drop_last());
        if s.last() < rest {
            s.last()
        } else {
            rest
        }
    }
}

/// The greatest element of a non-empty index list.
pub open spec fn seq_u32_max(s: Seq<u32>) -> u32
    recommends
        s.len() > 0,
    decreases s.len(),
{
    if s.len() <= 1 {
        s[0]
    } else {
        let rest = seq_u32_max(s.drop_last());
        if s.last() > rest {
            s.last()
        } else {
            rest
        }
    }
}

/// The minimum is a member and a lower bound.
pub proof fn lemma_seq_u32_min(s: Seq<u32>)
    requires
        s.len() > 0,
    ensures
        s.contains(seq_u32_min(s)),
        forall|i: int| 0 <= i < s.len() ==> seq_u32_min(s) <= s[i],
    decreases s.len(),
{
    if s.len() > 1 {
        lemma_seq_u32_min(s.drop_last());
        assert forall|i: int| 0 <= i < s.len() implies seq_u32_min(s) <= s[i] by {
            if i < s.len() - 1 {
                assert(s.drop_last()[i] == s[i]);
            }
        }
        if seq_u32_min(s) != s.last() {
            let j = choose|j: int|
                0 <= j < s.drop_last().len() && s.drop_last()[j] == seq_u32_min(s.drop_last());
            assert(s[j] == seq_u32_min(s));
        }
    }
}

/// The maximum is a member and an upper bound.
pub proof fn lemma_seq_u32_max(s: Seq<u32>)
    requires
        s.len() > 0,
    ensures
        s.contains(seq_u32_max(s)),
        forall|i: int| 0 <= i < s.len() ==> s[i] <= seq_u32_max(s),
    decreases s.len(),
{
    if s.len() > 1 {
        lemma_seq_u32_max(s.drop_last());
        assert forall|i: int| 0 <= i < s.len() implies s[i] <= seq_u32_max(s) by {
            if i < s.len() - 1 {
                assert(s.drop_last()[i] == s[i]);
            }
        }
        if seq_u32_max(s) != s.last() {
            let j = choose|j: int|
                0 <= j < s.drop_last().len() && s.drop_last()[j] == seq_u32_max(s.drop_last());
            assert(s[j] == seq_u32_max(s));
        }
    }
}

/// The vertex window the older format derives from a sliced index list:
/// the window starts at the least referenced index, spans through the
/// greatest, and every emitted index is re-biased by the start.
pub fn derive_vertex_window(sliced: &Vec<u32>) -> (r: Result<(u32, u64, Vec<u32>), DecodeError>)
    ensures
        match r {
            Ok(t) => {
                &&& sliced@.len() > 0
                &&& t.0 == seq_u32_min(sliced@)
                &&& t.1 == seq_u32_max(sliced@) - seq_u32_min(sliced@) + 1
                &&& t.2@ == Seq::new(
                    sliced@.len(),
                    |j: int| (sliced@[j] - seq_u32_min(sliced@)) as u32,
                )
            },
            Err(e) => {
                &&& e == DecodeError::EmptyIndexWindow
                &&& sliced@.len() == 0
            },
        },
{
    if sliced.len() == 0 {
        return Err(DecodeError::EmptyIndexWindow);
    }
    let mut lo = sliced[0];
    let mut hi = sliced[0];
    let mut i: usize = 1;
    while i < sliced.len()
        invariant
            sliced@.len() > 0,
            1 <= i <= sliced@.len(),
            lo == seq_u32_min(sliced@.subrange(0, i as int)),
            hi == seq_u32_max(sliced@.subrange(0, i as int)),
        decreases sliced@.len() - i,
    {
        proof {
            assert(sliced@.subrange(0, i + 1).drop_last() =~= sliced@.subrange(0, i as int));
        }
        let v = sliced[i];
        if v < lo {
            lo = v;
        }
        if v > hi {
            hi = v;
        }
        i = i + 1;
    }
    proof {
        assert(sliced@.subrange(0, sliced@.len() as int) =~= sliced@);
        lemma_seq_u32_min(sliced@);
        lemma_seq_u32_max(sliced@);
    }
    let mut out: Vec<u32> = Vec::new();
    let mut j: usize = 0;
    while j < sliced.len()
        invariant
            sliced@.len() > 0,
            lo == seq_u32_min(sliced@),
            forall|k: int| 0 <= k < sliced@.len() ==> lo <= sliced@[k],
            j <= sliced@.len(),
            out@.len() == j,
            forall|k: int| 0 <= k < j ==> out@[k] == (sliced@[k] - seq_u32_min(sliced@)) as u32,
        decreases sliced@.len() - j,
    {
        out.push(sliced[j] - lo);
        j = j + 1;
    }
    proof {
        assert(out@ =~= Seq::new(
            sliced@.len(),
            |k: int| (sliced@[k] - seq_u32_min(sliced@)) as u32,
        ));
    }
    Ok((lo, hi as u64 - lo as u64 + 1, out))
}

} // verus!
