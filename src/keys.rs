//! Minimum, maximum and binding index over sequences of order keys.
use vstd::prelude::*;

use crate::{FovStage, ZoomError};

verus! {

/// `r` is the smallest of `s[lo..hi]` and occurs there.
pub open spec fn is_range_min(r: u64, s: Seq<u64>, lo: int, hi: int) -> bool {
    &&& exists|j: int| lo <= j < hi && s[j] == r
    &&& forall|j: int| lo <= j < hi ==> r <= #[trigger] s[j]
}

/// `r` is the largest of `s[lo..hi]` and occurs there.
pub open spec fn is_range_max(r: u64, s: Seq<u64>, lo: int, hi: int) -> bool {
    &&& exists|j: int| lo <= j < hi && s[j] == r
    &&& forall|j: int| lo <= j < hi ==> #[trigger] s[j] <= r
}

/// The smallest element of a non-empty sequence.
pub open spec fn seq_min(s: Seq<u64>) -> u64
    recommends
        s.len() > 0,
    decreases s.len(),
{
    if s.len() <= 1 {
        s[0]
    } else {
        let m = seq_min(s.drop_last());
        if s.last() < m { s.last() } else { m }
    }
}

/// The largest element of a non-empty sequence.
pub open spec fn seq_max(s: Seq<u64>) -> u64
    recommends
        s.len() > 0,
    decreases s.len(),
{
    if s.len() <= 1 {
        s[0]
    } else {
        let m = seq_max(s.drop_last());
        if s.last() > m { s.last() } else { m }
    }
}

pub proof fn lemma_seq_min(s: Seq<u64>)
    requires
        s.len() > 0,
    ensures
        is_range_min(seq_min(s), s, 0, s.len() as int),
    decreases s.len(),
{
    if s.len() > 1 {
        let t = s.drop_last();
        lemma_seq_min(t);
        let j = choose|j: int| 0 <= j < t.len() && t[j] == seq_min(t);
        if s.last() < seq_min(t) {
            assert(s[s.len() - 1] == seq_min(s));
        } else {
            assert(s[j] == seq_min(s));
        }
        assert forall|k: int| 0 <= k < s.len() implies seq_min(s) <= #[trigger] s[k] by {
            if k < s.len() - 1 {
                assert(s[k] == t[k]);
            }
        }
    } else {
        assert(s[0] == seq_min(s));
    }
}

pub proof fn lemma_seq_max(s: Seq<u64>)
    requires
        s.len() > 0,
    ensures
        is_range_max(seq_max(s), s, 0, s.len() as int),
    decreases s.len(),
{
    if s.len() > 1 {
        let t = s.drop_last();
        lemma_seq_max(t);
        let j = choose|j: int| 0 <= j < t.len() && t[j] == seq_max(t);
        if s.last() > seq_max(t) {
            assert(s[s.len() - 1] == seq_max(s));
        } else {
            assert(s[j] == seq_max(s));
        }
        assert forall|k: int| 0 <= k < s.len() implies #[trigger] s[k] <= seq_max(s) by {
            if k < s.len() - 1 {
                assert(s[k] == t[k]);
            }
        }
    } else {
        assert(s[0] == seq_max(s));
    }
}

/// The smallest key of `values`; an empty sequence is refused.
pub fn min_key(values: &Vec<u64>) -> (r: Result<u64, ZoomError>)
    ensures
        values.len() == 0 <==> r == Err::<u64, ZoomError>(ZoomError::InvalidInput),
        values.len() > 0 ==> r == Ok::<u64, ZoomError>(seq_min(values@)),
{
    if values.len() == 0 {
        return Err(ZoomError::InvalidInput);
    }
    let mut m: u64 = values[0];
    let mut i: usize = 1;
    while i < values.len()
        invariant
            1 <= i <= values.len(),
            m == seq_min(values@.subrange(0, i as int)),
        decreases values.len() - i,
    {
        assert(values@.subrange(0, i + 1).drop_last() == values@.subrange(0, i as int));
        if values[i] < m {
            m = values[i];
        }
        i = i + 1;
    }
    assert(values@.subrange(0, values.len() as int) == values@);
    Ok(m)
}

/// The largest key of `values`; an empty sequence is refused.
pub fn max_key(values: &Vec<u64>) -> (r: Result<u64, ZoomError>)
    ensures
        values.len() == 0 <==> r == Err::<u64, ZoomError>(ZoomError::InvalidInput),
        values.len() > 0 ==> r == Ok::<u64, ZoomError>(seq_max(values@)),
{
    if values.len() == 0 {
        return Err(ZoomError::InvalidInput);
    }
    let mut m: u64 = values[0];
    let mut i: usize = 1;
    while i < values.len()
        invariant
            1 <= i <= values.len(),
            m == seq_max(values@.subrange(0, i as int)),
        decreases values.len() - i,
    {
        assert(values@.subrange(0, i + 1).drop_last() == values@.subrange(0, i as int));
        if values[i] > m {
            m = values[i];
        }
        i = i + 1;
    }
    assert(values@.subrange(0, values.len() as int) == values@);
    Ok(m)
}

/// `(r, idx)` names the first occurrence of the largest factor in `factors`.
pub open spec fn is_binding(factors: Seq<u64>, r: u64, idx: int) -> bool {
    &&& 0 <= idx < factors.len()
    &&& factors[idx] == r
    &&& forall|j: int| 0 <= j < factors.len() ==> #[trigger] factors[j] <= r
    &&& forall|j: int| 0 <= j < idx ==> #[trigger] factors[j] < r
}

/// Finds the binding vertex: the largest per-vertex crop factor and the first
/// index at which it occurs. An empty polygon is refused.
pub fn find_binding_vertex(factors: &Vec<u64>) -> (r: Result<(u64, usize), ZoomError>)
    ensures
        r is Ok <==> factors.len() > 0,
        factors.len() == 0 ==> r == Err::<(u64, usize), ZoomError>(ZoomError::InvalidInput),
        r matches Ok((f, idx)) ==> is_binding(factors@, f, idx as int),
{
    if factors.len() == 0 {
        return Err(ZoomError::InvalidInput);
    }
    let mut best: u64 = factors[0];
    let mut idx: usize = 0;
    let mut i: usize = 1;
    while i < factors.len()
        invariant
            1 <= i <= factors.len(),
            idx < i,
            factors@[idx as int] == best,
            forall|j: int| 0 <= j < i ==> #[trigger] factors@[j] <= best,
            forall|j: int| 0 <= j < idx ==> #[trigger] factors@[j] < best,
        decreases factors.len() - i,
    {
        if factors[i] > best {
            best = factors[i];
            idx = i;
        }
        i = i + 1;
    }
    Ok((best, idx))
}

/// The key of positive infinity. Keys strictly between 0 and this one are
/// exactly the bit patterns of positive finite binary64 numbers: a set sign
/// bit makes the key larger, and so does an exponent of all ones (infinity
/// and NaN), while 0 is the pattern of +0.0.
pub const INFINITY_KEY: u64 = 0x7FF0_0000_0000_0000;

/// The key of a positive finite value.
pub open spec fn is_fov_key(k: u64) -> bool {
    0 < k < INFINITY_KEY
}

/// `frame` is the first index of `values` that holds no key of a positive
/// finite value.
pub open spec fn is_first_anomaly(values: Seq<u64>, frame: int) -> bool {
    &&& 0 <= frame < values.len()
    &&& !is_fov_key(values[frame])
    &&& forall|i: int| 0 <= i < frame ==> is_fov_key(#[trigger] values[i])
}

/// Fails with the first frame whose key is not that of a positive finite
/// value.
pub fn check_fov_keys(values: &Vec<u64>, stage: FovStage) -> (r: Result<(), ZoomError>)
    ensures
        r is Ok <==> (forall|i: int| 0 <= i < values.len() ==> is_fov_key(#[trigger] values@[i])),
        r matches Err(ZoomError::NumericAnomaly { frame, stage: s }) ==> (s == stage
            && is_first_anomaly(values@, frame as int)),
        r is Err ==> (r matches Err(ZoomError::NumericAnomaly { .. })),
{
    let mut i: usize = 0;
    while i < values.len()
        invariant
            i <= values.len(),
            forall|k: int| 0 <= k < i ==> is_fov_key(#[trigger] values@[k]),
        decreases values.len() - i,
    {
        if values[i] == 0 || values[i] >= INFINITY_KEY {
            return Err(ZoomError::NumericAnomaly { frame: i, stage });
        }
        i = i + 1;
    }
    Ok(())
}

} // verus!
