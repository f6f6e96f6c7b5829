//! Temporal treatment of the per-frame field-of-view keys: edge padding, the
//! rolling minimum that precedes the Gaussian blur, the constant modes and the
//! render range.
use vstd::prelude::*;

use crate::keys::{is_range_min, lemma_seq_min, max_key, min_key, seq_max, seq_min};
use crate::ZoomError;

verus! {

/// The index of `s` that padded position `i` replicates: positions before the
/// data repeat the first element, positions after it repeat the last.
pub open spec fn edge_source(i: int, before: int, len: int) -> int {
    if i < before {
        0
    } else if i - before >= len {
        len - 1
    } else {
        i - before
    }
}

/// `s` with `before` copies of its first element in front and `after` copies
/// of its last element behind.
pub open spec fn edge_padded(s: Seq<u64>, before: nat, after: nat) -> Seq<u64> {
    Seq::new(before + s.len() + after, |i: int| s[edge_source(i, before as int, s.len() as int)])
}

/// Pads a non-empty sequence at both ends by replicating its edge values.
pub fn pad_edge(arr: &Vec<u64>, before: usize, after: usize) -> (r: Vec<u64>)
    requires
        arr.len() > 0,
        arr.len() + before + after <= usize::MAX,
    ensures
        r@ == edge_padded(arr@, before as nat, after as nat),
{
    let first = arr[0];
    let last = arr[arr.len() - 1];
    let total = arr.len() + before + after;
    let mut r: Vec<u64> = Vec::with_capacity(total);
    let mut i: usize = 0;
    while i < total
        invariant
            total == arr.len() + before + after,
            arr.len() > 0,
            first == arr@[0],
            last == arr@[arr.len() - 1],
            i <= total,
            r.len() == i,
            forall|k: int| 0 <= k < i ==>
                #[trigger] r@[k] == arr@[edge_source(k, before as int, arr.len() as int)],
        decreases total - i,
    {
        let v = if i < before {
            first
        } else if i - before >= arr.len() {
            last
        } else {
            arr[i - before]
        };
        r.push(v);
        i = i + 1;
    }
    assert(r@ =~= edge_padded(arr@, before as nat, after as nat));
    r
}

/// Each output element is the minimum of `window` consecutive inputs; a
/// window longer than the input leaves no output.
pub fn min_rolling(a: &Vec<u64>, window: usize) -> (r: Vec<u64>)
    requires
        window >= 1,
    ensures
        r.len() == if window <= a.len() { a.len() - window + 1 } else { 0 },
        forall|i: int| 0 <= i < r.len() ==> is_range_min(#[trigger] r@[i], a@, i, i + window),
{
    if window > a.len() {
        return Vec::new();
    }
    let count = a.len() - window + 1;
    let mut r: Vec<u64> = Vec::with_capacity(count);
    let mut i: usize = 0;
    while i < count
        invariant
            1 <= window <= a.len(),
            count == a.len() - window + 1,
            i <= count,
            r.len() == i,
            forall|k: int| 0 <= k < i ==> is_range_min(#[trigger] r@[k], a@, k, k + window),
        decreases count - i,
    {
        let mut m: u64 = a[i];
        let mut j: usize = i + 1;
        while j < i + window
            invariant
                i < count,
                count == a.len() - window + 1,
                i + 1 <= j <= i + window,
                is_range_min(m, a@, i as int, j as int),
            decreases i + window - j,
        {
            if a[j] < m {
                m = a[j];
            }
            j = j + 1;
        }
        r.push(m);
        assert(r@[i as int] == m);
        i = i + 1;
    }
    r
}

/// The frames of the raw sequence that the rolling minimum of output frame
/// `i` covers, for a window of `window` frames centred on `i` and clipped to
/// the sequence.
pub open spec fn window_start(i: int, window: int) -> int {
    if i - window / 2 < 0 { 0 } else { i - window / 2 }
}

pub open spec fn window_end(i: int, window: int, len: int) -> int {
    if i + window / 2 + 1 > len { len } else { i + window / 2 + 1 }
}

/// Rolling minimum over the edge-padded sequence, which keeps the length of
/// `raw`: each output frame is the smallest raw value within half a window
/// of it. Smoothing needs at least two frames.
pub fn rolling_minimum(raw: &Vec<u64>, window: usize) -> (r: Result<Vec<u64>, ZoomError>)
    requires
        window % 2 == 1,
    ensures
        r is Err <==> (raw.len() < 2 || raw.len() + window > usize::MAX),
        r is Err ==> r == Err::<Vec<u64>, ZoomError>(ZoomError::InvalidInput),
        r matches Ok(v) ==> v.len() == raw.len() && forall|i: int| 0 <= i < raw.len() ==>
            is_range_min(#[trigger] v@[i], raw@, window_start(i, window as int),
                window_end(i, window as int, raw.len() as int)),
{
    if raw.len() < 2 || raw.len() > usize::MAX - window {
        return Err(ZoomError::InvalidInput);
    }
    let half = window / 2;
    let padded = pad_edge(raw, half, half);
    let v = min_rolling(&padded, window);
    let ghost n = raw.len() as int;
    assert forall|i: int| 0 <= i < n implies is_range_min(#[trigger] v@[i], raw@,
        window_start(i, window as int), window_end(i, window as int, n)) by {
        let lo = window_start(i, window as int);
        let hi = window_end(i, window as int, n);
        let j = choose|j: int| i <= j < i + window && padded@[j] == v@[i];
        assert(padded@[j] == raw@[edge_source(j, half as int, n)]);
        assert forall|k: int| lo <= k < hi implies v@[i] <= #[trigger] raw@[k] by {
            assert(padded@[k + half] == raw@[k]);
        }
    }
    Ok(v)
}

/// The key of the field-of-view value 1.0, the full calibrated frame: the
/// binary64 bit pattern of 1.0.
pub const FULL_FRAME_KEY: u64 = 0x3FF0_0000_0000_0000;

/// How the raw field-of-view sequence is treated after the render range.
#[derive(Debug, Clone, Copy, PartialEq, Eq, Structural)]
pub enum SmoothingMode {
    /// Rolling minimum over an odd window, then a Gaussian blur of that window.
    Gaussian { window: usize },
    /// Every frame takes the smallest value of the whole sequence.
    ConstantMinimum,
    /// Every frame takes the full frame, 1.0.
    // TODO: this mode was meant to find the minimum sufficient crop; it keeps
    // the constant no-crop behaviour until such a mode is designed.
    NoCrop,
    /// The values pass through unchanged.
    Passthrough,
}

/// Well-formed modes: a Gaussian window is odd.
pub open spec fn mode_ok(mode: SmoothingMode) -> bool {
    mode matches SmoothingMode::Gaussian { window } ==> window % 2 == 1
}

/// A sequence of `len` copies of `v`.
pub fn constant_keys(v: u64, len: usize) -> (r: Vec<u64>)
    ensures
        r@ == Seq::new(len as nat, |i: int| v),
{
    let mut r: Vec<u64> = Vec::with_capacity(len);
    let mut i: usize = 0;
    while i < len
        invariant
            i <= len,
            r.len() == i,
            forall|k: int| 0 <= k < i ==> #[trigger] r@[k] == v,
        decreases len - i,
    {
        r.push(v);
        i = i + 1;
    }
    assert(r@ =~= Seq::new(len as nat, |i: int| v));
    r
}

/// What the smoothing stage makes of a raw sequence under `mode`. For the
/// Gaussian mode it is the rolling minimum that the blur is then applied to.
pub open spec fn smoothed_spec(raw: Seq<u64>, mode: SmoothingMode, v: Seq<u64>) -> bool {
    match mode {
        SmoothingMode::Gaussian { window } => v.len() == raw.len() && forall|i: int|
            0 <= i < raw.len() ==> is_range_min(#[trigger] v[i], raw,
                window_start(i, window as int), window_end(i, window as int, raw.len() as int)),
        SmoothingMode::ConstantMinimum => v == Seq::new(raw.len(), |i: int| seq_min(raw)),
        SmoothingMode::NoCrop => v == Seq::new(raw.len(), |i: int| FULL_FRAME_KEY),
        SmoothingMode::Passthrough => v == raw,
    }
}

/// When the smoothing stage refuses its input: always an empty sequence, and
/// for the Gaussian mode a single frame or a padded length beyond `usize`.
pub open spec fn smoothing_refused(len: nat, mode: SmoothingMode) -> bool {
    len == 0 || match mode {
        SmoothingMode::Gaussian { window } => len < 2 || len + window > usize::MAX,
        _ => false,
    }
}

/// Applies the smoothing stage selected by `mode` to the raw keys.
pub fn smooth_keys(raw: &Vec<u64>, mode: SmoothingMode) -> (r: Result<Vec<u64>, ZoomError>)
    requires
        mode_ok(mode),
    ensures
        r is Err <==> smoothing_refused(raw.len() as nat, mode),
        r is Err ==> r == Err::<Vec<u64>, ZoomError>(ZoomError::InvalidInput),
        r matches Ok(v) ==> smoothed_spec(raw@, mode, v@),
{
    if raw.len() == 0 {
        return Err(ZoomError::InvalidInput);
    }
    match mode {
        SmoothingMode::Gaussian { window } => rolling_minimum(raw, window),
        SmoothingMode::ConstantMinimum => {
            let m = min_key(raw)?;
            Ok(constant_keys(m, raw.len()))
        },
        SmoothingMode::NoCrop => Ok(constant_keys(FULL_FRAME_KEY, raw.len())),
        SmoothingMode::Passthrough => Ok(raw.clone()),
    }
}

/// The render range applied to `s`: frames before `first` and from `last` on
/// take the largest value of the sequence, the others keep theirs.
pub open spec fn render_range_spec(s: Seq<u64>, first: int, last: int) -> Seq<u64> {
    Seq::new(s.len(), |i: int| if i < first || i >= last { seq_max(s) } else { s[i] })
}

/// Limits tight cropping to the frames `first..last` that will be rendered.
/// An empty sequence, `first > last` and `last` beyond the end are refused.
pub fn apply_render_range(values: &Vec<u64>, first: usize, last: usize) -> (r: Result<Vec<u64>, ZoomError>)
    ensures
        r is Err <==> (values.len() == 0 || first > last || last > values.len()),
        r is Err ==> r == Err::<Vec<u64>, ZoomError>(ZoomError::InvalidInput),
        r matches Ok(v) ==> v@ == render_range_spec(values@, first as int, last as int),
{
    if values.len() == 0 || first > last || last > values.len() {
        return Err(ZoomError::InvalidInput);
    }
    let m = max_key(values)?;
    let mut r: Vec<u64> = Vec::with_capacity(values.len());
    let mut i: usize = 0;
    while i < values.len()
        invariant
            m == seq_max(values@),
            i <= values.len(),
            r.len() == i,
            forall|k: int| 0 <= k < i ==> #[trigger] r@[k] == render_range_spec(
                values@, first as int, last as int)[k],
        decreases values.len() - i,
    {
        if i < first || i >= last {
            r.push(m);
        } else {
            r.push(values[i]);
        }
        i = i + 1;
    }
    assert(r@ =~= render_range_spec(values@, first as int, last as int));
    Ok(r)
}

/// A render range that covers every frame changes nothing; one that ends at
/// the last frame changes nothing when that frame already holds the largest
/// value.
pub proof fn lemma_full_render_range(s: Seq<u64>)
    requires
        s.len() > 0,
    ensures
        render_range_spec(s, 0, s.len() as int) == s,
        s.last() == seq_max(s) ==> render_range_spec(s, 0, s.len() - 1) == s,
{
    assert(render_range_spec(s, 0, s.len() as int) =~= s);
    if s.last() == seq_max(s) {
        assert(render_range_spec(s, 0, s.len() - 1) =~= s);
    }
}

/// The smoothing stage keeps every value within the bounds of the raw
/// sequence, except the no-crop mode, which sets every frame to 1.0. So raw
/// values in (0, 1] stay in (0, 1] up to the blur.
pub proof fn lemma_smoothing_in_bounds(raw: Seq<u64>, mode: SmoothingMode, v: Seq<u64>, lo: u64, hi: u64)
    requires
        raw.len() > 0,
        forall|i: int| 0 <= i < raw.len() ==> lo <= #[trigger] raw[i] <= hi,
        smoothed_spec(raw, mode, v),
    ensures
        v.len() == raw.len(),
        mode != SmoothingMode::NoCrop ==> forall|i: int| 0 <= i < v.len() ==> lo <= #[trigger] v[i] <= hi,
        mode == SmoothingMode::NoCrop ==> forall|i: int| 0 <= i < v.len() ==> #[trigger] v[i] == FULL_FRAME_KEY,
{
    match mode {
        SmoothingMode::Gaussian { window } => {
            assert forall|i: int| 0 <= i < v.len() implies lo <= #[trigger] v[i] <= hi by {
                let j = choose|j: int| window_start(i, window as int) <= j < window_end(i, window as int, raw.len() as int) && raw[j] == v[i];
                assert(raw[j] == v[i]);
            }
        },
        SmoothingMode::ConstantMinimum => {
            lemma_seq_min(raw);
            let j = choose|j: int| 0 <= j < raw.len() && raw[j] == seq_min(raw);
            assert(lo <= raw[j] <= hi);
        },
        _ => {},
    }
}

/// The raw sequence after the optional render range, before smoothing.
pub open spec fn ranged_spec(raw: Seq<u64>, range: Option<(usize, usize)>) -> Seq<u64> {
    match range {
        Some((first, last)) => render_range_spec(raw, first as int, last as int),
        None => raw,
    }
}

/// When a render range is refused.
pub open spec fn range_refused(len: nat, range: Option<(usize, usize)>) -> bool {
    match range {
        Some((first, last)) => len == 0 || first > last || last > len,
        None => false,
    }
}

/// Checks, before any frame is computed, that a sequence of `len` frames
/// can take the render range and the smoothing stage: the same inputs that
/// `settle_fov` refuses are refused here.
pub fn check_plan(len: usize, range: Option<(usize, usize)>, mode: SmoothingMode) -> (r: Result<(), ZoomError>)
    ensures
        r is Err <==> (range_refused(len as nat, range) || smoothing_refused(len as nat, mode)),
        r is Err ==> r == Err::<(), ZoomError>(ZoomError::InvalidInput),
{
    let range_ok = match range {
        Some((first, last)) => len > 0 && first <= last && last <= len,
        None => true,
    };
    let smoothing_ok = len > 0 && match mode {
        SmoothingMode::Gaussian { window } => len >= 2 && len <= usize::MAX - window,
        _ => true,
    };
    if range_ok && smoothing_ok {
        Ok(())
    } else {
        Err(ZoomError::InvalidInput)
    }
}

/// Applies the optional render range and then the smoothing stage to the
/// raw per-frame keys. For the Gaussian mode the result is the rolling
/// minimum that the blur is applied to.
pub fn settle_fov(raw: &Vec<u64>, range: Option<(usize, usize)>, mode: SmoothingMode)
    -> (r: Result<Vec<u64>, ZoomError>)
    requires
        mode_ok(mode),
    ensures
        r is Err <==> (range_refused(raw.len() as nat, range)
            || smoothing_refused(raw.len() as nat, mode)),
        r is Err ==> r == Err::<Vec<u64>, ZoomError>(ZoomError::InvalidInput),
        r matches Ok(v) ==> smoothed_spec(ranged_spec(raw@, range), mode, v@),
{
    match range {
        Some((first, last)) => {
            let ranged = apply_render_range(raw, first, last)?;
            smooth_keys(&ranged, mode)
        },
        None => smooth_keys(raw, mode),
    }
}

/// A render range over the whole sequence, `0..n`, settles to the same keys
/// as no render range at all. Trim fractions 0 and 1 give the range
/// `0..n - 1` instead, which lifts the last frame to the largest value unless
/// it already holds it (see `lemma_full_render_range`).
pub proof fn lemma_whole_range_is_no_range(raw: Seq<u64>, mode: SmoothingMode, v: Seq<u64>)
    requires
        0 < raw.len() <= usize::MAX,
    ensures
        ranged_spec(raw, Some((0usize, raw.len() as usize))) == ranged_spec(raw, None),
        smoothed_spec(ranged_spec(raw, Some((0usize, raw.len() as usize))), mode, v)
            == smoothed_spec(ranged_spec(raw, None), mode, v),
{
    lemma_full_render_range(raw);
}

/// Settling keeps every frame within the bounds of the raw values, except
/// the no-crop mode, which sets every frame to 1.0: raw values in (0, 1]
/// stay in (0, 1] up to the blur.
pub proof fn lemma_settled_in_bounds(
    raw: Seq<u64>,
    range: Option<(usize, usize)>,
    mode: SmoothingMode,
    v: Seq<u64>,
    lo: u64,
    hi: u64,
)
    requires
        raw.len() > 0,
        forall|i: int| 0 <= i < raw.len() ==> lo <= #[trigger] raw[i] <= hi,
        smoothed_spec(ranged_spec(raw, range), mode, v),
    ensures
        v.len() == raw.len(),
        mode != SmoothingMode::NoCrop ==> forall|i: int| 0 <= i < v.len() ==> lo <= #[trigger] v[i] <= hi,
        mode == SmoothingMode::NoCrop ==> forall|i: int| 0 <= i < v.len() ==> #[trigger] v[i] == FULL_FRAME_KEY,
{
    let s = ranged_spec(raw, range);
    crate::keys::lemma_seq_max(raw);
    let j = choose|j: int| 0 <= j < raw.len() && raw[j] == seq_max(raw);
    assert(lo <= raw[j] <= hi);
    assert forall|i: int| 0 <= i < s.len() implies lo <= #[trigger] s[i] <= hi by {}
    lemma_smoothing_in_bounds(s, mode, v, lo, hi);
}

} // verus!
