//! Where the sensor border is sampled before undistortion.
//!
//! The calibrated frame is the rectangle `[0, w] x [0, h]`. Each side is cut
//! into `num_points - 1` equal steps; the border is walked top edge left to
//! right, right edge top to bottom, bottom edge right to left and left edge
//! bottom to top, so that neighbouring indices are neighbouring samples.
use vstd::prelude::*;

use crate::ZoomError;

verus! {

/// One coordinate of a border sample.
#[derive(Debug, Clone, Copy, PartialEq, Eq, Structural)]
pub enum EdgeCoord {
    /// The low side of the frame, 0.
    Zero,
    /// The high side of the frame, the full width or height.
    Full,
    /// `k` steps of one side length divided by the number of steps per side.
    Step(usize),
}

/// A border sample in step units of the calibrated frame.
#[derive(Debug, Clone, Copy, PartialEq, Eq, Structural)]
pub struct BorderSample {
    pub x: EdgeCoord,
    pub y: EdgeCoord,
}

/// Sample `k` of the border walk with `steps` steps per side.
pub open spec fn border_sample_spec(k: int, steps: int) -> BorderSample {
    if k < steps {
        BorderSample { x: EdgeCoord::Step(k as usize), y: EdgeCoord::Zero }
    } else if k < 2 * steps {
        BorderSample { x: EdgeCoord::Full, y: EdgeCoord::Step((k - steps) as usize) }
    } else if k < 3 * steps {
        BorderSample { x: EdgeCoord::Step((3 * steps - k) as usize), y: EdgeCoord::Full }
    } else {
        BorderSample { x: EdgeCoord::Zero, y: EdgeCoord::Step((4 * steps - k) as usize) }
    }
}

/// The number of border samples for `num_points` points per side (corners
/// shared), when that number is usable.
pub open spec fn polygon_len_spec(num_points: nat) -> int {
    4 * (num_points - 1)
}

/// Plans the border walk: `4 * (num_points - 1)` samples in walking order.
/// Fewer than two points per side, or a count beyond `usize`, is refused.
pub fn border_samples(num_points: usize) -> (r: Result<Vec<BorderSample>, ZoomError>)
    ensures
        r is Err <==> (num_points < 2 || polygon_len_spec(num_points as nat) > usize::MAX),
        r is Err ==> r == Err::<Vec<BorderSample>, ZoomError>(ZoomError::InvalidInput),
        r matches Ok(v) ==> v@ == Seq::new(polygon_len_spec(num_points as nat) as nat,
            |k: int| border_sample_spec(k, num_points - 1)),
{
    if num_points < 2 || num_points - 1 > usize::MAX / 4 {
        return Err(ZoomError::InvalidInput);
    }
    let steps = num_points - 1;
    let total = 4 * steps;
    let mut r: Vec<BorderSample> = Vec::with_capacity(total);
    let mut k: usize = 0;
    while k < total
        invariant
            steps == num_points - 1,
            steps >= 1,
            total == 4 * steps,
            k <= total,
            r.len() == k,
            forall|j: int| 0 <= j < k ==> #[trigger] r@[j] == border_sample_spec(j, steps as int),
        decreases total - k,
    {
        let sample = if k < steps {
            BorderSample { x: EdgeCoord::Step(k), y: EdgeCoord::Zero }
        } else if k < 2 * steps {
            BorderSample { x: EdgeCoord::Full, y: EdgeCoord::Step(k - steps) }
        } else if k < 3 * steps {
            BorderSample { x: EdgeCoord::Step(3 * steps - k), y: EdgeCoord::Full }
        } else {
            BorderSample { x: EdgeCoord::Zero, y: EdgeCoord::Step(4 * steps - k) }
        };
        r.push(sample);
        k = k + 1;
    }
    assert(r@ =~= Seq::new(polygon_len_spec(num_points as nat) as nat,
        |k: int| border_sample_spec(k, num_points - 1)));
    Ok(r)
}

} // verus!
