//! Integer and ordering logic for choosing the zoom of a stabilised video.
//!
//! Field-of-view values and crop factors are positive finite reals. The
//! library carries them as order keys: the IEEE-754 binary64 bit pattern of a
//! positive finite number, read as a `u64`, orders exactly as the number does,
//! so minima, maxima and the binding vertex are computed on keys and mean the
//! same thing for the reals they stand for.
use vstd::prelude::*;

pub mod border;
pub mod keys;
pub mod smoothing;
pub mod window;

verus! {

/// The ways a zoom computation can fail.
#[derive(Debug, Clone, Copy, PartialEq, Eq, Structural)]
pub enum ZoomError {
    /// An empty sequence, a malformed range or a size that cannot be used.
    InvalidInput,
    /// A boundary vertex coincides with the crop centre of the given frame.
    DegenerateGeometry { frame: usize },
    /// A field-of-view value of the given frame is not finite or not
    /// positive after the given stage.
    NumericAnomaly { frame: usize, stage: FovStage },
}

/// The stage after which field-of-view values are checked.
#[derive(Debug, Clone, Copy, PartialEq, Eq, Structural)]
pub enum FovStage {
    /// The per-frame crop search and refinement.
    CropSearch,
    /// The render range and temporal smoothing.
    Smoothing,
}

/// Checks the integer part of a zoom request: at least one frame and an
/// output of positive width and height.
pub fn check_request(frames: usize, output_dim: (usize, usize)) -> (r: Result<(), ZoomError>)
    ensures
        r is Ok <==> (frames > 0 && output_dim.0 > 0 && output_dim.1 > 0),
        r is Err ==> r == Err::<(), ZoomError>(ZoomError::InvalidInput),
{
    if frames == 0 || output_dim.0 == 0 || output_dim.1 == 0 {
        Err(ZoomError::InvalidInput)
    } else {
        Ok(())
    }
}

} // verus!
