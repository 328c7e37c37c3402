//! Rectifies a photographed or scanned planar object: the caller supplies a
//! source raster and four corner points delineating a skewed quadrilateral,
//! and the library maps that region onto an axis-aligned rectangle.
//!
//! The pipeline is exact: the quadrilateral is validated as strictly convex,
//! rotated into a canonical order, a projective transform is derived in
//! closed form over the integers, and every output pixel is resampled through
//! the inverse transform with nearest-neighbour interpolation.

use vstd::prelude::*;

pub mod arith;
pub mod geometry;
pub mod projection;
pub mod raster;
pub mod rectify;

verus! {

/// Why an invocation was aborted. Decoding and encoding of image payloads
/// happen outside this library and report their own failures.
#[derive(Clone, Copy, PartialEq, Eq, Structural, Debug)]
pub enum SquareError {
    /// The four supplied points are not in strictly convex position.
    InvalidQuadrilateral,
    /// The closed-form solve or a matrix inversion met a zero denominator.
    DegenerateProjection,
}

impl SquareError {
    /// A short description of the failure.
    pub fn message(&self) -> (r: &'static str)
        ensures
            *self == SquareError::InvalidQuadrilateral ==> r@ == "Non-convex quadrilateral"@,
            *self == SquareError::DegenerateProjection ==> r@ == "Degenerate projection"@,
    {
        match self {
            SquareError::InvalidQuadrilateral => "Non-convex quadrilateral",
            SquareError::DegenerateProjection => "Degenerate projection",
        }
    }
}

} // verus!
