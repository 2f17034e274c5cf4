//! Errors reported by constructors and guarded operations.

use vstd::prelude::*;

verus! {

/// What a caller did wrong.
#[derive(Clone, Copy, Debug, PartialEq, Eq, Structural)]
pub enum GeometryError {
    /// A vector of zero norm was to be normalized or projected onto.
    ZeroNorm,
    /// A sphere was given a radius that is not positive.
    NonPositiveRadius,
    /// A camera was given a viewport height that is not positive, or a zero
    /// aspect ratio.
    DegenerateCamera,
    /// A scatter-sampling method name that the library does not know.
    UnknownSamplingMethod,
    /// An image with a single pixel along one side, which leaves nothing to
    /// divide a pixel's position by.
    DegenerateImage,
}

impl GeometryError {
    /// A short description of the error.
    pub fn describe(&self) -> (text: &'static str)
        ensures
            text@ == match *self {
                GeometryError::ZeroNorm => "vector has zero norm"@,
                GeometryError::NonPositiveRadius => "sphere radius must be positive"@,
                GeometryError::DegenerateCamera => "camera viewport is degenerate"@,
                GeometryError::UnknownSamplingMethod => "unknown sampling method"@,
                GeometryError::DegenerateImage => "image has a single pixel along one side"@,
            },
    {
        match self {
            GeometryError::ZeroNorm => "vector has zero norm",
            GeometryError::NonPositiveRadius => "sphere radius must be positive",
            GeometryError::DegenerateCamera => "camera viewport is degenerate",
            GeometryError::UnknownSamplingMethod => "unknown sampling method",
            GeometryError::DegenerateImage => "image has a single pixel along one side",
        }
    }
}

} // verus!
