//! Typed errors of the pipeline.  Every stage returns one of these rather
//! than aborting; callers report them and either skip the image (batch mode)
//! or display them and allow a retry (interactive mode).

use vstd::prelude::*;
use crate::geometry::Point;

verus! {

/// The detected identity set differs from {0,1,2,3}.  Carries how many
/// markers with a layout identity were seen and, for diagnostics, the corner
/// sums of the rejected candidate quadrilaterals (four times each centroid,
/// kept exact in integers, so in quarter-subpixel units).
#[derive(Clone, Debug)]
pub struct MarkerCountMismatch {
    pub count: usize,
    pub rejected_centroids: Vec<Point>,
}

/// Degenerate geometry: the four source points admit no perspective
/// transform, or the warped image does not cover the requested crop
/// rectangle.
#[derive(Clone, Copy, PartialEq, Eq, Structural, Debug)]
pub enum GeometryError {
    DegenerateQuad,
    WarpSizeMismatch,
}

/// A command-line request that is rejected before any image work begins.
#[derive(Clone, Copy, PartialEq, Eq, Structural, Debug)]
pub enum ArgumentValidationError {
    /// `--img_out` was given, but not one path per zoom value.
    OutputCountMismatch { outputs: usize, zooms: usize },
    /// `--out_dim` did not hold exactly a width and a height.
    DimensionCountMismatch { given: usize },
    /// A requested dimension is zero, negative, or too large for a pixel
    /// buffer.
    DimensionOutOfRange,
    /// A zoom value is zero or too large for subpixel coordinates.
    ZoomOutOfRange,
    /// Output names must be derived from the input path, but it has no
    /// extension to carry over.
    InputMissingExtension,
}

/// The source image could not be read or decoded; fatal for that image.
#[derive(Clone, Debug)]
pub struct ImageLoadError {
    pub path: String,
    pub reason: String,
}

/// An output file could not be written; fatal for that specific output
/// only, other outputs are still attempted.
#[derive(Clone, Debug)]
pub struct IoError {
    pub path: String,
    pub reason: String,
}

} // verus!
