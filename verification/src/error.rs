//! Failure conditions of the rendering core.

use vstd::prelude::*;

verus! {

/// Why a rendering operation refused an input.
///
/// - `DegenerateViewport`: a viewport extent is zero, so no transform scale
///   exists for it.
/// - `InvalidIterations`: an iteration count below one, for which the color
///   banding formula is undefined; iteration counts must be at least one.
/// - `Overflow`: an exact rational intermediate fell outside the representable
///   range.
#[derive(Clone, Copy, Debug, PartialEq, Eq, Structural)]
pub enum FractalError {
    DegenerateViewport,
    InvalidIterations,
    Overflow,
}

} // verus!
