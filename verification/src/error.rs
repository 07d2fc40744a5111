//! The error cases of the averaging pipeline. Every one of them is fatal to a
//! run: the caller is expected to report it and stop.

use vstd::prelude::*;

verus! {

/// Why an averaging run cannot go on.
#[derive(Debug, PartialEq, Eq)]
pub enum AverageError {
    /// No input images were supplied, so there is nothing to average.
    NoImages,
    /// An input could not be decoded; the payload is the codec's description.
    Decode(String),
    /// An input is neither 3-channel nor 4-channel 8-bit.
    UnsupportedFormat,
    /// An input's dimensions differ from the first image's dimensions.
    DimensionMismatch,
    /// The first image has more pixels than an accumulator cell is safe for.
    TooLarge,
}

} // verus!
