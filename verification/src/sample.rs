//! Color sample types: the 8-bit RGB sample read from input pixels and the
//! 32-bit accumulator sample that holds a running per-channel sum.

use vstd::prelude::*;

verus! {

/// One pixel's red, green and blue values, each an 8-bit unsigned integer.
#[derive(Clone, Copy, Debug, PartialEq, Eq, Structural)]
pub struct Rgb8 {
    pub r: u8,
    pub g: u8,
    pub b: u8,
}

/// One pixel's running per-channel sum, wide enough that realistic input
/// counts cannot overflow it.
#[derive(Clone, Copy, Debug, PartialEq, Eq, Structural)]
pub struct Rgb32 {
    pub r: u32,
    pub g: u32,
    pub b: u32,
}

/// Channel `c` of an 8-bit sample: 0 is red, 1 is green, 2 is blue.
pub open spec fn channel8(p: Rgb8, c: int) -> int {
    if c == 0 {
        p.r as int
    } else if c == 1 {
        p.g as int
    } else {
        p.b as int
    }
}

/// Channel `c` of an accumulator sample: 0 is red, 1 is green, 2 is blue.
pub open spec fn channel32(p: Rgb32, c: int) -> int {
    if c == 0 {
        p.r as int
    } else if c == 1 {
        p.g as int
    } else {
        p.b as int
    }
}

impl Rgb32 {
    /// The all-zero accumulator sample, the starting point of every sum.
    pub fn black() -> (r: Self)
        ensures
            r.r == 0,
            r.g == 0,
            r.b == 0,
    {
        Rgb32 { r: 0, g: 0, b: 0 }
    }
}

} // verus!
