//! Pixel grids: the 8-bit RGB image and the 32-bit accumulator buffer.
//!
//! The accumulator buffer is created zeroed, grows by per-channel addition of
//! one image at a time, and is narrowed back to 8-bit samples by truncating
//! integer division.

use vstd::pervasive::VecAdditionalExecFns;
use vstd::prelude::*;

use crate::sample::Rgb32;
use crate::sample::Rgb8;

verus! {

/// A grid of 8-bit RGB samples, indexed row-major by pixel position.
#[derive(Debug)]
pub struct Rgb8Image {
    pub width: u32,
    pub height: u32,
    pub data: Vec<Rgb8>,
}

impl Rgb8Image {
    /// The grid holds exactly one sample per pixel.
    pub open spec fn wf(&self) -> bool {
        self.data@.len() == self.width * self.height
    }
}

/// A grid of 32-bit accumulator samples, the same shape as the input images.
#[derive(Debug)]
pub struct Rgb32Image {
    pub dim: (u32, u32),
    pub data: Vec<Rgb32>,
}

impl Rgb32Image {
    /// The grid holds exactly one accumulator sample per pixel.
    pub open spec fn wf(&self) -> bool {
        self.data@.len() == self.dim.0 * self.dim.1
    }

    /// The canonical empty accumulator: a zeroed grid of the given dimensions.
    pub fn new(dim: (u32, u32)) -> (r: Self)
        requires
            dim.0 * dim.1 <= u32::MAX,
        ensures
            r.dim == dim,
            r.wf(),
            forall|i: int|
                0 <= i < r.data@.len() ==> r.data@[i] == (Rgb32 { r: 0u32, g: 0u32, b: 0u32 }),
    {
        let size: usize = (dim.0 * dim.1) as usize;
        let mut data: Vec<Rgb32> = Vec::new();
        while data.len() < size
            invariant
                data@.len() <= size,
                forall|i: int|
                    0 <= i < data@.len() ==> data@[i] == (Rgb32 { r: 0u32, g: 0u32, b: 0u32 }),
            decreases size - data@.len(),
        {
            data.push(Rgb32::black());
        }
        Rgb32Image { dim, data }
    }

    /// Adds the image's channel values into the matching cells, pixel by pixel.
    pub fn accumulate(&mut self, img: &Rgb8Image)
        requires
            old(self).wf(),
            img.wf(),
            old(self).dim.0 == img.width,
            old(self).dim.1 == img.height,
            forall|i: int|
                0 <= i < old(self).data@.len() ==> {
                    &&& (#[trigger] old(self).data@[i]).r + 255 <= u32::MAX
                    &&& old(self).data@[i].g + 255 <= u32::MAX
                    &&& old(self).data@[i].b + 255 <= u32::MAX
                },
        ensures
            final(self).dim == old(self).dim,
            final(self).data@.len() == old(self).data@.len(),
            forall|i: int|
                0 <= i < final(self).data@.len() ==> {
                    &&& (#[trigger] final(self).data@[i]).r as int == old(self).data@[i].r
                        + img.data@[i].r
                    &&& final(self).data@[i].g as int == old(self).data@[i].g + img.data@[i].g
                    &&& final(self).data@[i].b as int == old(self).data@[i].b + img.data@[i].b
                },
    {
        let n: usize = self.data.len();
        let mut i: usize = 0;
        while i < n
            invariant
                i <= n,
                n == old(self).data@.len(),
                self.dim == old(self).dim,
                self.data@.len() == n,
                img.data@.len() == n,
                forall|j: int| i <= j < n ==> self.data@[j] == old(self).data@[j],
                forall|j: int|
                    0 <= j < i ==> {
                        &&& (#[trigger] self.data@[j]).r as int == old(self).data@[j].r
                            + img.data@[j].r
                        &&& self.data@[j].g as int == old(self).data@[j].g + img.data@[j].g
                        &&& self.data@[j].b as int == old(self).data@[j].b + img.data@[j].b
                    },
                forall|j: int|
                    0 <= j < n ==> {
                        &&& (#[trigger] old(self).data@[j]).r + 255 <= u32::MAX
                        &&& old(self).data@[j].g + 255 <= u32::MAX
                        &&& old(self).data@[j].b + 255 <= u32::MAX
                    },
            decreases n - i,
        {
            let p = self.data[i];
            let q = img.data[i];
            self.data.set(
                i,
                Rgb32 { r: p.r + q.r as u32, g: p.g + q.g as u32, b: p.b + q.b as u32 },
            );
            i = i + 1;
        }
    }

    /// Divides every channel sum by `value`, truncating toward zero.
    pub fn div(self, value: u32) -> (r: Self)
        requires
            value > 0,
        ensures
            r.dim == self.dim,
            r.data@.len() == self.data@.len(),
            forall|i: int|
                0 <= i < r.data@.len() ==> {
                    &&& (#[trigger] r.data@[i]).r as int == self.data@[i].r as int / value as int
                    &&& r.data@[i].g as int == self.data@[i].g as int / value as int
                    &&& r.data@[i].b as int == self.data@[i].b as int / value as int
                },
    {
        let ghost orig = self;
        let mut this = self;
        let n: usize = this.data.len();
        let mut i: usize = 0;
        while i < n
            invariant
                i <= n,
                value > 0,
                n == orig.data@.len(),
                this.dim == orig.dim,
                this.data@.len() == n,
                forall|j: int| i <= j < n ==> this.data@[j] == orig.data@[j],
                forall|j: int|
                    0 <= j < i ==> {
                        &&& (#[trigger] this.data@[j]).r as int == orig.data@[j].r as int
                            / value as int
                        &&& this.data@[j].g as int == orig.data@[j].g as int / value as int
                        &&& this.data@[j].b as int == orig.data@[j].b as int / value as int
                    },
            decreases n - i,
        {
            let p = this.data[i];
            this.data.set(i, Rgb32 { r: p.r / value, g: p.g / value, b: p.b / value });
            i = i + 1;
        }
        this
    }

    /// Narrows every cell to an 8-bit sample; every channel must already fit.
    pub fn to_rgb8(self) -> (r: Rgb8Image)
        requires
            self.wf(),
            forall|i: int|
                0 <= i < self.data@.len() ==> {
                    &&& (#[trigger] self.data@[i]).r <= 255
                    &&& self.data@[i].g <= 255
                    &&& self.data@[i].b <= 255
                },
        ensures
            r.width == self.dim.0,
            r.height == self.dim.1,
            r.wf(),
            r.data@.len() == self.data@.len(),
            forall|i: int|
                0 <= i < r.data@.len() ==> {
                    &&& (#[trigger] r.data@[i]).r as int == self.data@[i].r
                    &&& r.data@[i].g as int == self.data@[i].g
                    &&& r.data@[i].b as int == self.data@[i].b
                },
    {
        let n: usize = self.data.len();
        let mut out: Vec<Rgb8> = Vec::new();
        let mut i: usize = 0;
        while i < n
            invariant
                i <= n,
                n == self.data@.len(),
                out@.len() == i,
                forall|j: int|
                    0 <= j < self.data@.len() ==> {
                        &&& (#[trigger] self.data@[j]).r <= 255
                        &&& self.data@[j].g <= 255
                        &&& self.data@[j].b <= 255
                    },
                forall|j: int|
                    0 <= j < i ==> {
                        &&& (#[trigger] out@[j]).r as int == self.data@[j].r
                        &&& out@[j].g as int == self.data@[j].g
                        &&& out@[j].b as int == self.data@[j].b
                    },
            decreases n - i,
        {
            let p = self.data[i];
            out.push(Rgb8 { r: p.r as u8, g: p.g as u8, b: p.b as u8 });
            i = i + 1;
        }
        Rgb8Image { width: self.dim.0, height: self.dim.1, data: out }
    }
}

} // verus!
