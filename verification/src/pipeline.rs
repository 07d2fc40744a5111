//! The averaging pipeline: a streaming accumulator over decoded images.
//!
//! An `Averager` starts empty, takes one image at a time — the first image
//! fixes the dimensions, every later one must match them — and finalizes into
//! the pixel-wise mean, each channel the truncating quotient of its running
//! sum by the image count.

use vstd::arithmetic::div_mod::lemma_div_by_multiple;
use vstd::arithmetic::div_mod::lemma_div_is_ordered;
use vstd::arithmetic::div_mod::lemma_div_multiples_vanish;
use vstd::prelude::*;

use crate::decode::decode_bytes;
use crate::decode::image_error_text;
use crate::decode::DecodedV;
use crate::decode::to_rgba8;
use crate::error::AverageError;
use crate::grid::Rgb32Image;
use crate::grid::Rgb8Image;
use crate::sample::channel32;
use crate::sample::channel8;
use crate::sample::Rgb8;

verus! {

/// The most images one run may accumulate: a channel value of 255 from every
/// one of `MAX_IMAGES` images still fits a 32-bit cell, since
/// 255 * 16843009 == u32::MAX.
pub const MAX_IMAGES: u32 = 16843009;

/// The sum over `imgs` of channel `c` of the sample at pixel position `i`.
pub open spec fn sum_at(imgs: Seq<Seq<Rgb8>>, i: int, c: int) -> int
    decreases imgs.len(),
{
    if imgs.len() == 0 {
        0
    } else {
        sum_at(imgs.drop_last(), i, c) + channel8(imgs.last()[i], c)
    }
}

/// Appending one grid adds exactly its channel value to the running sum.
pub proof fn lemma_sum_push(imgs: Seq<Seq<Rgb8>>, p: Seq<Rgb8>, i: int, c: int)
    ensures
        sum_at(imgs.push(p), i, c) == sum_at(imgs, i, c) + channel8(p[i], c),
{
    assert(imgs.push(p).drop_last() =~= imgs);
    assert(imgs.push(p).last() == p);
}

/// A channel sum over `n` images lies between 0 and `255 * n`.
pub proof fn lemma_sum_bound(imgs: Seq<Seq<Rgb8>>, i: int, c: int)
    ensures
        0 <= sum_at(imgs, i, c) <= 255 * imgs.len(),
    decreases imgs.len(),
{
    if imgs.len() > 0 {
        lemma_sum_bound(imgs.drop_last(), i, c);
    }
}

/// The pixel grids of a sequence of images.
pub open spec fn pixels_of(images: Seq<Rgb8Image>) -> Seq<Seq<Rgb8>> {
    images.map_values(|im: Rgb8Image| im.data@)
}

/// The streaming averaging pipeline: an accumulator buffer, the count of
/// images taken so far, and the ghost record of their pixel grids.
pub struct Averager {
    pub acc: Rgb32Image,
    pub count: u32,
    pub history: Ghost<Seq<Seq<Rgb8>>>,
}

impl Averager {
    /// The pixel grids accumulated so far, in order.
    pub open spec fn images(&self) -> Seq<Seq<Rgb8>> {
        self.history@
    }

    /// The dimensions fixed by the first image; meaningful once `count > 0`.
    pub open spec fn dims(&self) -> (u32, u32) {
        self.acc.dim
    }

    /// Every accumulator cell holds exactly the channel sums over the images
    /// taken so far, and the count stays small enough that no cell can
    /// overflow on the next image.
    pub open spec fn wf(&self) -> bool {
        &&& self.count == self.history@.len()
        &&& self.count <= MAX_IMAGES
        &&& self.acc.wf()
        &&& forall|k: int|
            0 <= k < self.history@.len() ==> (#[trigger] self.history@[k]).len()
                == self.acc.data@.len()
        &&& forall|i: int|
            0 <= i < self.acc.data@.len() ==> {
                &&& (#[trigger] self.acc.data@[i]).r == sum_at(self.history@, i, 0)
                &&& self.acc.data@[i].g == sum_at(self.history@, i, 1)
                &&& self.acc.data@[i].b == sum_at(self.history@, i, 2)
            }
    }

    /// A pipeline that has seen no image yet.
    pub fn new() -> (r: Self)
        ensures
            r.wf(),
            r.count == 0,
            r.images() == Seq::<Seq<Rgb8>>::empty(),
    {
        let avg = Averager {
            acc: Rgb32Image::new((0, 0)),
            count: 0,
            history: Ghost(Seq::empty()),
        };
        avg
    }

    /// Takes one normalized image: the first fixes the dimensions, every
    /// later one must match them or the pipeline rejects it unchanged.
    pub fn push(&mut self, img: &Rgb8Image) -> (r: Result<(), AverageError>)
        requires
            old(self).wf(),
            old(self).count < MAX_IMAGES,
            img.wf(),
            old(self).count == 0 ==> img.width * img.height <= u32::MAX,
        ensures
            final(self).wf(),
            match r {
                Ok(()) => {
                    &&& (old(self).count > 0 ==> old(self).dims() == (img.width, img.height))
                    &&& final(self).images() == old(self).images().push(img.data@)
                    &&& final(self).count == old(self).count + 1
                    &&& final(self).dims() == (img.width, img.height)
                },
                Err(e) => {
                    &&& e == AverageError::DimensionMismatch
                    &&& old(self).count > 0
                    &&& old(self).dims() != (img.width, img.height)
                    &&& *final(self) == *old(self)
                },
            },
    {
        let ghost h0 = self.history@;
        if self.count == 0 {
            let mut acc = Rgb32Image::new((img.width, img.height));
            acc.accumulate(img);
            self.acc = acc;
            self.count = 1;
            self.history = Ghost(h0.push(img.data@));
            proof {
                assert forall|i: int, c: int|
                    0 <= i < self.acc.data@.len() && 0 <= c < 3 implies sum_at(
                    self.history@,
                    i,
                    c,
                ) == channel8(img.data@[i], c) by {
                    lemma_sum_push(h0, img.data@, i, c);
                }
            }
            Ok(())
        } else {
            if self.acc.dim.0 != img.width || self.acc.dim.1 != img.height {
                return Err(AverageError::DimensionMismatch);
            }
            proof {
                assert forall|i: int|
                    0 <= i < self.acc.data@.len() implies {
                    &&& (#[trigger] self.acc.data@[i]).r + 255 <= u32::MAX
                    &&& self.acc.data@[i].g + 255 <= u32::MAX
                    &&& self.acc.data@[i].b + 255 <= u32::MAX
                } by {
                    lemma_sum_bound(h0, i, 0);
                    lemma_sum_bound(h0, i, 1);
                    lemma_sum_bound(h0, i, 2);
                }
            }
            self.acc.accumulate(img);
            self.count = self.count + 1;
            self.history = Ghost(h0.push(img.data@));
            proof {
                assert forall|i: int, c: int|
                    0 <= i < self.acc.data@.len() && 0 <= c < 3 implies sum_at(
                    self.history@,
                    i,
                    c,
                ) == sum_at(h0, i, c) + channel8(img.data@[i], c) by {
                    lemma_sum_push(h0, img.data@, i, c);
                }
            }
            Ok(())
        }
    }

    /// One step of the pipeline on a decoded image `d`: `post` is `pre` with
    /// `d`'s normalized grid taken, under `push`'s dimension rule.
    pub open spec fn took_decoded(pre: Self, post: Self, d: DecodedV) -> bool {
        &&& d.wf()
        &&& d.is_supported()
        &&& (pre.count > 0 ==> pre.dims().0 == d.width_of() && pre.dims().1 == d.height_of())
        &&& post.images() == pre.images().push(d.norm())
        &&& post.count == pre.count + 1
        &&& post.dims().0 == d.width_of()
        &&& post.dims().1 == d.height_of()
    }

    /// Decodes one input's bytes, normalizes it, and takes it as `push` does.
    /// What the codec yields for given bytes is not fixed — its format
    /// detection and decoder set are extensible at run time — so the contract
    /// states what holds of every outcome: on success some well-formed,
    /// supported decoded image was taken, and each rejection leaves the
    /// pipeline unchanged.
    pub fn push_bytes(&mut self, bytes: &Vec<u8>) -> (r: Result<(), AverageError>)
        requires
            old(self).wf(),
            old(self).count < MAX_IMAGES,
        ensures
            final(self).wf(),
            match r {
                Ok(()) => exists|d: DecodedV|
                    #[trigger] Self::took_decoded(*old(self), *final(self), d),
                Err(e) => *final(self) == *old(self) && match e {
                    AverageError::NoImages => false,
                    AverageError::Decode(_) => true,
                    AverageError::UnsupportedFormat => true,
                    AverageError::DimensionMismatch => old(self).count > 0,
                    AverageError::TooLarge => old(self).count == 0,
                },
            },
    {
        let decoded = match decode_bytes(bytes) {
            Ok(d) => d,
            Err(e) => {
                return Err(AverageError::Decode(image_error_text(&e)));
            },
        };
        let ghost dv = decoded@;
        let img = match to_rgba8(decoded) {
            Ok(img) => img,
            Err(e) => {
                return Err(e);
            },
        };
        proof {
            assert((img.width as int) * (img.height as int) <= 0xFFFF_FFFF * 0xFFFF_FFFF)
                by (nonlinear_arith)
                requires
                    img.width <= 0xFFFF_FFFFu32,
                    img.height <= 0xFFFF_FFFFu32,
            ;
        }
        if self.count == 0 && (img.width as u64) * (img.height as u64) > (u32::MAX as u64) {
            return Err(AverageError::TooLarge);
        }
        let res = self.push(&img);
        proof {
            if res is Ok {
                assert(Self::took_decoded(*old(self), *self, dv));
            }
        }
        res
    }

    /// Divides every channel sum by the image count, truncating toward zero,
    /// and narrows the result to 8-bit samples. Rejected only when no image
    /// was taken.
    pub fn finish(self) -> (r: Result<Rgb8Image, AverageError>)
        requires
            self.wf(),
        ensures
            match r {
                Ok(img) => {
                    &&& self.count > 0
                    &&& img.width == self.dims().0
                    &&& img.height == self.dims().1
                    &&& img.wf()
                    &&& img.data@.len() == self.acc.data@.len()
                    &&& forall|i: int, c: int|
                        0 <= i < img.data@.len() && 0 <= c < 3 ==> #[trigger] channel8(
                            img.data@[i],
                            c,
                        ) == sum_at(self.images(), i, c) / (self.count as int)
                },
                Err(e) => e == AverageError::NoImages && self.count == 0,
            },
    {
        let ghost hist = self.history@;
        if self.count == 0 {
            return Err(AverageError::NoImages);
        }
        let count = self.count;
        let acc = self.acc;
        proof {
            assert forall|i: int|
                0 <= i < acc.data@.len() implies {
                &&& (#[trigger] acc.data@[i]).r as int / (count as int) <= 255
                &&& acc.data@[i].g as int / (count as int) <= 255
                &&& acc.data@[i].b as int / (count as int) <= 255
            } by {
                lemma_sum_bound(hist, i, 0);
                lemma_sum_bound(hist, i, 1);
                lemma_sum_bound(hist, i, 2);
                lemma_div_is_ordered(acc.data@[i].r as int, 255 * (count as int), count as int);
                lemma_div_is_ordered(acc.data@[i].g as int, 255 * (count as int), count as int);
                lemma_div_is_ordered(acc.data@[i].b as int, 255 * (count as int), count as int);
                lemma_div_by_multiple(255, count as int);
            }
        }
        let divided = acc.div(count);
        let img = divided.to_rgb8();
        Ok(img)
    }
}

/// Sums a non-empty set of same-sized images into one accumulator buffer,
/// sized from the first image, cell by cell.
pub fn add_images(images: &Vec<Rgb8Image>) -> (r: Rgb32Image)
    requires
        images@.len() > 0,
        images@.len() <= MAX_IMAGES,
        forall|k: int| 0 <= k < images@.len() ==> (#[trigger] images@[k]).wf(),
        forall|k: int|
            0 <= k < images@.len() ==> (#[trigger] images@[k]).width == images@[0].width
                && images@[k].height == images@[0].height,
        images@[0].width * images@[0].height <= u32::MAX,
    ensures
        r.dim == (images@[0].width, images@[0].height),
        r.wf(),
        forall|i: int, c: int|
            0 <= i < r.data@.len() && 0 <= c < 3 ==> #[trigger] channel32(r.data@[i], c) == sum_at(
                pixels_of(images@),
                i,
                c,
            ),
{
    let mut avg = Averager::new();
    proof {
        assert(pixels_of(images@).take(0) =~= Seq::<Seq<Rgb8>>::empty());
    }
    let mut k: usize = 0;
    while k < images.len()
        invariant
            k <= images@.len(),
            images@.len() <= MAX_IMAGES,
            forall|j: int| 0 <= j < images@.len() ==> (#[trigger] images@[j]).wf(),
            forall|j: int|
                0 <= j < images@.len() ==> (#[trigger] images@[j]).width == images@[0].width
                    && images@[j].height == images@[0].height,
            images@[0].width * images@[0].height <= u32::MAX,
            avg.wf(),
            avg.count == k,
            avg.history@ == pixels_of(images@).take(k as int),
            k > 0 ==> avg.dims() == (images@[0].width, images@[0].height),
        decreases images@.len() - k,
    {
        let res = avg.push(&images[k]);
        proof {
            assert(pixels_of(images@).take(k as int).push(images@[k as int].data@) =~= pixels_of(
                images@,
            ).take(k as int + 1));
        }
        match res {
            Ok(()) => {},
            Err(_) => {
                proof {
                    assert(false);
                }
            },
        }
        k = k + 1;
    }
    proof {
        assert(pixels_of(images@).take(images@.len() as int) =~= pixels_of(images@));
    }
    avg.acc
}

/// The channel sum over copies of one grid is the count times the channel.
proof fn lemma_sum_of_copies(imgs: Seq<Seq<Rgb8>>, img: Seq<Rgb8>, i: int, c: int)
    requires
        forall|k: int| 0 <= k < imgs.len() ==> imgs[k] == img,
    ensures
        sum_at(imgs, i, c) == imgs.len() * channel8(img[i], c),
    decreases imgs.len(),
{
    if imgs.len() > 0 {
        lemma_sum_of_copies(imgs.drop_last(), img, i, c);
        assert(imgs.last() == img);
        assert((imgs.len() - 1) * channel8(img[i], c) + channel8(img[i], c) == imgs.len()
            * channel8(img[i], c)) by (nonlinear_arith);
    }
}

/// Law: averaging any positive number of copies of one pixel grid gives that
/// grid back — every channel's truncating quotient is the channel itself.
pub proof fn lemma_average_of_copies(imgs: Seq<Seq<Rgb8>>, img: Seq<Rgb8>, i: int, c: int)
    requires
        imgs.len() > 0,
        forall|k: int| 0 <= k < imgs.len() ==> imgs[k] == img,
        0 <= i < img.len(),
    ensures
        sum_at(imgs, i, c) / (imgs.len() as int) == channel8(img[i], c),
{
    lemma_sum_of_copies(imgs, img, i, c);
    lemma_div_multiples_vanish(channel8(img[i], c), imgs.len() as int);
}

/// Law: averaging a single image returns that image unchanged exactly.
pub proof fn lemma_average_single(img: Seq<Rgb8>, i: int, c: int)
    requires
        0 <= i < img.len(),
    ensures
        sum_at(seq![img], i, c) / 1 == channel8(img[i], c),
{
    lemma_average_of_copies(seq![img], img, i, c);
}

} // verus!
