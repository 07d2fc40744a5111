//! Decoded images and the format normalizer.
//!
//! The codec collaborator turns encoded bytes into a `DecodedImage`: the
//! channel layouts the averager understands are kept as raw sample bytes, and
//! every other layout is marked unsupported. The verified normalizer then
//! produces the canonical 3-channel grid, dropping a 4th (alpha) channel when
//! one is present.

use vstd::arithmetic::div_mod::lemma_div_by_multiple;
use vstd::prelude::*;

use crate::error::AverageError;
use crate::grid::Rgb8Image;
use crate::sample::Rgb8;

verus! {

/// A decoded input image, as the codec hands it over: either one of the two
/// supported 8-bit layouts with its raw sample bytes, or unsupported.
pub enum DecodedImage {
    /// 3-channel 8-bit: `data` holds 3 bytes per pixel, row-major.
    Rgb8 { width: u32, height: u32, data: Vec<u8> },
    /// 4-channel 8-bit: `data` holds 4 bytes per pixel, row-major.
    Rgba8 { width: u32, height: u32, data: Vec<u8> },
    /// Any other layout (grayscale, 16-bit, floating point, ...).
    Unsupported,
}

/// The mathematical value of a decoded image.
pub enum DecodedV {
    Rgb8 { width: int, height: int, data: Seq<u8> },
    Rgba8 { width: int, height: int, data: Seq<u8> },
    Unsupported,
}

impl View for DecodedImage {
    type V = DecodedV;

    open spec fn view(&self) -> DecodedV {
        match self {
            DecodedImage::Rgb8 { width, height, data } => DecodedV::Rgb8 {
                width: *width as int,
                height: *height as int,
                data: data@,
            },
            DecodedImage::Rgba8 { width, height, data } => DecodedV::Rgba8 {
                width: *width as int,
                height: *height as int,
                data: data@,
            },
            DecodedImage::Unsupported => DecodedV::Unsupported,
        }
    }
}

/// The samples of `data`, read `stride` bytes per pixel, keeping the first
/// three bytes of each pixel as red, green and blue.
pub open spec fn norm_pixels(data: Seq<u8>, stride: int) -> Seq<Rgb8> {
    Seq::new(
        ((data.len() as int / stride) as nat),
        |j: int| Rgb8 { r: data[stride * j], g: data[stride * j + 1], b: data[stride * j + 2] },
    )
}

impl DecodedV {
    /// The raw buffer holds exactly one pixel's bytes per pixel position.
    pub open spec fn wf(self) -> bool {
        match self {
            DecodedV::Rgb8 { width, height, data } => data.len() == 3 * width * height,
            DecodedV::Rgba8 { width, height, data } => data.len() == 4 * width * height,
            DecodedV::Unsupported => true,
        }
    }

    /// Whether the layout is one the averager accepts.
    pub open spec fn is_supported(self) -> bool {
        self is Rgb8 || self is Rgba8
    }

    pub open spec fn width_of(self) -> int {
        match self {
            DecodedV::Rgb8 { width, .. } => width,
            DecodedV::Rgba8 { width, .. } => width,
            DecodedV::Unsupported => 0,
        }
    }

    pub open spec fn height_of(self) -> int {
        match self {
            DecodedV::Rgb8 { height, .. } => height,
            DecodedV::Rgba8 { height, .. } => height,
            DecodedV::Unsupported => 0,
        }
    }

    /// The canonical 3-channel samples of a supported image.
    pub open spec fn norm(self) -> Seq<Rgb8> {
        match self {
            DecodedV::Rgb8 { data, .. } => norm_pixels(data, 3),
            DecodedV::Rgba8 { data, .. } => norm_pixels(data, 4),
            DecodedV::Unsupported => Seq::empty(),
        }
    }
}

/// Declares `image::ImageError`, the codec's error type, so that the decode
/// wrapper can return it; the pipeline carries only its description onward.
#[verifier::external_type_specification]
#[verifier::external_body]
pub struct ExImageError(image::ImageError);

/// Relies on `image::load_from_memory`: malformed input comes back as an
/// error rather than a panic, and a decoded 8-bit RGB (RGBA) buffer holds
/// exactly 3 (4) bytes per pixel, in row-major red-green-blue(-alpha) order.
/// Which image a given byte string decodes to is left open: the codec's
/// format detection and decoder set are extensible at run time, so the
/// contract states only what holds of every outcome.
#[verifier::external_body]
pub(crate) fn decode_bytes(bytes: &Vec<u8>) -> (r: Result<DecodedImage, image::ImageError>)
    ensures
        match r {
            Ok(d) => d@.wf(),
            Err(_) => true,
        },
{
    match image::load_from_memory(bytes.as_slice()) {
        Ok(image::DynamicImage::ImageRgb8(img)) => {
            let (width, height) = img.dimensions();
            Ok(DecodedImage::Rgb8 { width, height, data: img.into_raw() })
        }
        Ok(image::DynamicImage::ImageRgba8(img)) => {
            let (width, height) = img.dimensions();
            Ok(DecodedImage::Rgba8 { width, height, data: img.into_raw() })
        }
        Ok(_) => Ok(DecodedImage::Unsupported),
        Err(e) => Err(e),
    }
}

/// Relies on the `std::fmt::Display` impl of `image::ImageError` for a
/// human-readable description of a decode failure.
#[verifier::external_body]
pub(crate) fn image_error_text(e: &image::ImageError) -> String {
    format!("{}", e)
}

/// Normalizes a decoded image to the canonical 3-channel 8-bit grid: a
/// 3-channel image passes through unchanged, a 4-channel image loses its 4th
/// channel, and anything else is rejected.
pub fn to_rgba8(image: DecodedImage) -> (r: Result<Rgb8Image, AverageError>)
    requires
        image@.wf(),
    ensures
        match r {
            Ok(img) => {
                &&& image@.is_supported()
                &&& img.wf()
                &&& img.width as int == image@.width_of()
                &&& img.height as int == image@.height_of()
                &&& img.data@ == image@.norm()
            },
            Err(e) => e == AverageError::UnsupportedFormat && !image@.is_supported(),
        },
{
    let ghost v = image@;
    match image {
        DecodedImage::Rgb8 { width, height, data } => {
            proof {
                let w = width as int;
                let h = height as int;
                assert(3 * w * h == (w * h) * 3) by (nonlinear_arith);
                lemma_div_by_multiple(w * h, 3);
            }
            let n: usize = data.len() / 3;
            assert(n == v.norm().len());
            let mut out: Vec<Rgb8> = Vec::new();
            let mut j: usize = 0;
            while j < n
                invariant
                    j <= n,
                    data@.len() == 3 * n,
                    data@.len() <= usize::MAX,
                    out@.len() == j,
                    forall|k: int|
                        0 <= k < j ==> out@[k] == (Rgb8 {
                            r: data@[3 * k],
                            g: data@[3 * k + 1],
                            b: data@[3 * k + 2],
                        }),
                decreases n - j,
            {
                out.push(Rgb8 { r: data[3 * j], g: data[3 * j + 1], b: data[3 * j + 2] });
                j = j + 1;
            }
            assert(out@ =~= v.norm());
            Ok(Rgb8Image { width, height, data: out })
        }
        DecodedImage::Rgba8 { width, height, data } => {
            proof {
                let w = width as int;
                let h = height as int;
                assert(4 * w * h == (w * h) * 4) by (nonlinear_arith);
                lemma_div_by_multiple(w * h, 4);
            }
            let n: usize = data.len() / 4;
            assert(n == v.norm().len());
            let mut out: Vec<Rgb8> = Vec::new();
            let mut j: usize = 0;
            while j < n
                invariant
                    j <= n,
                    data@.len() == 4 * n,
                    data@.len() <= usize::MAX,
                    out@.len() == j,
                    forall|k: int|
                        0 <= k < j ==> out@[k] == (Rgb8 {
                            r: data@[4 * k],
                            g: data@[4 * k + 1],
                            b: data@[4 * k + 2],
                        }),
                decreases n - j,
            {
                out.push(Rgb8 { r: data[4 * j], g: data[4 * j + 1], b: data[4 * j + 2] });
                j = j + 1;
            }
            assert(out@ =~= v.norm());
            Ok(Rgb8Image { width, height, data: out })
        }
        DecodedImage::Unsupported => Err(AverageError::UnsupportedFormat),
    }
}

} // verus!
