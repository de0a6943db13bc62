//! The image that a run paints: a grid of single-channel intensity samples.
//!
//! The samples live in a `GrayImage` of the `image` crate. Verus cannot look
//! inside that buffer, so its width, its height and its samples are named
//! here, and the few calls into the crate are the only code in this module
//! whose contracts are believed rather than proved.

use vstd::prelude::*;

verus! {

/// A decoded grayscale image, `width` samples across and `height` samples
/// down, read-only for as long as it lives.
///
/// Trusted: the struct is opaque to Verus. What it holds is only known through
/// [`luma_width`], [`luma_height`] and [`luma_samples`].
#[verifier::external_body]
pub struct LumaImage {
    buffer: image::GrayImage,
}

/// The width that the buffer of `img` was made with.
pub uninterp spec fn luma_width(img: LumaImage) -> nat;

/// The height that the buffer of `img` was made with.
pub uninterp spec fn luma_height(img: LumaImage) -> nat;

/// The samples that the buffer of `img` holds, row after row, the top row
/// first and each row from left to right.
pub uninterp spec fn luma_samples(img: LumaImage) -> Seq<u8>;

/// Trusted wrapper of `image::ImageBuffer::from_raw` at `Luma<u8>` over
/// `Vec<u8>`. The crate accepts the container exactly when it holds at least
/// `width * height` samples, and then keeps the two dimensions and the
/// container as they were given.
#[verifier::external_body]
fn buffer_from_raw(width: u32, height: u32, samples: Vec<u8>) -> (made: Option<LumaImage>)
    ensures
        made.is_some() <==> width * height <= samples@.len(),
        made matches Some(img) ==> {
            &&& luma_width(img) == width
            &&& luma_height(img) == height
            &&& luma_samples(img) == samples@
        },
{
    match image::GrayImage::from_raw(width, height, samples) {
        Some(buffer) => Some(LumaImage { buffer }),
        None => None,
    }
}

/// Trusted wrapper of `image::ImageBuffer::dimensions`, which returns the
/// width and the height that the buffer was made with, in that order.
#[verifier::external_body]
fn buffer_dimensions(img: &LumaImage) -> (dims: (u32, u32))
    ensures
        dims.0 == luma_width(*img),
        dims.1 == luma_height(*img),
{
    img.buffer.dimensions()
}

/// Trusted wrapper of `image::ImageBuffer::get_pixel` followed by the pixel's
/// only channel. Inside the bounds the crate reads the container at
/// `y * width + x`; outside them it panics, so the bounds are required.
#[verifier::external_body]
fn buffer_sample(img: &LumaImage, x: u32, y: u32) -> (sample: u8)
    requires
        x < luma_width(*img),
        y < luma_height(*img),
    ensures
        sample == luma_samples(*img)[y * luma_width(*img) + x],
{
    img.buffer.get_pixel(x, y).0[0]
}

impl LumaImage {
    /// The intensity at column `x` of row `y`.
    pub open spec fn sample_at(self, x: int, y: int) -> u8 {
        luma_samples(self)[y * luma_width(self) + x]
    }

    /// Whether `(x, y)` names a sample of the image.
    pub open spec fn contains(self, x: int, y: int) -> bool {
        0 <= x < luma_width(self) && 0 <= y < luma_height(self)
    }

    /// Builds the image from its dimensions and its samples in row-major
    /// order. The samples are accepted exactly when there are at least
    /// `width * height` of them; any beyond that number are never read.
    pub fn new(width: u32, height: u32, samples: Vec<u8>) -> (made: Option<LumaImage>)
        ensures
            made.is_some() <==> width * height <= samples@.len(),
            made matches Some(img) ==> {
                &&& luma_width(img) == width
                &&& luma_height(img) == height
                &&& luma_samples(img) == samples@
            },
    {
        buffer_from_raw(width, height, samples)
    }

    /// Number of columns.
    pub fn width(&self) -> (w: u32)
        ensures
            w == luma_width(*self),
    {
        buffer_dimensions(self).0
    }

    /// Number of rows.
    pub fn height(&self) -> (h: u32)
        ensures
            h == luma_height(*self),
    {
        buffer_dimensions(self).1
    }

    /// The intensity at column `x` of row `y`, or `None` when `(x, y)` lies
    /// outside the image.
    pub fn intensity(&self, x: u32, y: u32) -> (found: Option<u8>)
        ensures
            found.is_some() <==> self.contains(x as int, y as int),
            found matches Some(v) ==> v == self.sample_at(x as int, y as int),
    {
        let (width, height) = buffer_dimensions(self);
        if x < width && y < height {
            Some(buffer_sample(self, x, y))
        } else {
            None
        }
    }
}

} // verus!
