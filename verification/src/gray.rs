//! Grayscale images: a grid of 8-bit samples kept in a buffer of the `image`
//! crate. This file holds everything that touches the buffer: what the
//! verifier is told about it, and the calls into `image` and `imageproc`
//! that it has to take on trust.

use crate::raster::Raster;
use crate::running_sum::is_running_sum;
use vstd::prelude::*;

verus! {

/// A grayscale image. The samples live in an `image::GrayImage`, which the
/// verifier cannot look into; what it holds is named by [`image_width`],
/// [`image_height`] and [`image_pixels`].
#[verifier::external_body]
pub struct GrayImage {
    buffer: image::GrayImage,
}

/// The number of columns of the wrapped buffer.
pub uninterp spec fn image_width(img: GrayImage) -> u32;

/// The number of rows of the wrapped buffer.
pub uninterp spec fn image_height(img: GrayImage) -> u32;

/// The samples of the wrapped buffer, keyed by `(column, row)`.
pub uninterp spec fn image_pixels(img: GrayImage) -> Map<(int, int), u8>;

impl View for GrayImage {
    type V = Raster;

    open spec fn view(&self) -> Raster {
        Raster {
            width: image_width(*self) as nat,
            height: image_height(*self) as nat,
            pixels: image_pixels(*self),
        }
    }
}

/// Trusted: `image::ImageBuffer::new`. It allocates a vector of
/// `width * height` samples, all zero, and panics only when a vector cannot
/// be that long.
#[verifier::external_body]
pub(crate) fn blank_buffer(width: u32, height: u32) -> (img: GrayImage)
    requires
        width * height <= isize::MAX,
    ensures
        image_width(img) == width,
        image_height(img) == height,
        image_pixels(img) == Raster::blank(width as nat, height as nat).pixels,
{
    GrayImage { buffer: image::GrayImage::new(width, height) }
}

/// Trusted: `image::ImageBuffer::dimensions`. It returns the width and the
/// height that the buffer was made with; the buffer holds one sample for each
/// coordinate pair below them, in a vector, so their product is the length
/// of a vector.
#[verifier::external_body]
pub(crate) fn buffer_dimensions(img: &GrayImage) -> (d: (u32, u32))
    ensures
        d.0 == image_width(*img),
        d.1 == image_height(*img),
        d.0 * d.1 <= isize::MAX,
        forall|x: int, y: int|
            image_pixels(*img).dom().contains((x, y)) <==> (0 <= x < d.0 && 0 <= y < d.1),
{
    img.buffer.dimensions()
}

/// Trusted: `image::ImageBuffer::get_pixel`. It returns the sample stored at
/// `(x, y)` and panics when the coordinates are outside the image.
#[verifier::external_body]
pub(crate) fn sample(img: &GrayImage, x: u32, y: u32) -> (v: u8)
    requires
        x < image_width(*img),
        y < image_height(*img),
    ensures
        v == image_pixels(*img)[(x as int, y as int)],
{
    img.buffer.get_pixel(x, y).0[0]
}

/// Trusted: `image::ImageBuffer::put_pixel`. It overwrites the sample at
/// `(x, y)`, leaves every other sample and the dimensions as they were, and
/// panics when the coordinates are outside the image.
#[verifier::external_body]
pub(crate) fn store(img: &mut GrayImage, x: u32, y: u32, v: u8)
    requires
        x < image_width(*old(img)),
        y < image_height(*old(img)),
    ensures
        image_width(*final(img)) == image_width(*old(img)),
        image_height(*final(img)) == image_height(*old(img)),
        image_pixels(*final(img)) == image_pixels(*old(img)).insert((x as int, y as int), v),
{
    img.buffer.put_pixel(x, y, image::Luma([v]));
}

/// Trusted: `imageproc::integral_image::row_running_sum`. It fills the
/// buffer with the running sums of one row of the image, padded by
/// continuity at the beginning and at the end. The call panics on an image
/// without columns, on a row outside the image and on a buffer shorter than
/// the padded row; its 32-bit sums must not overflow.
#[verifier::external_body]
pub(crate) fn row_running_sum(image: &GrayImage, row: u32, buffer: &mut Vec<u32>, padding: u32)
    requires
        image_width(*image) > 0,
        row < image_height(*image),
        old(buffer)@.len() == image_width(*image) + 2 * padding,
        old(buffer)@.len() * 255 <= u32::MAX,
    ensures
        is_running_sum(final(buffer)@, image@.row(row as int), padding as int),
{
    imageproc::integral_image::row_running_sum(&image.buffer, row, buffer, padding);
}

/// Trusted: `imageproc::integral_image::column_running_sum`. It fills the
/// buffer with the running sums of one column of the image, padded by
/// continuity at the top and at the bottom. The call panics on an image
/// without rows, on a column outside the image and on a buffer shorter than
/// the padded column; its 32-bit sums must not overflow.
#[verifier::external_body]
pub(crate) fn column_running_sum(image: &GrayImage, column: u32, buffer: &mut Vec<u32>, padding: u32)
    requires
        image_height(*image) > 0,
        column < image_width(*image),
        old(buffer)@.len() == image_height(*image) + 2 * padding,
        old(buffer)@.len() * 255 <= u32::MAX,
    ensures
        is_running_sum(final(buffer)@, image@.column(column as int), padding as int),
{
    imageproc::integral_image::column_running_sum(&image.buffer, column, buffer, padding);
}

impl GrayImage {
    /// An all-zero image, or `None` when no vector can hold
    /// `width * height` samples on this machine.
    pub fn new(width: u32, height: u32) -> (res: Option<GrayImage>)
        ensures
            res is Some <==> width * height <= isize::MAX,
            res matches Some(img) ==> img@ == Raster::blank(width as nat, height as nat),
    {
        assert(width * height <= 0xFFFF_FFFF * 0xFFFF_FFFF) by (nonlinear_arith)
            requires
                0 <= width <= 0xFFFF_FFFF,
                0 <= height <= 0xFFFF_FFFF,
        ;
        let total: u64 = (width as u64) * (height as u64);
        if total <= isize::MAX as u64 {
            Some(blank_buffer(width, height))
        } else {
            None
        }
    }

    /// The width and the height, in that order.
    pub fn dimensions(&self) -> (d: (u32, u32))
        ensures
            d.0 == self@.width,
            d.1 == self@.height,
            self@.wf(),
    {
        buffer_dimensions(self)
    }

    /// The number of columns.
    pub fn width(&self) -> (w: u32)
        ensures
            w == self@.width,
    {
        buffer_dimensions(self).0
    }

    /// The number of rows.
    pub fn height(&self) -> (h: u32)
        ensures
            h == self@.height,
    {
        buffer_dimensions(self).1
    }

    /// The sample at `(x, y)`, or `None` when the coordinates are outside
    /// the image.
    pub fn get_pixel(&self, x: u32, y: u32) -> (res: Option<u8>)
        ensures
            res == if self@.contains(x as int, y as int) {
                Some(self@.at(x as int, y as int))
            } else {
                None
            },
    {
        let (width, height): (u32, u32) = buffer_dimensions(self);
        if x < width && y < height {
            Some(sample(self, x, y))
        } else {
            None
        }
    }

    /// Overwrites the sample at `(x, y)` and returns `true`; leaves the image
    /// as it is and returns `false` when the coordinates are outside it.
    pub fn put_pixel(&mut self, x: u32, y: u32, v: u8) -> (done: bool)
        ensures
            done == old(self)@.contains(x as int, y as int),
            final(self)@ == if done {
                old(self)@.put(x as int, y as int, v)
            } else {
                old(self)@
            },
    {
        let (width, height): (u32, u32) = buffer_dimensions(self);
        if x < width && y < height {
            store(self, x, y, v);
            true
        } else {
            false
        }
    }
}

} // verus!
