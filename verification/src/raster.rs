//! Rasters: the images of the `image` crate, seen as grids of RGB pixels.
//!
//! The verifier does not look inside a `DynamicImage`. This module names what
//! the library reads from one: its size, its pixels, whether it stores 8-bit
//! RGB, and whether it stores floating-point samples. Five small functions
//! make the library's calls into the `image` crate and state, in terms of
//! those names, what the calls do. Their contracts are taken from the
//! crate's source and are believed, not proved; everything else in the
//! library is proved from them.
//!
//! An image that stores floating-point samples is never read: a sample that
//! is not a number cannot be converted to 8 bits, and the conversion panics
//! on it. The library refuses such images where it takes images in.

use image::DynamicImage;
use vstd::prelude::*;

verus! {

/// `image::DynamicImage`, a decoded image of any colour type. The library
/// carries such images and reads them only through the functions below.
#[verifier::external_type_specification]
#[verifier::external_body]
pub struct ExDynamicImage(DynamicImage);

/// Width and height of an image, in pixels.
pub uninterp spec fn image_dims(im: DynamicImage) -> (u32, u32);

/// The colour of each pixel of an image as 8-bit red, green and blue, by the
/// pixel's coordinates `(x, y)`.
pub uninterp spec fn image_pixels(im: DynamicImage) -> Map<(int, int), (u8, u8, u8)>;

/// Whether an image stores its pixels as three 8-bit channels, so that a
/// colour written to it is read back unchanged.
pub uninterp spec fn image_is_rgb8(im: DynamicImage) -> bool;

/// Whether an image stores floating-point samples: whether it is one of the
/// variants `ImageRgb32F` and `ImageRgba32F`.
pub uninterp spec fn image_stores_floats(im: DynamicImage) -> bool;

/// Whether the pixels of an image can be read: it does not store
/// floating-point samples.
pub open spec fn readable(im: DynamicImage) -> bool {
    !image_stores_floats(im)
}

/// Whether an image is a canvas that the library paints on: it stores 8-bit
/// RGB, and so its pixels can also be read.
pub open spec fn is_canvas(im: DynamicImage) -> bool {
    image_is_rgb8(im) && readable(im)
}

/// The colour of the pixel at `(x, y)`.
pub open spec fn pixel(im: DynamicImage, x: int, y: int) -> (u8, u8, u8) {
    image_pixels(im)[(x, y)]
}

/// A gray pixel: the same value in all three channels.
pub open spec fn gray(v: u8) -> (u8, u8, u8) {
    (v, v, v)
}

/// Channel `c` of a colour: 0 is red, 1 is green, anything else is blue.
pub open spec fn channel(p: (u8, u8, u8), c: int) -> int {
    if c == 0 {
        p.0 as int
    } else if c == 1 {
        p.1 as int
    } else {
        p.2 as int
    }
}

/// Whether an RGB canvas of this size can be allocated at all: the bytes of
/// one row must be countable in a `usize`, and the bytes of all rows must not
/// number more than `isize::MAX`.
pub open spec fn fits(width: u32, height: u32) -> bool {
    3 * width <= usize::MAX && 3 * width * height <= isize::MAX
}

/// `GenericImageView::dimensions` on a `DynamicImage`: the width and height
/// of the buffer that the image holds.
#[verifier::external_body]
pub(crate) fn dimensions(im: &DynamicImage) -> (d: (u32, u32))
    ensures
        d == image_dims(*im),
{
    image::GenericImageView::dimensions(im)
}

/// Tells the variants of `DynamicImage` apart: whether the image is one of
/// the two that store floating-point samples.
#[verifier::external_body]
pub(crate) fn stores_floats(im: &DynamicImage) -> (r: bool)
    ensures
        r == image_stores_floats(*im),
{
    match im {
        DynamicImage::ImageRgb32F(_) => true,
        DynamicImage::ImageRgba32F(_) => true,
        _ => false,
    }
}

/// `GenericImageView::get_pixel` on a `DynamicImage`, followed by
/// `Pixel::to_rgb`: the pixel at `(x, y)` converted to 8-bit RGB. The call
/// panics outside the image, so the coordinates must lie inside. It also
/// panics on a floating-point sample that is not a number, so the image
/// must not store floating-point samples; 8-bit and 16-bit samples are
/// always converted.
#[verifier::external_body]
pub(crate) fn get_pixel(im: &DynamicImage, x: u32, y: u32) -> (p: (u8, u8, u8))
    requires
        !image_stores_floats(*im),
        x < image_dims(*im).0,
        y < image_dims(*im).1,
    ensures
        p == image_pixels(*im)[(x as int, y as int)],
{
    let p = image::Pixel::to_rgb(&image::GenericImageView::get_pixel(im, x, y));
    (p.0[0], p.0[1], p.0[2])
}

/// `DynamicImage::new_rgb8`: a new image of the given size that stores 8-bit
/// RGB, with every channel of every pixel zero. The call panics when
/// `3 * width`, or that times `height`, overflows a `usize`, and when the
/// buffer of `3 * width * height` bytes is larger than a vector can be.
#[verifier::external_body]
pub(crate) fn blank(width: u32, height: u32) -> (im: DynamicImage)
    requires
        fits(width, height),
    ensures
        image_dims(im) == (width, height),
        image_is_rgb8(im),
        !image_stores_floats(im),
        forall|x: int, y: int|
            0 <= x < width && 0 <= y < height ==> #[trigger] pixel(im, x, y) == (0u8, 0u8, 0u8),
{
    DynamicImage::new_rgb8(width, height)
}

/// `GenericImage::put_pixel` on a `DynamicImage` that stores 8-bit RGB, with
/// the colour handed over as an opaque `Rgba`: the pixel at `(x, y)` becomes
/// `p`, and no other pixel of the image changes, nor its size or the way it
/// stores its pixels. The call panics outside the image, so the coordinates
/// must lie inside.
#[verifier::external_body]
pub(crate) fn put_pixel(im: &mut DynamicImage, x: u32, y: u32, p: (u8, u8, u8))
    requires
        image_is_rgb8(*old(im)),
        x < image_dims(*old(im)).0,
        y < image_dims(*old(im)).1,
    ensures
        image_is_rgb8(*final(im)),
        !image_stores_floats(*final(im)),
        image_dims(*final(im)) == image_dims(*old(im)),
        forall|a: int, b: int|
            0 <= a < image_dims(*old(im)).0 && 0 <= b < image_dims(*old(im)).1
                ==> #[trigger] pixel(*final(im), a, b) == if a == x && b == y {
                p
            } else {
                pixel(*old(im), a, b)
            },
{
    let rgba = image::Pixel::to_rgba(&image::Rgb([p.0, p.1, p.2]));
    image::GenericImage::put_pixel(im, x, y, rgba)
}

/// Tells whether the pixels of an image can be read.
pub fn is_readable(im: &DynamicImage) -> (r: bool)
    ensures
        r == readable(*im),
{
    !stores_floats(im)
}

/// Tells whether two images have the same width and height.
pub fn same_size(a: &DynamicImage, b: &DynamicImage) -> (r: bool)
    ensures
        r == (image_dims(*a) == image_dims(*b)),
{
    let size_a = dimensions(a);
    let size_b = dimensions(b);
    size_a.0 == size_b.0 && size_a.1 == size_b.1
}

/// Tells whether an RGB canvas of the size of `im` can be allocated.
pub fn canvas_fits(im: &DynamicImage) -> (r: bool)
    ensures
        r == fits(image_dims(*im).0, image_dims(*im).1),
{
    let (width, height) = dimensions(im);
    assert(3 * width * height <= 3 * 0xffff_ffff * 0xffff_ffff) by (nonlinear_arith)
        requires
            0 <= width <= 0xffff_ffff,
            0 <= height <= 0xffff_ffff,
    ;
    3 * (width as u128) <= usize::MAX as u128 && 3 * (width as u128) * (height as u128)
        <= isize::MAX as u128
}

/// Whether `(x, y)` lies in the rectangle of columns `x0..x1` and rows
/// `y0..y1`.
pub open spec fn in_rect(x: int, y: int, x0: int, x1: int, y0: int, y1: int) -> bool {
    x0 <= x < x1 && y0 <= y < y1
}

/// Paints the rectangle of columns `x0..x1` and rows `y0..y1` with one
/// colour, column by column.
pub(crate) fn paint_rect(
    im: &mut DynamicImage,
    x0: u32,
    x1: u32,
    y0: u32,
    y1: u32,
    p: (u8, u8, u8),
)
    requires
        is_canvas(*old(im)),
        x0 <= x1 <= image_dims(*old(im)).0,
        y0 <= y1 <= image_dims(*old(im)).1,
    ensures
        is_canvas(*final(im)),
        image_dims(*final(im)) == image_dims(*old(im)),
        forall|x: int, y: int|
            0 <= x < image_dims(*old(im)).0 && 0 <= y < image_dims(*old(im)).1
                ==> #[trigger] pixel(*final(im), x, y) == if in_rect(
                x,
                y,
                x0 as int,
                x1 as int,
                y0 as int,
                y1 as int,
            ) {
                p
            } else {
                pixel(*old(im), x, y)
            },
{
    let ghost before = *im;
    let ghost (width, height) = image_dims(before);
    let mut x: u32 = x0;
    while x < x1
        invariant
            is_canvas(*im),
            image_dims(*im) == (width, height),
            image_dims(before) == (width, height),
            x0 <= x <= x1 <= width,
            y0 <= y1 <= height,
            forall|a: int, b: int|
                0 <= a < width && 0 <= b < height ==> #[trigger] pixel(*im, a, b) == if in_rect(
                    a,
                    b,
                    x0 as int,
                    x as int,
                    y0 as int,
                    y1 as int,
                ) {
                    p
                } else {
                    pixel(before, a, b)
                },
        decreases x1 - x,
    {
        let mut y: u32 = y0;
        while y < y1
            invariant
                is_canvas(*im),
                image_dims(*im) == (width, height),
                image_dims(before) == (width, height),
                x0 <= x < x1 <= width,
                y0 <= y <= y1 <= height,
                forall|a: int, b: int|
                    0 <= a < width && 0 <= b < height ==> #[trigger] pixel(*im, a, b) == if in_rect(
                        a,
                        b,
                        x0 as int,
                        x as int,
                        y0 as int,
                        y1 as int,
                    ) || in_rect(a, b, x as int, x + 1, y0 as int, y as int) {
                        p
                    } else {
                        pixel(before, a, b)
                    },
            decreases y1 - y,
        {
            put_pixel(im, x, y, p);
            y += 1;
        }
        x += 1;
    }
}

} // verus!
