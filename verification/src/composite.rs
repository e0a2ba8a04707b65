//! Compositing: the weighted sum of the images, pixel by pixel.
//!
//! Each channel of an output pixel is the sum, over all images, of the
//! image's channel times the same channel of its mask, divided by 255 and
//! rounded down. Masks whose weights add up to more than 255 can push the
//! quotient past 255; it is then cut off at 255.

use crate::generate::is_generated_mask;
use crate::images::{InputImage, InputImages};
use crate::pipeline::MaskType;
use crate::raster::{
    blank, channel, get_pixel, gray, image_dims, is_canvas, pixel, put_pixel,
};
use crate::stripes::{in_stripe, lemma_stripe_ends, lemma_stripes_partition};
use image::DynamicImage;
use vstd::prelude::*;

verus! {

/// The sum, over the first `n` images, of channel `c` of the image's pixel
/// at `(x, y)` times channel `c` of its mask's pixel there.
pub open spec fn weighted_sum(
    images: Seq<InputImage>,
    masks: Seq<DynamicImage>,
    x: int,
    y: int,
    c: int,
    n: nat,
) -> int
    decreases n,
{
    if n == 0 {
        0
    } else {
        weighted_sum(images, masks, x, y, c, (n - 1) as nat) + channel(
            pixel(images[n - 1].im, x, y),
            c,
        ) * channel(pixel(masks[n - 1], x, y), c)
    }
}

/// A weighted sum brought back to a channel value: divided by 255, rounded
/// down, and cut off at 255.
pub open spec fn to_channel(sum: int) -> int {
    if sum / 255 > 255 {
        255
    } else {
        sum / 255
    }
}

/// Channel `c` of the blend of all images at `(x, y)`.
pub open spec fn blended(
    images: Seq<InputImage>,
    masks: Seq<DynamicImage>,
    x: int,
    y: int,
    c: int,
) -> int {
    to_channel(weighted_sum(images, masks, x, y, c, masks.len()))
}

/// Whether a pixel has the blend of all images at `(x, y)` in each channel.
pub open spec fn is_blend(
    p: (u8, u8, u8),
    images: Seq<InputImage>,
    masks: Seq<DynamicImage>,
    x: int,
    y: int,
) -> bool {
    &&& p.0 == blended(images, masks, x, y, 0)
    &&& p.1 == blended(images, masks, x, y, 1)
    &&& p.2 == blended(images, masks, x, y, 2)
}

/// Whether `out` is the composite of the images through the masks: it has
/// the size of the canvas and holds the blend at every pixel.
pub open spec fn is_composite(
    out: DynamicImage,
    images: Seq<InputImage>,
    masks: Seq<DynamicImage>,
    width: u32,
    height: u32,
) -> bool {
    &&& image_dims(out) == (width, height)
    &&& forall|x: int, y: int|
        0 <= x < width && 0 <= y < height ==> is_blend(
            #[trigger] pixel(out, x, y),
            images,
            masks,
            x,
            y,
        )
}

/// A weighted sum of `n` terms lies between 0 and `255 * 255 * n`.
pub proof fn lemma_weighted_sum_range(
    images: Seq<InputImage>,
    masks: Seq<DynamicImage>,
    x: int,
    y: int,
    c: int,
    n: nat,
)
    ensures
        0 <= weighted_sum(images, masks, x, y, c, n) <= 65025 * n,
    decreases n,
{
    if n > 0 {
        lemma_weighted_sum_range(images, masks, x, y, c, (n - 1) as nat);
        let p = channel(pixel(images[n - 1].im, x, y), c);
        let m = channel(pixel(masks[n - 1], x, y), c);
        assert(0 <= p * m <= 65025) by (nonlinear_arith)
            requires
                0 <= p <= 255,
                0 <= m <= 255,
        ;
    }
}

/// Where only mask `i` has any weight in channel `c`, the weighted sum is
/// the one term of image `i`.
pub proof fn lemma_weighted_sum_single(
    images: Seq<InputImage>,
    masks: Seq<DynamicImage>,
    x: int,
    y: int,
    c: int,
    n: nat,
    i: int,
)
    requires
        0 <= i,
        forall|j: int| 0 <= j < n && j != i ==> channel(pixel(#[trigger] masks[j], x, y), c) == 0,
    ensures
        weighted_sum(images, masks, x, y, c, n) == if i < n {
            channel(pixel(images[i].im, x, y), c) * channel(pixel(masks[i], x, y), c)
        } else {
            0
        },
    decreases n,
{
    if n > 0 {
        lemma_weighted_sum_single(images, masks, x, y, c, (n - 1) as nat, i);
        if i != n - 1 {
            let p = channel(pixel(images[n - 1].im, x, y), c);
            assert(p * 0 == 0) by (nonlinear_arith);
        }
    }
}

/// Where one mask has full weight and all others none, the blend is the
/// pixel of that mask's image.
pub proof fn lemma_blend_full_weight(
    images: Seq<InputImage>,
    masks: Seq<DynamicImage>,
    x: int,
    y: int,
    i: int,
    p: (u8, u8, u8),
)
    requires
        0 <= i < masks.len(),
        pixel(masks[i], x, y) == gray(255),
        forall|j: int|
            0 <= j < masks.len() && j != i ==> pixel(#[trigger] masks[j], x, y) == gray(0),
        is_blend(p, images, masks, x, y),
    ensures
        p == pixel(images[i].im, x, y),
{
    let n = masks.len();
    assert forall|c: int| 0 <= c < 3 implies blended(images, masks, x, y, c) == channel(
        pixel(images[i].im, x, y),
        c,
    ) by {
        lemma_weighted_sum_single(images, masks, x, y, c, n, i);
        let v = channel(pixel(images[i].im, x, y), c);
        assert((v * 255) / 255 == v) by (nonlinear_arith)
            requires
                0 <= v <= 255,
        ;
    }
}

/// Compositing one image through a mask that is 255 everywhere gives that
/// image back, pixel for pixel.
pub proof fn lemma_single_image_full_mask(set: InputImages, out: DynamicImage)
    requires
        set.wf(),
        set.images.len() == 1,
        forall|x: int, y: int|
            0 <= x < set.width && 0 <= y < set.height ==> #[trigger] pixel(set.masks[0], x, y)
                == gray(255),
        is_composite(out, set.images@, set.masks@, set.width, set.height),
    ensures
        image_dims(out) == image_dims(set.images[0].im),
        forall|x: int, y: int|
            0 <= x < set.width && 0 <= y < set.height ==> #[trigger] pixel(out, x, y) == pixel(
                set.images[0].im,
                x,
                y,
            ),
{
    assert forall|x: int, y: int|
        0 <= x < set.width && 0 <= y < set.height implies #[trigger] pixel(out, x, y) == pixel(
        set.images[0].im,
        x,
        y,
    ) by {
        lemma_blend_full_weight(set.images@, set.masks@, x, y, 0, pixel(out, x, y));
    }
}

/// Compositing through flat masks cuts the images into stripes: each pixel
/// of the composite is the pixel of the image whose stripe it lies in.
pub proof fn lemma_flat_composite(
    set: InputImages,
    mask_type: MaskType,
    out: DynamicImage,
    x: int,
    y: int,
    i: int,
)
    requires
        mask_type is VerticalFlat || mask_type is HorizontalFlat,
        set.has_generated_masks(mask_type),
        is_composite(out, set.images@, set.masks@, set.width, set.height),
        0 <= x < set.width,
        0 <= y < set.height,
        0 <= i < set.images.len(),
        mask_type is VerticalFlat ==> in_stripe(set.width as int, set.images.len() as int, i, x),
        mask_type is HorizontalFlat ==> in_stripe(set.height as int, set.images.len() as int, i, y),
    ensures
        pixel(out, x, y) == pixel(set.images[i].im, x, y),
{
    let n = set.images.len() as int;
    let (axis, pos) = if mask_type is VerticalFlat {
        (set.width as int, x)
    } else {
        (set.height as int, y)
    };
    lemma_stripes_partition(axis, n, pos);
    lemma_blend_full_weight(set.images@, set.masks@, x, y, i, pixel(out, x, y));
}

/// Compositing two images through vertical flat masks puts them side by
/// side: left of column `floor(width / 2)` the composite is the first
/// image, from that column on it is the second.
pub proof fn lemma_two_vertical_stripes(set: InputImages, out: DynamicImage)
    requires
        set.images.len() == 2,
        set.has_generated_masks(MaskType::VerticalFlat),
        is_composite(out, set.images@, set.masks@, set.width, set.height),
    ensures
        forall|x: int, y: int|
            0 <= x < set.width && 0 <= y < set.height ==> #[trigger] pixel(out, x, y) == if x
                < set.width / 2 {
                pixel(set.images[0].im, x, y)
            } else {
                pixel(set.images[1].im, x, y)
            },
{
    let w = set.width as int;
    lemma_stripe_ends(w, 2);
    assert forall|x: int, y: int|
        0 <= x < set.width && 0 <= y < set.height implies #[trigger] pixel(out, x, y) == if x
        < set.width / 2 {
        pixel(set.images[0].im, x, y)
    } else {
        pixel(set.images[1].im, x, y)
    } by {
        if x < w / 2 {
            lemma_flat_composite(set, MaskType::VerticalFlat, out, x, y, 0);
        } else {
            lemma_flat_composite(set, MaskType::VerticalFlat, out, x, y, 1);
        }
    }
}

/// Brings a weighted sum back to a channel value.
pub fn channel_of_sum(sum: u128) -> (r: u8)
    ensures
        r == to_channel(sum as int),
{
    let q: u128 = sum / 255;
    if q > 255 {
        255
    } else {
        q as u8
    }
}

impl InputImages {
    /// Blends the images through their masks into one image of the same
    /// size.
    pub fn composite(&self) -> (out: DynamicImage)
        requires
            self.wf(),
        ensures
            is_composite(out, self.images@, self.masks@, self.width, self.height),
    {
        let n = self.masks.len();
        let width = self.width;
        let height = self.height;
        let ghost images = self.images@;
        let ghost masks = self.masks@;
        let mut canvas = blank(width, height);
        let mut x: u32 = 0;
        while x < width
            invariant
                x <= width,
                self.wf(),
                images == self.images@,
                masks == self.masks@,
                n == self.masks.len(),
                width == self.width,
                height == self.height,
                is_canvas(canvas),
                image_dims(canvas) == (width, height),
                forall|a: int, b: int|
                    0 <= a < x && 0 <= b < height ==> is_blend(
                        #[trigger] pixel(canvas, a, b),
                        images,
                        masks,
                        a,
                        b,
                    ),
            decreases width - x,
        {
            let mut y: u32 = 0;
            while y < height
                invariant
                    x < width,
                    y <= height,
                    self.wf(),
                    images == self.images@,
                    masks == self.masks@,
                    n == self.masks.len(),
                    width == self.width,
                    height == self.height,
                    is_canvas(canvas),
                    image_dims(canvas) == (width, height),
                    forall|a: int, b: int|
                        0 <= a < width && 0 <= b < height && (a < x || (a == x && b < y))
                            ==> is_blend(#[trigger] pixel(canvas, a, b), images, masks, a, b),
                decreases height - y,
            {
                let mut r_out: u128 = 0;
                let mut g_out: u128 = 0;
                let mut b_out: u128 = 0;
                let mut i: usize = 0;
                while i < n
                    invariant
                        x < width,
                        y < height,
                        i <= n,
                        self.wf(),
                        images == self.images@,
                        masks == self.masks@,
                        n == self.masks.len(),
                        width == self.width,
                        height == self.height,
                        r_out == weighted_sum(images, masks, x as int, y as int, 0, i as nat),
                        g_out == weighted_sum(images, masks, x as int, y as int, 1, i as nat),
                        b_out == weighted_sum(images, masks, x as int, y as int, 2, i as nat),
                    decreases n - i,
                {
                    // The image's pixel and its mask's pixel
                    let p = get_pixel(&self.images[i].im, x, y);
                    let pm = get_pixel(&self.masks[i], x, y);
                    proof {
                        lemma_weighted_sum_range(images, masks, x as int, y as int, 0, i as nat);
                        lemma_weighted_sum_range(images, masks, x as int, y as int, 1, i as nat);
                        lemma_weighted_sum_range(images, masks, x as int, y as int, 2, i as nat);
                        assert(p.0 * pm.0 <= 65025 && p.1 * pm.1 <= 65025 && p.2 * pm.2 <= 65025)
                            by (nonlinear_arith)
                            requires
                                p.0 <= 255 && pm.0 <= 255 && p.1 <= 255 && pm.1 <= 255 && p.2 <= 255
                                    && pm.2 <= 255,
                        ;
                    }
                    r_out = r_out + (p.0 as u128) * (pm.0 as u128);
                    g_out = g_out + (p.1 as u128) * (pm.1 as u128);
                    b_out = b_out + (p.2 as u128) * (pm.2 as u128);
                    i += 1;
                }
                let r = channel_of_sum(r_out);
                let g = channel_of_sum(g_out);
                let b = channel_of_sum(b_out);
                put_pixel(&mut canvas, x, y, (r, g, b));
                y += 1;
            }
            x += 1;
        }
        canvas
    }
}

} // verus!
