//! Mask generation: one stripe of weight for each image.

use crate::images::InputImages;
use crate::normalize::{is_normalized, lemma_total_weight_single};
use crate::pipeline::MaskType;
use crate::raster::{
    blank, fits, gray, image_dims, is_canvas, paint_rect, pixel, readable,
};
use crate::stripes::{
    centre_distance, distance_to_centre, in_stripe, lemma_centre_distance_mirrored,
    lemma_stripe_start_monotonic, lemma_stripes_partition, stripe_bound,
};
use image::DynamicImage;
use vstd::prelude::*;

verus! {

/// The weight that a falloff table gives at distance `d`, counted in the
/// table's units: the table's entry, and 0 beyond its end.
pub open spec fn falloff_at(falloff: Seq<u8>, d: int) -> u8 {
    if 0 <= d < falloff.len() {
        falloff[d]
    } else {
        0
    }
}

/// The weight that a generated mask gives at `(x, y)`: the mask of image `i`
/// of `n`, on a canvas of `width` by `height`.
pub open spec fn mask_value(
    mask_type: MaskType,
    width: int,
    height: int,
    n: int,
    i: int,
    x: int,
    y: int,
) -> u8 {
    match mask_type {
        MaskType::VerticalFlat => if in_stripe(width, n, i, x) {
            255
        } else {
            0
        },
        MaskType::HorizontalFlat => if in_stripe(height, n, i, y) {
            255
        } else {
            0
        },
        MaskType::VerticalLogistic { falloff } => falloff_at(
            falloff@,
            centre_distance(width, n, i, x),
        ),
        MaskType::HorizontalLogistic { falloff } => falloff_at(
            falloff@,
            centre_distance(height, n, i, y),
        ),
    }
}

/// Whether `mask` is the generated mask of image `i` of `n`: it has the size
/// of the canvas and is gray, with the weight of `mask_value` at each pixel.
pub open spec fn is_generated_mask(
    mask: DynamicImage,
    mask_type: MaskType,
    width: u32,
    height: u32,
    n: int,
    i: int,
) -> bool {
    &&& image_dims(mask) == (width, height)
    &&& forall|x: int, y: int|
        0 <= x < width && 0 <= y < height ==> #[trigger] pixel(mask, x, y) == gray(
            mask_value(mask_type, width as int, height as int, n, i, x, y),
        )
}

/// Looks up the weight at distance `d` in a falloff table.
pub fn weight_at(falloff: &Vec<u8>, d: u128) -> (w: u8)
    ensures
        w == falloff_at(falloff@, d as int),
{
    if d < falloff.len() as u128 {
        falloff[d as usize]
    } else {
        0
    }
}

/// Paints the flat mask of stripe `i` of `n`: across the width if
/// `vertical`, else across the height.
pub(crate) fn flat_mask(width: u32, height: u32, n: usize, i: usize, vertical: bool) -> (mask:
    DynamicImage)
    requires
        fits(width, height),
        i < n,
    ensures
        is_canvas(mask),
        vertical ==> is_generated_mask(
            mask,
            MaskType::VerticalFlat,
            width,
            height,
            n as int,
            i as int,
        ),
        !vertical ==> is_generated_mask(
            mask,
            MaskType::HorizontalFlat,
            width,
            height,
            n as int,
            i as int,
        ),
{
    let mut canvas = blank(width, height);
    if vertical {
        let x_start = stripe_bound(width, n, i);
        let x_end = stripe_bound(width, n, i + 1);
        proof {
            lemma_stripe_start_monotonic(width as int, n as int, i as int, i + 1);
        }
        paint_rect(&mut canvas, x_start, x_end, 0, height, (255, 255, 255));
    } else {
        let y_start = stripe_bound(height, n, i);
        let y_end = stripe_bound(height, n, i + 1);
        proof {
            lemma_stripe_start_monotonic(height as int, n as int, i as int, i + 1);
        }
        paint_rect(&mut canvas, 0, width, y_start, y_end, (255, 255, 255));
    }
    canvas
}

/// Paints the mask of stripe `i` of `n` whose weight falls off with the
/// distance from the stripe's centre: the distance across the width if
/// `vertical`, else across the height.
pub(crate) fn falloff_mask(
    width: u32,
    height: u32,
    n: usize,
    i: usize,
    falloff: &Vec<u8>,
    vertical: bool,
) -> (mask: DynamicImage)
    requires
        fits(width, height),
    ensures
        is_canvas(mask),
        image_dims(mask) == (width, height),
        forall|x: int, y: int|
            0 <= x < width && 0 <= y < height ==> #[trigger] pixel(mask, x, y) == gray(
                falloff_at(
                    falloff@,
                    if vertical {
                        centre_distance(width as int, n as int, i as int, x)
                    } else {
                        centre_distance(height as int, n as int, i as int, y)
                    },
                ),
            ),
{
    let mut canvas = blank(width, height);
    if vertical {
        let mut x: u32 = 0;
        while x < width
            invariant
                x <= width,
                is_canvas(canvas),
                image_dims(canvas) == (width, height),
                forall|a: int, b: int|
                    0 <= a < x && 0 <= b < height ==> #[trigger] pixel(canvas, a, b) == gray(
                        falloff_at(falloff@, centre_distance(width as int, n as int, i as int, a)),
                    ),
            decreases width - x,
        {
            let p = weight_at(falloff, distance_to_centre(width, n, i, x));
            paint_rect(&mut canvas, x, x + 1, 0, height, (p, p, p));
            x += 1;
        }
    } else {
        let mut y: u32 = 0;
        while y < height
            invariant
                y <= height,
                is_canvas(canvas),
                image_dims(canvas) == (width, height),
                forall|a: int, b: int|
                    0 <= a < width && 0 <= b < y ==> #[trigger] pixel(canvas, a, b) == gray(
                        falloff_at(falloff@, centre_distance(height as int, n as int, i as int, b)),
                    ),
            decreases height - y,
        {
            let p = weight_at(falloff, distance_to_centre(height, n, i, y));
            paint_rect(&mut canvas, 0, width, y, y + 1, (p, p, p));
            y += 1;
        }
    }
    canvas
}

impl InputImages {
    /// Whether the masks of the set are the generated masks of `mask_type`,
    /// one for each image.
    pub open spec fn has_generated_masks(&self, mask_type: MaskType) -> bool {
        &&& self.masks.len() == self.images.len()
        &&& forall|i: int|
            0 <= i < self.masks.len() ==> is_generated_mask(
                #[trigger] self.masks[i],
                mask_type,
                self.width,
                self.height,
                self.images.len() as int,
                i,
            )
    }

    /// Replaces every mask by the generated mask of its image.
    pub fn generate_masks(&mut self, mask_type: &MaskType)
        requires
            old(self).wf(),
        ensures
            final(self).wf(),
            final(self).images == old(self).images,
            final(self).width == old(self).width,
            final(self).height == old(self).height,
            final(self).has_generated_masks(*mask_type),
    {
        let n = self.masks.len();
        let mut i: usize = 0;
        while i < n
            invariant
                i <= n,
                n == self.masks.len(),
                self.wf(),
                self.images == old(self).images,
                self.width == old(self).width,
                self.height == old(self).height,
                forall|j: int|
                    0 <= j < i ==> is_generated_mask(
                        #[trigger] self.masks[j],
                        *mask_type,
                        self.width,
                        self.height,
                        n as int,
                        j,
                    ),
            decreases n - i,
        {
            let mask = self.generate_mask(i, mask_type);
            self.masks[i] = mask;
            i += 1;
        }
    }

    /// Generates the mask of image `image_num`.
    pub fn generate_mask(&self, image_num: usize, mask_type: &MaskType) -> (mask: DynamicImage)
        requires
            fits(self.width, self.height),
            image_num < self.images.len(),
        ensures
            readable(mask),
            is_generated_mask(
                mask,
                *mask_type,
                self.width,
                self.height,
                self.images.len() as int,
                image_num as int,
            ),
    {
        let n = self.images.len();
        match mask_type {
            MaskType::VerticalFlat => flat_mask(self.width, self.height, n, image_num, true),
            MaskType::HorizontalFlat => flat_mask(self.width, self.height, n, image_num, false),
            MaskType::VerticalLogistic { falloff } => falloff_mask(
                self.width,
                self.height,
                n,
                image_num,
                falloff,
                true,
            ),
            MaskType::HorizontalLogistic { falloff } => falloff_mask(
                self.width,
                self.height,
                n,
                image_num,
                falloff,
                false,
            ),
        }
    }
}

/// With flat masks, every pixel has full weight in exactly one mask and
/// none in the others: the stripes cover the canvas without gap or overlap.
pub proof fn lemma_flat_masks_partition(set: InputImages, mask_type: MaskType, x: int, y: int)
    requires
        mask_type is VerticalFlat || mask_type is HorizontalFlat,
        set.images.len() >= 1,
        set.has_generated_masks(mask_type),
        0 <= x < set.width,
        0 <= y < set.height,
    ensures
        exists|i: int|
            0 <= i < set.masks.len() && pixel(set.masks[i], x, y) == gray(255) && forall|j: int|
                0 <= j < set.masks.len() && j != i ==> pixel(#[trigger] set.masks[j], x, y) == gray(
                    0,
                ),
{
    let n = set.images.len() as int;
    let (axis, pos) = if mask_type is VerticalFlat {
        (set.width as int, x)
    } else {
        (set.height as int, y)
    };
    lemma_stripes_partition(axis, n, pos);
    let i = choose|i: int| 0 <= i < n && in_stripe(axis, n, i, pos);
    assert(pixel(set.masks[i], x, y) == gray(255));
}

/// Normalising flat masks changes nothing: every pixel has weight 255 in
/// one mask and 0 in the others, and those are their shares of 255 already.
pub proof fn lemma_normalized_flat_masks(
    before: Seq<DynamicImage>,
    after: Seq<DynamicImage>,
    mask_type: MaskType,
    width: u32,
    height: u32,
)
    requires
        mask_type is VerticalFlat || mask_type is HorizontalFlat,
        forall|i: int|
            0 <= i < before.len() ==> is_generated_mask(
                #[trigger] before[i],
                mask_type,
                width,
                height,
                before.len() as int,
                i,
            ),
        is_normalized(before, after, width, height),
    ensures
        forall|i: int|
            0 <= i < after.len() ==> is_generated_mask(
                #[trigger] after[i],
                mask_type,
                width,
                height,
                after.len() as int,
                i,
            ),
{
    let n = before.len() as int;
    assert forall|i: int, x: int, y: int|
        0 <= i < n && 0 <= x < width && 0 <= y < height implies #[trigger] pixel(after[i], x, y)
        == gray(mask_value(mask_type, width as int, height as int, n, i, x, y)) by {
        let (axis, pos) = if mask_type is VerticalFlat {
            (width as int, x)
        } else {
            (height as int, y)
        };
        lemma_stripes_partition(axis, n, pos);
        let owner = choose|k: int| 0 <= k < n && in_stripe(axis, n, k, pos);
        lemma_total_weight_single(before, x, y, n as nat, owner);
    }
}

/// A logistic mask is symmetric about the exact centre of its stripe: two
/// columns `a` and `b` of a vertical mask that lie mirrored about the centre
/// `width * (2 * i + 1) / (2 * n)`, which is to say that
/// `(a + b) * n == width * (2 * i + 1)`, have the same weight in every row;
/// and likewise two rows of a horizontal mask.
pub proof fn lemma_logistic_mask_symmetric(
    mask: DynamicImage,
    mask_type: MaskType,
    width: u32,
    height: u32,
    n: int,
    i: int,
    a: int,
    b: int,
    along: int,
)
    requires
        mask_type is VerticalLogistic || mask_type is HorizontalLogistic,
        is_generated_mask(mask, mask_type, width, height, n, i),
        mask_type is VerticalLogistic ==> {
            &&& 0 <= a < width && 0 <= b < width && 0 <= along < height
            &&& (a + b) * n == width * (2 * i + 1)
        },
        mask_type is HorizontalLogistic ==> {
            &&& 0 <= a < height && 0 <= b < height && 0 <= along < width
            &&& (a + b) * n == height * (2 * i + 1)
        },
    ensures
        mask_type is VerticalLogistic ==> pixel(mask, a, along) == pixel(mask, b, along),
        mask_type is HorizontalLogistic ==> pixel(mask, along, a) == pixel(mask, along, b),
{
    if mask_type is VerticalLogistic {
        lemma_centre_distance_mirrored(width as int, n, i, a, b);
    } else {
        lemma_centre_distance_mirrored(height as int, n, i, a, b);
    }
}

} // verus!
