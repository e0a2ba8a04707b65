//! Mask normalisation: at every pixel the weights become shares of 255.
//!
//! The weight of a mask at a pixel is the first channel of the mask's pixel.
//! Normalising replaces it by `floor(255 * weight / total)`, where `total` is
//! the sum of the weights of all masks at that pixel. Where no mask has any
//! weight the total is zero and there is nothing to share out: every mask
//! keeps weight 0 at that pixel.

use crate::images::InputImages;
use crate::raster::{
    blank, fits, get_pixel, gray, image_dims, is_canvas, pixel, put_pixel, readable,
};
use image::DynamicImage;
use vstd::prelude::*;

verus! {

/// The sum of the weights that the first `n` masks give the pixel at `(x, y)`.
pub open spec fn total_weight(masks: Seq<DynamicImage>, x: int, y: int, n: nat) -> int
    decreases n,
{
    if n == 0 {
        0
    } else {
        total_weight(masks, x, y, (n - 1) as nat) + pixel(masks[n - 1], x, y).0
    }
}

/// The share of 255 that `weight` has in `total`, rounded down; 0 where the
/// total is zero.
pub open spec fn share(weight: int, total: int) -> int {
    if total > 0 {
        (255 * weight) / total
    } else {
        0
    }
}

/// The weight of mask `i` at `(x, y)` once the masks are normalised.
pub open spec fn normalized_weight(masks: Seq<DynamicImage>, i: int, x: int, y: int) -> int {
    share(pixel(masks[i], x, y).0 as int, total_weight(masks, x, y, masks.len()))
}

/// Whether a pixel is gray with the given weight in every channel.
pub open spec fn has_weight(p: (u8, u8, u8), weight: int) -> bool {
    p.0 == weight && p == gray(p.0)
}

/// Whether `after` holds the masks of `before`, normalised: as many masks of
/// the same size, each gray, with the normalised weight at each pixel.
pub open spec fn is_normalized(
    before: Seq<DynamicImage>,
    after: Seq<DynamicImage>,
    width: u32,
    height: u32,
) -> bool {
    &&& after.len() == before.len()
    &&& forall|i: int|
        0 <= i < after.len() ==> image_dims(#[trigger] after[i]) == (width, height)
    &&& forall|i: int, x: int, y: int|
        0 <= i < after.len() && 0 <= x < width && 0 <= y < height ==> has_weight(
            #[trigger] pixel(after[i], x, y),
            normalized_weight(before, i, x, y),
        )
}

/// A weight is no more than the total it is part of, and totals do not
/// decrease as masks are added.
pub proof fn lemma_total_weight_bounds(masks: Seq<DynamicImage>, x: int, y: int, i: int, n: nat)
    requires
        0 <= i < n,
    ensures
        0 <= pixel(masks[i], x, y).0 <= total_weight(masks, x, y, n) <= 255 * n,
    decreases n,
{
    if i < n - 1 {
        lemma_total_weight_bounds(masks, x, y, i, (n - 1) as nat);
    } else {
        lemma_total_weight_range(masks, x, y, (n - 1) as nat);
    }
}

/// The total of `n` weights lies between 0 and `255 * n`.
pub proof fn lemma_total_weight_range(masks: Seq<DynamicImage>, x: int, y: int, n: nat)
    ensures
        0 <= total_weight(masks, x, y, n) <= 255 * n,
    decreases n,
{
    if n > 0 {
        lemma_total_weight_range(masks, x, y, (n - 1) as nat);
    }
}

/// Where only mask `i` has any weight at a pixel, the total there is the
/// weight of mask `i`.
pub proof fn lemma_total_weight_single(masks: Seq<DynamicImage>, x: int, y: int, n: nat, i: int)
    requires
        0 <= i,
        forall|j: int| 0 <= j < n && j != i ==> pixel(#[trigger] masks[j], x, y).0 == 0,
    ensures
        total_weight(masks, x, y, n) == if i < n {
            pixel(masks[i], x, y).0 as int
        } else {
            0
        },
    decreases n,
{
    if n > 0 {
        lemma_total_weight_single(masks, x, y, (n - 1) as nat, i);
    }
}

/// The share of a weight in a total that it is part of is a weight again:
/// it lies between 0 and 255, and multiplied by the total it misses
/// `255 * weight` by less than the total.
pub proof fn lemma_share_bounds(weight: int, total: int)
    requires
        0 <= weight <= total,
    ensures
        0 <= share(weight, total) <= 255,
        total > 0 ==> total * share(weight, total) <= 255 * weight < total * share(weight, total)
            + total,
{
    if total > 0 {
        let q = (255 * weight) / total;
        vstd::arithmetic::div_mod::lemma_fundamental_div_mod(255 * weight, total);
        vstd::arithmetic::div_mod::lemma_mod_bound(255 * weight, total);
        assert(0 <= q <= 255) by (nonlinear_arith)
            requires
                0 <= weight <= total,
                total > 0,
                total * q <= 255 * weight < total * q + total,
        ;
    }
}

/// Normalised weights add up to 255, less what rounding down loses: at a
/// pixel where the `n` masks had a positive total, their normalised weights
/// sum to more than `255 - n` and to no more than 255.
pub proof fn lemma_normalized_total(
    before: Seq<DynamicImage>,
    after: Seq<DynamicImage>,
    width: u32,
    height: u32,
    x: int,
    y: int,
)
    requires
        is_normalized(before, after, width, height),
        0 <= x < width,
        0 <= y < height,
        total_weight(before, x, y, before.len()) > 0,
    ensures
        255 - before.len() < total_weight(after, x, y, after.len()) <= 255,
{
    let n = before.len();
    let total = total_weight(before, x, y, n);
    lemma_normalized_prefix(before, after, width, height, x, y, n);
    let sum = total_weight(after, x, y, n);
    assert(sum <= 255) by (nonlinear_arith)
        requires
            total > 0,
            total * sum <= 255 * total,
    ;
    assert(255 - n < sum) by (nonlinear_arith)
        requires
            total > 0,
            n >= 1,
            255 * total <= total * sum + n * (total - 1),
    ;
}

/// What the first `k` normalised weights add up to, times the total, is
/// `255` times the first `k` weights less what rounding down lost, and each
/// of them lost less than the total.
proof fn lemma_normalized_prefix(
    before: Seq<DynamicImage>,
    after: Seq<DynamicImage>,
    width: u32,
    height: u32,
    x: int,
    y: int,
    k: nat,
)
    requires
        is_normalized(before, after, width, height),
        0 <= x < width,
        0 <= y < height,
        total_weight(before, x, y, before.len()) > 0,
        k <= before.len(),
    ensures
        ({
            let total = total_weight(before, x, y, before.len());
            let sum_after = total_weight(after, x, y, k);
            let sum_before = total_weight(before, x, y, k);
            total * sum_after <= 255 * sum_before <= total * sum_after + k * (total - 1)
        }),
    decreases k,
{
    let total = total_weight(before, x, y, before.len());
    if k == 0 {
        assert(total * 0 == 0 && 0 * (total - 1) == 0) by (nonlinear_arith);
    } else {
        let j = (k - 1) as nat;
        lemma_normalized_prefix(before, after, width, height, x, y, j);
        let w = pixel(before[k - 1], x, y).0 as int;
        let q = share(w, total);
        lemma_total_weight_bounds(before, x, y, k - 1, before.len());
        lemma_share_bounds(w, total);
        let sum_after = total_weight(after, x, y, j);
        assert(total * (sum_after + q) == total * sum_after + total * q) by (nonlinear_arith);
        assert(k * (total - 1) == j * (total - 1) + (total - 1)) by (nonlinear_arith)
            requires
                k == j + 1,
        ;
    }
}

/// Computes the share of 255 that `weight` has in `total`.
pub fn weight_share(weight: u8, total: u128) -> (r: u8)
    requires
        weight <= total,
    ensures
        r == share(weight as int, total as int),
{
    if total == 0 {
        0
    } else {
        proof {
            lemma_share_bounds(weight as int, total as int);
        }
        let scaled: u128 = 255 * (weight as u128);
        let q: u128 = scaled / total;
        q as u8
    }
}

/// Adds up the weights that the masks give the pixel at `(x, y)`.
pub(crate) fn weight_total(masks: &Vec<DynamicImage>, x: u32, y: u32) -> (total: u128)
    requires
        forall|i: int|
            0 <= i < masks.len() ==> {
                &&& readable(#[trigger] masks[i])
                &&& x < image_dims(masks[i]).0
                &&& y < image_dims(masks[i]).1
            },
    ensures
        total == total_weight(masks@, x as int, y as int, masks.len() as nat),
{
    let n = masks.len();
    let mut total: u128 = 0;
    let mut i: usize = 0;
    while i < n
        invariant
            i <= n,
            n == masks.len(),
            forall|j: int|
                0 <= j < masks.len() ==> {
                    &&& readable(#[trigger] masks[j])
                    &&& x < image_dims(masks[j]).0
                    &&& y < image_dims(masks[j]).1
                },
            total == total_weight(masks@, x as int, y as int, i as nat),
            total <= 255 * i,
        decreases n - i,
    {
        let p = get_pixel(&masks[i], x, y);
        total = total + p.0 as u128;
        i += 1;
    }
    total
}

/// Makes `n` blank canvases of one size.
pub(crate) fn blank_canvases(n: usize, width: u32, height: u32) -> (canvases: Vec<DynamicImage>)
    requires
        fits(width, height),
    ensures
        canvases.len() == n,
        forall|i: int|
            0 <= i < n ==> is_canvas(#[trigger] canvases[i]) && image_dims(canvases[i]) == (
                width,
                height,
            ),
{
    let mut canvases: Vec<DynamicImage> = Vec::new();
    let mut i: usize = 0;
    while i < n
        invariant
            i <= n,
            fits(width, height),
            canvases.len() == i,
            forall|j: int|
                0 <= j < i ==> is_canvas(#[trigger] canvases[j]) && image_dims(canvases[j])
                    == (width, height),
        decreases n - i,
    {
        canvases.push(blank(width, height));
        i += 1;
    }
    canvases
}

/// Whether the pixel at `(a, b)` comes before the pixel at `(x, y)` when a
/// canvas is walked column by column.
pub open spec fn comes_before(a: int, b: int, x: int, y: int) -> bool {
    a < x || (a == x && b < y)
}

impl InputImages {
    /// Rescales the masks so that, at every pixel, each weight becomes its
    /// share of 255 in the total of all weights there. The masks come out
    /// gray. Where the total is zero, every mask gets weight 0.
    pub fn normalize_masks(&mut self)
        requires
            old(self).wf(),
        ensures
            final(self).wf(),
            final(self).images == old(self).images,
            final(self).width == old(self).width,
            final(self).height == old(self).height,
            is_normalized(old(self).masks@, final(self).masks@, old(self).width, old(self).height),
    {
        let n = self.masks.len();
        let width = self.width;
        let height = self.height;
        let mut scaled = blank_canvases(n, width, height);
        let mut x: u32 = 0;
        while x < width
            invariant
                x <= width,
                *self == *old(self),
                self.wf(),
                n == self.masks.len(),
                width == self.width,
                height == self.height,
                scaled.len() == n,
                forall|i: int|
                    0 <= i < n ==> is_canvas(#[trigger] scaled[i]) && image_dims(scaled[i]) == (
                        width,
                        height,
                    ),
                forall|i: int, a: int, b: int|
                    0 <= i < n && 0 <= a < x && 0 <= b < height ==> has_weight(
                        #[trigger] pixel(scaled[i], a, b),
                        normalized_weight(self.masks@, i, a, b),
                    ),
            decreases width - x,
        {
            let mut y: u32 = 0;
            while y < height
                invariant
                    x < width,
                    y <= height,
                    *self == *old(self),
                    self.wf(),
                    n == self.masks.len(),
                    width == self.width,
                    height == self.height,
                    scaled.len() == n,
                    forall|i: int|
                        0 <= i < n ==> is_canvas(#[trigger] scaled[i]) && image_dims(scaled[i])
                            == (width, height),
                    forall|i: int, a: int, b: int|
                        0 <= i < n && 0 <= a < width && 0 <= b < height && comes_before(
                            a,
                            b,
                            x as int,
                            y as int,
                        ) ==> has_weight(
                            #[trigger] pixel(scaled[i], a, b),
                            normalized_weight(self.masks@, i, a, b),
                        ),
                decreases height - y,
            {
                let total = weight_total(&self.masks, x, y);
                let mut i: usize = 0;
                while i < n
                    invariant
                        x < width,
                        y < height,
                        i <= n,
                        *self == *old(self),
                        self.wf(),
                        n == self.masks.len(),
                        width == self.width,
                        height == self.height,
                        scaled.len() == n,
                        total == total_weight(self.masks@, x as int, y as int, n as nat),
                        forall|j: int|
                            0 <= j < n ==> is_canvas(#[trigger] scaled[j]) && image_dims(
                                scaled[j],
                            ) == (width, height),
                        forall|j: int, a: int, b: int|
                            0 <= j < n && 0 <= a < width && 0 <= b < height && (comes_before(
                                a,
                                b,
                                x as int,
                                y as int,
                            ) || (a == x && b == y && j < i)) ==> has_weight(
                                #[trigger] pixel(scaled[j], a, b),
                                normalized_weight(self.masks@, j, a, b),
                            ),
                    decreases n - i,
                {
                    let weight = get_pixel(&self.masks[i], x, y).0;
                    proof {
                        lemma_total_weight_bounds(
                            self.masks@,
                            x as int,
                            y as int,
                            i as int,
                            n as nat,
                        );
                        lemma_share_bounds(weight as int, total as int);
                    }
                    let s = weight_share(weight, total);
                    put_pixel(&mut scaled[i], x, y, (s, s, s));
                    i += 1;
                }
                y += 1;
            }
            x += 1;
        }
        self.masks = scaled;
    }
}

} // verus!
