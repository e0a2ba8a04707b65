//! Stripe geometry: how an axis of pixels is cut into `n` stripes.
//!
//! Stripe `i` of `n` along an axis of `axis` pixels runs from
//! `floor(axis * i / n)` up to, not including, `floor(axis * (i + 1) / n)`.
//! The bounds are those of stripes of the exact fractional width `axis / n`,
//! rounded down, so no remainder builds up and the last stripe ends where
//! the axis ends.

use vstd::prelude::*;

verus! {

/// Where stripe `i` of `n` starts: `floor(axis * i / n)`.
pub open spec fn stripe_start(axis: int, n: int, i: int) -> int {
    (axis * i) / n
}

/// Whether position `pos` lies in stripe `i` of `n`.
pub open spec fn in_stripe(axis: int, n: int, i: int, pos: int) -> bool {
    stripe_start(axis, n, i) <= pos < stripe_start(axis, n, i + 1)
}

/// The distance from position `pos` to the centre of stripe `i` of `n`, in
/// units of `1 / (2 * n)` of a pixel.
///
/// The centre lies at the start of the stripe plus half the fractional
/// stripe width, at `axis * (2 * i + 1) / (2 * n)`, which need not be a
/// whole position. Counted in units of `1 / (2 * n)` the distance to it is
/// the whole number `|2 * n * pos - axis * (2 * i + 1)|`.
pub open spec fn centre_distance(axis: int, n: int, i: int, pos: int) -> int {
    let offset = 2 * n * pos - axis * (2 * i + 1);
    if offset >= 0 {
        offset
    } else {
        -offset
    }
}

/// Stripe starts do not decrease with the stripe's number.
pub proof fn lemma_stripe_start_monotonic(axis: int, n: int, i: int, j: int)
    requires
        axis >= 0,
        n >= 1,
        i <= j,
    ensures
        stripe_start(axis, n, i) <= stripe_start(axis, n, j),
{
    assert(axis * i <= axis * j) by (nonlinear_arith)
        requires
            axis >= 0,
            i <= j,
    ;
    vstd::arithmetic::div_mod::lemma_div_is_ordered(axis * i, axis * j, n);
}

/// The first stripe starts at 0 and the stripe after the last would start at
/// the end of the axis.
pub proof fn lemma_stripe_ends(axis: int, n: int)
    requires
        n >= 1,
    ensures
        stripe_start(axis, n, 0) == 0,
        stripe_start(axis, n, n) == axis,
{
    assert(axis * 0 == 0) by (nonlinear_arith);
    vstd::arithmetic::div_mod::lemma_div_multiples_vanish(axis, n);
    assert(axis * n == n * axis) by (nonlinear_arith);
}

proof fn lemma_find_stripe(axis: int, n: int, pos: int, k: int) -> (i: int)
    requires
        n >= 1,
        0 <= pos < axis,
        0 <= k < n,
        stripe_start(axis, n, k) <= pos,
    ensures
        k <= i < n,
        in_stripe(axis, n, i, pos),
    decreases n - k,
{
    if pos < stripe_start(axis, n, k + 1) {
        k
    } else {
        if k + 1 == n {
            lemma_stripe_ends(axis, n);
        }
        lemma_find_stripe(axis, n, pos, k + 1)
    }
}

/// The stripes partition the axis: every position lies in exactly one of
/// the `n` stripes, so the stripes neither overlap nor leave a gap.
pub proof fn lemma_stripes_partition(axis: int, n: int, pos: int)
    requires
        n >= 1,
        0 <= pos < axis,
    ensures
        exists|i: int| 0 <= i < n && in_stripe(axis, n, i, pos),
        forall|i: int, j: int|
            0 <= i < n && 0 <= j < n && in_stripe(axis, n, i, pos) && in_stripe(axis, n, j, pos)
                ==> i == j,
{
    lemma_stripe_ends(axis, n);
    let k = lemma_find_stripe(axis, n, pos, 0);
    assert forall|i: int, j: int|
        0 <= i < n && 0 <= j < n && in_stripe(axis, n, i, pos) && in_stripe(
            axis,
            n,
            j,
            pos,
        ) implies i == j by {
        if i < j {
            lemma_stripe_start_monotonic(axis, n, i + 1, j);
        } else if j < i {
            lemma_stripe_start_monotonic(axis, n, j + 1, i);
        }
    }
}

/// Two positions that lie mirrored about the centre of a stripe are equally
/// far from it.
pub proof fn lemma_centre_distance_mirrored(axis: int, n: int, i: int, a: int, b: int)
    requires
        (a + b) * n == axis * (2 * i + 1),
    ensures
        centre_distance(axis, n, i, a) == centre_distance(axis, n, i, b),
{
    let centre = axis * (2 * i + 1);
    assert(2 * n * a - centre == -(2 * n * b - centre)) by (nonlinear_arith)
        requires
            (a + b) * n == centre,
    ;
}

/// Computes where stripe `i` of `n` starts; with `i == n`, where the last
/// stripe ends.
pub fn stripe_bound(axis: u32, n: usize, i: usize) -> (r: u32)
    requires
        n >= 1,
        i <= n,
    ensures
        r == stripe_start(axis as int, n as int, i as int),
        r <= axis,
{
    proof {
        lemma_stripe_start_monotonic(axis as int, n as int, i as int, n as int);
        lemma_stripe_start_monotonic(axis as int, n as int, 0, i as int);
        lemma_stripe_ends(axis as int, n as int);
        assert(0 <= axis * i <= 0xffff_ffff * 0xffff_ffff_ffff_ffff) by (nonlinear_arith)
            requires
                0 <= axis <= 0xffff_ffff,
                0 <= i <= 0xffff_ffff_ffff_ffff,
        ;
    }
    let scaled: u128 = (axis as u128) * (i as u128);
    let r: u128 = scaled / (n as u128);
    r as u32
}

/// Computes the distance from position `pos` to the centre of stripe `i` of
/// `n`, in units of `1 / (2 * n)` of a pixel.
pub fn distance_to_centre(axis: u32, n: usize, i: usize, pos: u32) -> (d: u128)
    ensures
        d == centre_distance(axis as int, n as int, i as int, pos as int),
{
    assert(0 <= 2 * n * pos <= 2 * 0xffff_ffff_ffff_ffff * 0xffff_ffff) by (nonlinear_arith)
        requires
            0 <= n <= 0xffff_ffff_ffff_ffff,
            0 <= pos <= 0xffff_ffff,
    ;
    assert(0 <= axis * (2 * i + 1) <= 0xffff_ffff * 0x2_0000_0000_0000_0000) by (nonlinear_arith)
        requires
            0 <= axis <= 0xffff_ffff,
            0 <= i <= 0xffff_ffff_ffff_ffff,
    ;
    let doubled: u128 = 2 * (n as u128);
    let at: u128 = doubled * (pos as u128);
    let odd: u128 = 2 * (i as u128) + 1;
    let centre: u128 = (axis as u128) * odd;
    if at >= centre {
        at - centre
    } else {
        centre - at
    }
}

} // verus!
