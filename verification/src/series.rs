//! Sums over a finite series of real observations.
//!
//! These are the textbook quantities that a one-pass accumulator is meant to track:
//! the total, the mean, and the sums of first, second and third powers of the
//! deviations from a centre.

use crate::algebra::{
    lemma_cube_of_sum, lemma_div_cancel, lemma_mul_distributes, lemma_mul_is_zero,
    lemma_mul_zero_one, lemma_one_more, lemma_square_nonneg, lemma_square_of_sum,
};
use vstd::prelude::*;

verus! {

/// Sum of all observations.
pub open spec fn total(s: Seq<real>) -> real
    decreases s.len(),
{
    if s.len() == 0 {
        0real
    } else {
        total(s.drop_last()) + s.last()
    }
}

/// Arithmetic mean; `0` for the empty series by convention.
pub open spec fn mean(s: Seq<real>) -> real {
    if s.len() == 0 {
        0real
    } else {
        total(s) / (s.len() as real)
    }
}

/// Sum of the deviations from `c`.
pub open spec fn sum_dev(s: Seq<real>, c: real) -> real
    decreases s.len(),
{
    if s.len() == 0 {
        0real
    } else {
        sum_dev(s.drop_last(), c) + (s.last() - c)
    }
}

/// Sum of the squared deviations from `c`.
pub open spec fn sum_sq_dev(s: Seq<real>, c: real) -> real
    decreases s.len(),
{
    if s.len() == 0 {
        0real
    } else {
        sum_sq_dev(s.drop_last(), c) + (s.last() - c) * (s.last() - c)
    }
}

/// Sum of the cubed deviations from `c`.
pub open spec fn sum_cube_dev(s: Seq<real>, c: real) -> real
    decreases s.len(),
{
    if s.len() == 0 {
        0real
    } else {
        sum_cube_dev(s.drop_last(), c) + (s.last() - c) * (s.last() - c) * (s.last() - c)
    }
}

/// Every sum over a concatenation is the sum of the sums over its parts.
pub proof fn lemma_concat(a: Seq<real>, b: Seq<real>, c: real)
    ensures
        total(a + b) == total(a) + total(b),
        sum_dev(a + b, c) == sum_dev(a, c) + sum_dev(b, c),
        sum_sq_dev(a + b, c) == sum_sq_dev(a, c) + sum_sq_dev(b, c),
        sum_cube_dev(a + b, c) == sum_cube_dev(a, c) + sum_cube_dev(b, c),
    decreases b.len(),
{
    if b.len() == 0 {
        assert(a + b =~= a);
    } else {
        lemma_concat(a, b.drop_last(), c);
        assert((a + b).drop_last() =~= a + b.drop_last());
        assert((a + b).last() == b.last());
    }
}

/// Appending one observation adds its own term to every sum.
pub proof fn lemma_push(s: Seq<real>, x: real, c: real)
    ensures
        total(s.push(x)) == total(s) + x,
        sum_dev(s.push(x), c) == sum_dev(s, c) + (x - c),
        sum_sq_dev(s.push(x), c) == sum_sq_dev(s, c) + (x - c) * (x - c),
        sum_cube_dev(s.push(x), c) == sum_cube_dev(s, c) + (x - c) * (x - c) * (x - c),
{
    assert(s.push(x).drop_last() =~= s);
    assert(s.push(x).last() == x);
}

/// The deviations from `c` sum to the total less `c` once per observation.
pub proof fn lemma_sum_dev(s: Seq<real>, c: real)
    ensures
        sum_dev(s, c) == total(s) - (s.len() as real) * c,
    decreases s.len(),
{
    if s.len() == 0 {
        lemma_mul_zero_one(c);
    } else {
        lemma_sum_dev(s.drop_last(), c);
        lemma_mul_distributes(c, s.drop_last().len() as real, 1real);
        lemma_mul_zero_one(c);
    }
}

/// The mean is the centre about which the deviations cancel.
pub proof fn lemma_mean_centres(s: Seq<real>)
    ensures
        mean(s) * (s.len() as real) == total(s),
        sum_dev(s, mean(s)) == 0real,
    decreases s.len(),
{
    lemma_sum_dev(s, mean(s));
    if s.len() == 0 {
        lemma_mul_zero_one(mean(s));
    } else {
        lemma_div_cancel(total(s), s.len() as real);
    }
}

/// One more term of a sum of squares about a centre moved by `h`: `q` and `u` are
/// the sums of squares and of first powers so far, over `n` terms, and `a` is the new
/// deviation from the old centre.
proof fn lemma_recentre_sq_step(q: real, u: real, n: real, a: real, h: real)
    ensures
        (q + 2real * h * u + n * h * h) + (a + h) * (a + h) == (q + a * a) + 2real * h * (u + a)
            + (n + 1real) * h * h,
{
    lemma_square_of_sum(a, h);
    lemma_one_more(n, h);
    lemma_mul_distributes(2real * h, u, a);
}

/// One more term of a sum of cubes about a centre moved by `h`: `k`, `q` and `u` are
/// the sums of cubes, of squares and of first powers so far, over `n` terms, and `a`
/// is the new deviation from the old centre.
proof fn lemma_recentre_cube_step(k: real, q: real, u: real, n: real, a: real, h: real)
    ensures
        (k + 3real * h * q + 3real * h * h * u + n * h * h * h) + (a + h) * (a + h) * (a + h) == (k
            + a * a * a) + 3real * h * (q + a * a) + 3real * h * h * (u + a) + (n + 1real) * h * h
            * h,
{
    lemma_cube_of_sum(a, h);
    lemma_one_more(n, h);
    lemma_mul_distributes(3real * h, q, a * a);
    lemma_mul_distributes(3real * h * h, u, a);
}

/// Moving the centre from `c` to `d` changes the sum of squared deviations by terms
/// in the lower sums about `c`.
pub proof fn lemma_recentre_sq(s: Seq<real>, c: real, d: real)
    ensures
        sum_sq_dev(s, d) == sum_sq_dev(s, c) + 2real * (c - d) * sum_dev(s, c) + (s.len() as real)
            * (c - d) * (c - d),
    decreases s.len(),
{
    let h = c - d;
    if s.len() == 0 {
        lemma_mul_zero_one(2real * h);
        lemma_mul_zero_one(h);
        lemma_mul_zero_one(h * h);
        assert(0real * h * h == 0real);
    } else {
        let p = s.drop_last();
        let a = s.last() - c;
        lemma_recentre_sq(p, c, d);
        lemma_recentre_sq_step(sum_sq_dev(p, c), sum_dev(p, c), p.len() as real, a, h);
        assert(s.last() - d == a + h);
    }
}

/// Moving the centre from `c` to `d` changes the sum of cubed deviations by terms in
/// the lower sums about `c`.
pub proof fn lemma_recentre_cube(s: Seq<real>, c: real, d: real)
    ensures
        sum_cube_dev(s, d) == sum_cube_dev(s, c) + 3real * (c - d) * sum_sq_dev(s, c) + 3real * (c
            - d) * (c - d) * sum_dev(s, c) + (s.len() as real) * (c - d) * (c - d) * (c - d),
    decreases s.len(),
{
    let h = c - d;
    if s.len() == 0 {
        lemma_mul_zero_one(3real * h);
        lemma_mul_zero_one(3real * h * h);
        lemma_mul_zero_one(h);
        lemma_mul_zero_one(h * h);
        assert(0real * h * h * h == 0real);
    } else {
        let p = s.drop_last();
        let a = s.last() - c;
        lemma_recentre_cube(p, c, d);
        lemma_recentre_cube_step(
            sum_cube_dev(p, c),
            sum_sq_dev(p, c),
            sum_dev(p, c),
            p.len() as real,
            a,
            h,
        );
        assert(s.last() - d == a + h);
    }
}

/// A sum of squares is never negative.
pub proof fn lemma_sum_sq_dev_nonneg(s: Seq<real>, c: real)
    ensures
        sum_sq_dev(s, c) >= 0real,
    decreases s.len(),
{
    if s.len() > 0 {
        lemma_sum_sq_dev_nonneg(s.drop_last(), c);
        lemma_square_nonneg(s.last() - c);
    }
}

/// If the squared deviations sum to zero, every observation sits at the centre, and
/// the cubed deviations sum to zero as well.
pub proof fn lemma_no_spread_no_skew(s: Seq<real>, c: real)
    requires
        sum_sq_dev(s, c) == 0real,
    ensures
        sum_cube_dev(s, c) == 0real,
    decreases s.len(),
{
    if s.len() > 0 {
        let a = s.last() - c;
        lemma_sum_sq_dev_nonneg(s.drop_last(), c);
        lemma_square_nonneg(a);
        lemma_mul_is_zero(a, a);
        lemma_no_spread_no_skew(s.drop_last(), c);
        lemma_mul_zero_one(a);
    }
}

} // verus!
