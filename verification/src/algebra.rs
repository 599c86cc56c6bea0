//! Identities of real arithmetic, each over a handful of variables.
//!
//! The derivations in the rest of the crate are chains of these steps. Every lemma
//! here is a single polynomial identity, or a basic fact about division or sign,
//! small enough to be settled by nonlinear arithmetic at once. The module holds
//! nothing else, so that each of them is proved in an empty context.

use vstd::prelude::*;

verus! {

/// Multiplication distributes over addition, on either side.
pub proof fn lemma_mul_distributes(a: real, b: real, c: real)
    by (nonlinear_arith)
    ensures
        a * (b + c) == a * b + a * c,
        (b + c) * a == b * a + c * a,
{
}

/// Multiplication distributes over subtraction, on either side.
pub proof fn lemma_mul_distributes_sub(a: real, b: real, c: real)
    by (nonlinear_arith)
    ensures
        a * (b - c) == a * b - a * c,
        (b - c) * a == b * a - c * a,
{
}

/// Zero annihilates, one is neutral.
pub proof fn lemma_mul_zero_one(a: real)
    by (nonlinear_arith)
    ensures
        a * 0real == 0real,
        0real * a == 0real,
        a * 1real == a,
        1real * a == a,
{
}

/// A square is never negative.
pub proof fn lemma_square_nonneg(a: real)
    by (nonlinear_arith)
    ensures
        a * a >= 0real,
{
}

/// A product vanishes only if one of its factors does.
pub proof fn lemma_mul_is_zero(a: real, b: real)
    by (nonlinear_arith)
    requires
        a * b == 0real,
    ensures
        a == 0real || b == 0real,
{
}

/// The cube of the opposite number is the opposite of the cube.
pub proof fn lemma_cube_of_neg(a: real, b: real)
    by (nonlinear_arith)
    requires
        b == 0real - a,
    ensures
        b * b * b == 0real - a * a * a,
{
}

/// Dividing and multiplying by the same non-zero number cancel.
pub proof fn lemma_div_cancel(a: real, n: real)
    by (nonlinear_arith)
    requires
        n != 0real,
    ensures
        (a / n) * n == a,
{
}

/// The quotient is the only solution of `y * n == a`.
pub proof fn lemma_div_unique(y: real, a: real, n: real)
    by (nonlinear_arith)
    requires
        n != 0real,
        y * n == a,
    ensures
        y == a / n,
{
}

/// The square of a sum.
pub proof fn lemma_square_of_sum(a: real, h: real)
    by (nonlinear_arith)
    ensures
        (a + h) * (a + h) == a * a + (2real * h) * a + h * h,
{
}

/// The cube of a sum.
pub proof fn lemma_cube_of_sum(a: real, h: real)
    by (nonlinear_arith)
    ensures
        (a + h) * (a + h) * (a + h) == a * a * a + (3real * h) * (a * a) + (3real * h * h) * a + h
            * h * h,
{
}

/// One more copy of a square or of a cube.
pub proof fn lemma_one_more(n: real, h: real)
    by (nonlinear_arith)
    ensures
        (n + 1real) * h * h == n * h * h + h * h,
        (n + 1real) * h * h * h == n * h * h * h + h * h * h,
{
}

/// The growth of the spread on one update, with `e = delta / (n + 1)`: moving `n`
/// old observations by `h = -e` and adding the new deviation `y = delta - e`.
pub proof fn lemma_update_sq(delta: real, e: real, n: real, h: real, y: real)
    by (nonlinear_arith)
    requires
        delta == e * (n + 1real),
        h == 0real - e,
        y == delta - e,
    ensures
        delta * y == n * h * h + y * y,
{
}

/// The two ways of writing the growth of the spread on one update.
pub proof fn lemma_update_sq_forms(delta: real, e: real, n: real, big: real)
    by (nonlinear_arith)
    requires
        big == n + 1real,
        e * big == delta,
    ensures
        delta * (delta - e) == delta * e * (big - 1real),
{
}

/// Three times the opposite.
pub proof fn lemma_triple_of_neg(q: real, e: real, h: real)
    by (nonlinear_arith)
    requires
        h == 0real - e,
    ensures
        3real * h * q == 0real - 3real * e * q,
{
}

/// The growth of the cubed deviations on one update, with `big = n + 1` and
/// `e = delta / big`: moving `n` old observations by `h = -e` and adding the new
/// deviation `y = delta - e`.
pub proof fn lemma_update_cube(delta: real, e: real, n: real, big: real, h: real, y: real)
    by (nonlinear_arith)
    requires
        big == n + 1real,
        delta == e * big,
        h == 0real - e,
        y == delta - e,
    ensures
        n * h * h * h + y * y * y == (delta * e * (big - 1real)) * e * (big - 2real),
{
}

/// If `w` is `d` over `n`, then `w * n2` is `d * n2` over `n`.
pub proof fn lemma_merge_shift(d: real, n: real, n2: real, w: real)
    by (nonlinear_arith)
    requires
        w * n == d,
    ensures
        (w * n2) * n == d * n2,
{
}

/// The merged mean, `m1 + r`, times the merged count is the sum of the two totals.
pub proof fn lemma_merge_mean(m1: real, m2: real, n1: real, n2: real, r: real)
    by (nonlinear_arith)
    requires
        r * (n1 + n2) == (m2 - m1) * n2,
    ensures
        (m1 + r) * (n1 + n2) == m1 * n1 + m2 * n2,
{
}

/// Products of a weight `w` with the two counts, their sum and their difference.
pub proof fn lemma_merge_weights(w: real, n1: real, n2: real)
    by (nonlinear_arith)
    ensures
        n1 * (w * n2) == w * n1 * n2,
        n2 * (w * n1) == w * n1 * n2,
        w * n1 - w * n2 == w * (n1 - n2),
        w * n1 + w * n2 == w * (n1 + n2),
{
}

/// The square of the opposite number, times `n`.
pub proof fn lemma_square_of_neg(n: real, r: real, h: real)
    by (nonlinear_arith)
    requires
        h == 0real - r,
    ensures
        n * h * h == (n * r) * r,
{
}

/// The correction of the spread on a merge: `n1` observations moved by `w * n2` and
/// `n2` observations moved by `w * n1`.
pub proof fn lemma_merge_sq(n1: real, n2: real, w: real)
    by (nonlinear_arith)
    ensures
        (n1 * (w * n2)) * (w * n2) + (n2 * (w * n1)) * (w * n1) == (w * n1 * n2) * (w * (n1 + n2)),
{
}

/// The correction of the spread on a merge, as a quotient by the merged count `n`.
pub proof fn lemma_merge_sq_quotient(n1: real, n2: real, w: real, n: real, d: real)
    by (nonlinear_arith)
    requires
        d == w * n,
    ensures
        ((w * n1 * n2) * d) * n == d * d * n1 * n2,
{
}

/// Three times a weighted spread, regrouped.
pub proof fn lemma_merge_spread_right(w: real, n1: real, q2: real)
    by (nonlinear_arith)
    ensures
        3real * (w * n1) * q2 == (3real * w) * (n1 * q2),
{
}

/// Three times a weighted spread with the opposite sign, regrouped.
pub proof fn lemma_merge_spread_left(w: real, n2: real, q1: real, h1: real)
    by (nonlinear_arith)
    requires
        h1 == 0real - w * n2,
    ensures
        3real * h1 * q1 == 0real - (3real * w) * (n2 * q1),
{
}

/// The correction of the cubed deviations on a merge: `n1` observations moved by
/// `h1 = -r` and `n2` observations moved by `p`, where `n1 * r == n2 * p == g`.
pub proof fn lemma_merge_cubes(g: real, p: real, r: real, n1: real, n2: real, h1: real)
    by (nonlinear_arith)
    requires
        h1 == 0real - r,
        n1 * r == g,
        n2 * p == g,
    ensures
        n1 * h1 * h1 * h1 + n2 * p * p * p == g * (p - r) * (p + r),
{
}

/// The correction of the cubed deviations on a merge, regrouped.
pub proof fn lemma_merge_cube_factors(d: real, w: real, n1: real, n2: real, m: real)
    by (nonlinear_arith)
    ensures
        d * w * w * n1 * n2 * m == ((w * n1 * n2) * (w * m)) * d,
{
}

} // verus!
