//! Order and symmetry of a series.
//!
//! The sums of a series depend on which observations it holds and how often, not on
//! the order in which they come. A series that mirrors onto itself has its mean at
//! the mirror and no skew.

use crate::algebra::{lemma_cube_of_neg, lemma_div_unique};
use crate::series::{lemma_sum_dev, mean, sum_cube_dev, sum_dev, sum_sq_dev, total};
use vstd::prelude::*;
use vstd::seq_lib::{
    commutative_foldl, lemma_fold_left_permutation, lemma_multiset_commutative, to_multiset_len,
};

verus! {

/// Whether two series hold the same observations, each as often as the other.
#[verifier::opaque]
pub open spec fn same_observations(s1: Seq<real>, s2: Seq<real>) -> bool {
    s1.to_multiset() == s2.to_multiset()
}

/// The series with every observation mirrored at `c`.
pub open spec fn mirrored(s: Seq<real>, c: real) -> Seq<real> {
    s.map_values(|x: real| c + (c - x))
}

/// Whether the observations lie symmetrically about `c`: mirroring them at `c`
/// gives the same observations again, in some order.
pub open spec fn symmetric_about(s: Seq<real>, c: real) -> bool {
    same_observations(s, mirrored(s, c))
}

/// The step that adds one observation to a running total.
spec fn total_step() -> spec_fn(real, real) -> real {
    |acc: real, x: real| acc + x
}

/// The step that adds one squared deviation from `c` to a running sum.
spec fn sq_step(c: real) -> spec_fn(real, real) -> real {
    |acc: real, x: real| acc + (x - c) * (x - c)
}

/// The step that adds one cubed deviation from `c` to a running sum.
spec fn cube_step(c: real) -> spec_fn(real, real) -> real {
    |acc: real, x: real| acc + (x - c) * (x - c) * (x - c)
}

proof fn lemma_sums_are_folds(s: Seq<real>, c: real)
    ensures
        total(s) == s.fold_left(0real, total_step()),
        sum_sq_dev(s, c) == s.fold_left(0real, sq_step(c)),
        sum_cube_dev(s, c) == s.fold_left(0real, cube_step(c)),
    decreases s.len(),
{
    if s.len() > 0 {
        lemma_sums_are_folds(s.drop_last(), c);
    }
}

proof fn lemma_steps_commute(c: real)
    ensures
        commutative_foldl(total_step()),
        commutative_foldl(sq_step(c)),
        commutative_foldl(cube_step(c)),
{
}

proof fn lemma_permutation_len(s1: Seq<real>, s2: Seq<real>)
    requires
        s1.to_multiset() == s2.to_multiset(),
    ensures
        s1.len() == s2.len(),
{
    to_multiset_len(s1);
    to_multiset_len(s2);
}

proof fn lemma_permutation_total(s1: Seq<real>, s2: Seq<real>)
    requires
        s1.to_multiset() == s2.to_multiset(),
    ensures
        total(s1) == total(s2),
{
    lemma_sums_are_folds(s1, 0real);
    lemma_sums_are_folds(s2, 0real);
    lemma_steps_commute(0real);
    lemma_fold_left_permutation(s1, s2, total_step(), 0real);
}

proof fn lemma_permutation_sq(s1: Seq<real>, s2: Seq<real>, c: real)
    requires
        s1.to_multiset() == s2.to_multiset(),
    ensures
        sum_sq_dev(s1, c) == sum_sq_dev(s2, c),
{
    lemma_sums_are_folds(s1, c);
    lemma_sums_are_folds(s2, c);
    lemma_steps_commute(c);
    lemma_fold_left_permutation(s1, s2, sq_step(c), 0real);
}

proof fn lemma_permutation_cube(s1: Seq<real>, s2: Seq<real>, c: real)
    requires
        s1.to_multiset() == s2.to_multiset(),
    ensures
        sum_cube_dev(s1, c) == sum_cube_dev(s2, c),
{
    lemma_sums_are_folds(s1, c);
    lemma_sums_are_folds(s2, c);
    lemma_steps_commute(c);
    lemma_fold_left_permutation(s1, s2, cube_step(c), 0real);
}

/// A series read backwards holds the same observations.
pub proof fn lemma_same_observations_reversed(s: Seq<real>)
    ensures
        same_observations(s, s.reverse()),
{
    reveal(same_observations);
    s.lemma_reverse_to_multiset();
}

/// Two parts joined in either order hold the same observations.
pub proof fn lemma_same_observations_swapped(a: Seq<real>, b: Seq<real>)
    ensures
        same_observations(a + b, b + a),
{
    reveal(same_observations);
    lemma_multiset_commutative(a, b);
    lemma_multiset_commutative(b, a);
    assert(a.to_multiset().add(b.to_multiset()) =~= b.to_multiset().add(a.to_multiset()));
}

/// The sums do not depend on the order of the observations: two series that hold
/// the same observations have the same length, total, mean and sums of powers of
/// deviations.
pub proof fn lemma_permutation(s1: Seq<real>, s2: Seq<real>, c: real)
    requires
        same_observations(s1, s2),
    ensures
        s1.len() == s2.len(),
        total(s1) == total(s2),
        mean(s1) == mean(s2),
        sum_dev(s1, c) == sum_dev(s2, c),
        sum_sq_dev(s1, c) == sum_sq_dev(s2, c),
        sum_cube_dev(s1, c) == sum_cube_dev(s2, c),
{
    assert(s1.to_multiset() == s2.to_multiset()) by {
        reveal(same_observations);
    }
    lemma_permutation_len(s1, s2);
    lemma_permutation_total(s1, s2);
    lemma_permutation_sq(s1, s2, c);
    lemma_permutation_cube(s1, s2, c);
    lemma_sum_dev(s1, c);
    lemma_sum_dev(s2, c);
}

/// Mirroring at `c` flips the sign of the odd sums about `c`.
pub proof fn lemma_mirrored(s: Seq<real>, c: real)
    ensures
        sum_dev(mirrored(s, c), c) == 0real - sum_dev(s, c),
        sum_cube_dev(mirrored(s, c), c) == 0real - sum_cube_dev(s, c),
    decreases s.len(),
{
    if s.len() > 0 {
        lemma_mirrored(s.drop_last(), c);
        assert(mirrored(s, c).drop_last() =~= mirrored(s.drop_last(), c));
        lemma_cube_of_neg(s.last() - c, mirrored(s, c).last() - c);
    }
}

/// A series that is symmetric about `c` has its mean at `c`, unless it is empty, and
/// its cubed deviations from `c` cancel.
pub proof fn lemma_symmetric(s: Seq<real>, c: real)
    requires
        symmetric_about(s, c),
    ensures
        s.len() > 0 ==> mean(s) == c,
        sum_cube_dev(s, c) == 0real,
{
    lemma_mirrored(s, c);
    lemma_permutation(s, mirrored(s, c), c);
    if s.len() > 0 {
        lemma_sum_dev(s, c);
        lemma_div_unique(c, total(s), s.len() as real);
    }
}

} // verus!
