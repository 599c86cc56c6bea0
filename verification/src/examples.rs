//! Worked examples.
//!
//! Small populations whose statistics are easy to work out by hand, with the values
//! that the accumulators must reach on them.

use crate::algebra::lemma_div_unique;
use crate::moments::{sqrt, MomentState};
use crate::order::{mirrored, same_observations, symmetric_about};
use crate::series::{lemma_push, mean, sum_cube_dev, sum_sq_dev, total};
use crate::skewness::SkewnessState;
use vstd::prelude::*;

verus! {

/// The population `2, 4, 4, 4, 5, 5, 7, 9`.
pub open spec fn eight() -> Seq<real> {
    seq![2real, 4real, 4real, 4real, 5real, 5real, 7real, 9real]
}

proof fn lemma_squares()
    ensures
        (2real - 5real) * (2real - 5real) == 9real,
        (4real - 5real) * (4real - 5real) == 1real,
        (5real - 5real) * (5real - 5real) == 0real,
        (7real - 5real) * (7real - 5real) == 4real,
        (9real - 5real) * (9real - 5real) == 16real,
{
    assert((2real - 5real) * (2real - 5real) == 9real) by (nonlinear_arith);
    assert((4real - 5real) * (4real - 5real) == 1real) by (nonlinear_arith);
    assert((5real - 5real) * (5real - 5real) == 0real) by (nonlinear_arith);
    assert((7real - 5real) * (7real - 5real) == 4real) by (nonlinear_arith);
    assert((9real - 5real) * (9real - 5real) == 16real) by (nonlinear_arith);
}

proof fn lemma_eight_sums()
    ensures
        eight().len() == 8,
        total(eight()) == 40real,
        mean(eight()) == 5real,
        sum_sq_dev(eight(), 5real) == 32real,
{
    let e = Seq::<real>::empty();
    let c = 5real;
    let s1 = e.push(2real);
    let s2 = s1.push(4real);
    let s3 = s2.push(4real);
    let s4 = s3.push(4real);
    let s5 = s4.push(5real);
    let s6 = s5.push(5real);
    let s7 = s6.push(7real);
    let s8 = s7.push(9real);
    assert(s8 =~= eight());
    lemma_squares();
    lemma_push(e, 2real, c);
    lemma_push(s1, 4real, c);
    lemma_push(s2, 4real, c);
    lemma_push(s3, 4real, c);
    lemma_push(s4, 5real, c);
    lemma_push(s5, 5real, c);
    lemma_push(s6, 7real, c);
    lemma_push(s7, 9real, c);
    lemma_div_unique(5real, 40real, 8real);
}

/// Adding `2, 4, 4, 4, 5, 5, 7, 9` one at a time gives mean 5, population variance 4
/// and sample variance 32/7.
pub proof fn example_eight_observations()
    ensures
        MomentState::of(eight()).len() == 8,
        MomentState::of(eight()).mean() == 5real,
        MomentState::of(eight()).population_variance() == 4real,
        MomentState::of(eight()).sample_variance() == Some(32real / 7real),
{
    lemma_eight_sums();
    MomentState::lemma_one_pass_exact(eight());
    lemma_div_unique(4real, 32real, 8real);
}

/// Accumulating `2, 4, 4, 4` and `5, 5, 7, 9` separately and merging gives the same
/// mean and variances as adding all eight in one pass.
pub proof fn example_eight_observations_in_two_halves()
    ensures
        ({
            let merged = MomentState::of(seq![2real, 4real, 4real, 4real]).merge(
                MomentState::of(seq![5real, 5real, 7real, 9real]),
            );
            &&& merged.len() == 8
            &&& merged.mean() == 5real
            &&& merged.population_variance() == 4real
            &&& merged.sample_variance() == Some(32real / 7real)
        }),
{
    let a = seq![2real, 4real, 4real, 4real];
    let b = seq![5real, 5real, 7real, 9real];
    assert(a + b =~= eight());
    MomentState::lemma_merge_is_one_pass(a, b);
    example_eight_observations();
}

/// The population `-1, 0, 1` is symmetric about zero, so its mean and its skewness
/// are zero.
pub proof fn example_symmetric()
    ensures
        symmetric_about(seq![-1real, 0real, 1real], 0real),
        SkewnessState::of(seq![-1real, 0real, 1real]).mean() == 0real,
        SkewnessState::of(seq![-1real, 0real, 1real]).skewness() == 0real,
{
    let s = seq![-1real, 0real, 1real];
    assert(symmetric_about(s, 0real)) by {
        reveal(same_observations);
        assert(mirrored(s, 0real) =~= s.reverse());
        s.lemma_reverse_to_multiset();
    }
    SkewnessState::lemma_symmetric_has_no_skewness(s, 0real);
}

/// The population `1, 1, 1, 2` has mean 5/4, squared deviations summing to 3/4 and
/// cubed deviations summing to 3/8, so that its skewness is
/// `sqrt(4) * (3/8) / sqrt((3/4)^3)`.
pub proof fn example_skewed()
    ensures
        SkewnessState::of(seq![1real, 1real, 1real, 2real]).len() == 4,
        SkewnessState::of(seq![1real, 1real, 1real, 2real]).mean() == 5real / 4real,
        SkewnessState::of(seq![1real, 1real, 1real, 2real]).moments.sum_sq == 3real / 4real,
        SkewnessState::of(seq![1real, 1real, 1real, 2real]).sum_cube == 3real / 8real,
        SkewnessState::of(seq![1real, 1real, 1real, 2real]).skewness() == sqrt(4real) * (3real
            / 8real) / sqrt((3real / 4real) * (3real / 4real) * (3real / 4real)),
{
    let s = seq![1real, 1real, 1real, 2real];
    let e = Seq::<real>::empty();
    let c = 5real / 4real;
    let s1 = e.push(1real);
    let s2 = s1.push(1real);
    let s3 = s2.push(1real);
    let s4 = s3.push(2real);
    assert(s4 =~= s);
    let lo = 1real - c;
    let hi = 2real - c;
    assert(lo * lo == 1real / 16real) by (nonlinear_arith)
        requires
            lo == 0real - 1real / 4real,
    ;
    assert(lo * lo * lo == 0real - 1real / 64real) by (nonlinear_arith)
        requires
            lo == 0real - 1real / 4real,
    ;
    assert(hi * hi == 9real / 16real) by (nonlinear_arith)
        requires
            hi == 3real / 4real,
    ;
    assert(hi * hi * hi == 27real / 64real) by (nonlinear_arith)
        requires
            hi == 3real / 4real,
    ;
    lemma_push(e, 1real, c);
    lemma_push(s1, 1real, c);
    lemma_push(s2, 1real, c);
    lemma_push(s3, 2real, c);
    assert(total(s) == 5real);
    assert(mean(s) == c);
    assert(sum_sq_dev(s, c) == 3real / 4real);
    assert(sum_cube_dev(s, c) == 3real / 8real);
    SkewnessState::lemma_one_pass_exact(s);
}

} // verus!
