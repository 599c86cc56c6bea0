//! The mean, variance and skewness accumulator as a mathematical object.
//!
//! A [`SkewnessState`] owns a [`MomentState`] and adds the running sum of cubed
//! deviations from the mean. Its update rules read the owned state as it was before
//! the update and only then update it.

use crate::algebra::{
    lemma_div_cancel, lemma_merge_cube_factors, lemma_merge_cubes, lemma_merge_spread_left,
    lemma_merge_spread_right, lemma_merge_weights, lemma_mul_distributes_sub,
    lemma_mul_zero_one, lemma_triple_of_neg, lemma_update_cube,
};
use crate::moments::{lemma_merge_offsets, sqrt, MomentState};
use crate::order::{lemma_permutation, lemma_symmetric, same_observations, symmetric_about};
use crate::series::{
    lemma_concat, lemma_mean_centres, lemma_no_spread_no_skew, lemma_push,
    lemma_recentre_cube, mean, sum_cube_dev, sum_sq_dev, total,
};
use vstd::prelude::*;

verus! {

/// Running mean and variance, with the running sum of cubed deviations from the mean.
pub struct SkewnessState {
    /// Count, mean and sum of squared deviations.
    pub moments: MomentState,
    /// Running sum of cubed deviations from the running mean.
    pub sum_cube: real,
}

impl SkewnessState {
    /// The state before any observation: count zero, and every sum at zero.
    pub open spec fn new() -> Self {
        SkewnessState { moments: MomentState::new(), sum_cube: 0real }
    }

    /// The state after one more observation `x`.
    ///
    /// With `n` the count after the increment, `delta = x - mean` and
    /// `delta_n = delta / n`, the cubed deviations change by
    /// `term * delta_n * (n - 2) - 3 * delta_n * sum_sq`, where
    /// `term = delta * delta_n * (n - 1)` and `sum_sq` is the spread before `x` is
    /// folded into it. The owned state is updated by its own rule.
    pub open spec fn add(self, x: real) -> Self {
        let n = (self.moments.count + 1) as real;
        let delta = x - self.moments.mean;
        let delta_n = delta / n;
        let term = delta * delta_n * (n - 1real);
        SkewnessState {
            moments: self.moments.add(x),
            sum_cube: self.sum_cube + (term * delta_n * (n - 2real) - 3real * delta_n
                * self.moments.sum_sq),
        }
    }

    /// The state that stands for the observations of `self` and `other` together.
    ///
    /// With `n1`, `n2` the two counts, `n` their sum, `delta` the difference of the
    /// means and `delta_n = delta / n`, the cubed deviations add up with the
    /// corrections `delta * delta_n * delta_n * n1 * n2 * (n1 - n2)` and
    /// `3 * delta_n * (n1 * sum_sq2 - n2 * sum_sq1)`, both taken over the spreads as
    /// they were before the merge. The owned states are merged by their own rule.
    /// Where both states are empty the rule divides zero by zero, and nothing is said
    /// of the result.
    pub open spec fn merge(self, other: Self) -> Self {
        let n1 = self.moments.count as real;
        let n2 = other.moments.count as real;
        let n = n1 + n2;
        let delta = other.moments.mean - self.moments.mean;
        let delta_n = delta / n;
        SkewnessState {
            moments: self.moments.merge(other.moments),
            sum_cube: self.sum_cube + other.sum_cube + delta * delta_n * delta_n * n1 * n2 * (n1
                - n2) + 3real * delta_n * (n1 * other.moments.sum_sq - n2 * self.moments.sum_sq),
        }
    }

    /// The state reached by adding the observations of `s` one at a time, in order.
    pub open spec fn of(s: Seq<real>) -> Self
        decreases s.len(),
    {
        if s.len() == 0 {
            Self::new()
        } else {
            Self::of(s.drop_last()).add(s.last())
        }
    }

    /// The state written down from the definitions: the exact mean and variance
    /// state, and the cubed deviations from the mean.
    pub open spec fn exact(s: Seq<real>) -> Self {
        SkewnessState { moments: MomentState::exact(s), sum_cube: sum_cube_dev(s, mean(s)) }
    }

    /// Number of observations.
    pub open spec fn len(self) -> nat {
        self.moments.len()
    }

    /// Whether no observation has been folded in.
    pub open spec fn is_empty(self) -> bool {
        self.moments.is_empty()
    }

    /// Estimate of the population mean.
    pub open spec fn mean(self) -> real {
        self.moments.mean()
    }

    /// Biased variance estimate; `0` for an empty state.
    pub open spec fn population_variance(self) -> real {
        self.moments.population_variance()
    }

    /// Unbiased variance estimate; `None` with fewer than two observations.
    pub open spec fn sample_variance(self) -> Option<real> {
        self.moments.sample_variance()
    }

    /// Standard error of the mean; `None` with fewer than two observations.
    pub open spec fn error_mean(self) -> Option<real> {
        self.moments.error()
    }

    /// Estimate of the skewness, `sqrt(count) * sum_cube / sqrt(sum_sq^3)`; `0`
    /// whenever the cubed deviations sum to zero, whatever the spread.
    pub open spec fn skewness(self) -> real {
        if self.sum_cube == 0real {
            0real
        } else {
            let sum_sq = self.moments.sum_sq;
            sqrt(self.moments.count as real) * self.sum_cube / sqrt(sum_sq * sum_sq * sum_sq)
        }
    }

    /// A state is empty exactly when its length is zero. An update adds one to the
    /// length and a merge adds the two lengths, so neither makes a state empty that
    /// was not.
    pub proof fn lemma_lengths(self, other: Self, x: real)
        ensures
            self.is_empty() <==> self.len() == 0,
            Self::new().is_empty(),
            self.add(x).len() == self.len() + 1,
            !self.add(x).is_empty(),
            self.merge(other).len() == self.len() + other.len(),
            !self.is_empty() ==> !self.merge(other).is_empty(),
            !other.is_empty() ==> !self.merge(other).is_empty(),
    {
    }

    /// The empty state is the exact state of the empty series; its mean and its
    /// skewness are zero.
    pub proof fn lemma_new_exact()
        ensures
            Self::new() == Self::exact(Seq::<real>::empty()),
            Self::new().mean() == 0real,
            Self::new().skewness() == 0real,
    {
    }

    /// What holds of the exact state of any series: it is empty exactly for the
    /// empty series, and then all its sums are zero; and the cubed deviations can
    /// only be non-zero where the spread is positive, so that a state with cubed
    /// deviations but no spread is never reached.
    pub proof fn lemma_exact_invariants(s: Seq<real>)
        ensures
            Self::exact(s).len() == s.len(),
            Self::exact(s).is_empty() <==> s.len() == 0,
            s.len() == 0 ==> Self::exact(s).mean() == 0real && Self::exact(s).sum_cube == 0real,
            Self::exact(s).moments.sum_sq >= 0real,
            Self::exact(s).sum_cube != 0real ==> Self::exact(s).moments.sum_sq > 0real,
    {
        MomentState::lemma_exact_invariants(s);
        if sum_sq_dev(s, mean(s)) == 0real {
            lemma_no_spread_no_skew(s, mean(s));
        }
    }

    /// One update of the exact state of `s` gives the exact state of `s` with `x`
    /// appended.
    pub proof fn lemma_add_exact(s: Seq<real>, x: real)
        ensures
            Self::exact(s).add(x) == Self::exact(s.push(x)),
    {
        let t = s.push(x);
        let m = mean(s);
        let count = s.len() as real;
        let n = count + 1real;
        let delta = x - m;
        let delta_n = delta / n;
        let m_new = m + delta_n;
        let q = sum_sq_dev(s, m);
        MomentState::lemma_add_exact(s, x);
        assert(m_new == mean(t));
        lemma_push(s, x, m_new);
        lemma_mean_centres(s);
        lemma_div_cancel(delta, n);
        let h = m - m_new;
        let y = x - m_new;
        assert(sum_cube_dev(s, m_new) == sum_cube_dev(s, m) + 3real * h * q + count * h * h * h)
            by {
            lemma_recentre_cube(s, m, m_new);
            lemma_mul_zero_one(3real * h * h);
        }
        lemma_triple_of_neg(q, delta_n, h);
        lemma_update_cube(delta, delta_n, count, n, h, y);
    }

    /// Merging the exact states of two series gives the exact state of their
    /// concatenation, as long as there is at least one observation between them.
    pub proof fn lemma_merge_exact(a: Seq<real>, b: Seq<real>)
        requires
            a.len() + b.len() > 0,
        ensures
            Self::exact(a).merge(Self::exact(b)) == Self::exact(a + b),
    {
        let t = a + b;
        let m1 = mean(a);
        let m2 = mean(b);
        let q1 = sum_sq_dev(a, m1);
        let q2 = sum_sq_dev(b, m2);
        let n1 = a.len() as real;
        let n2 = b.len() as real;
        let n = n1 + n2;
        let d = m2 - m1;
        let w = d / n;
        let m = mean(t);
        MomentState::lemma_merge_exact(a, b);
        assert(m == m1 + d * n2 / n);
        lemma_concat(a, b, m);
        lemma_mean_centres(a);
        lemma_mean_centres(b);
        lemma_merge_offsets(m1, m2, n1, n2);
        let h1 = m1 - m;
        let h2 = m2 - m;
        assert(sum_cube_dev(a, m) == sum_cube_dev(a, m1) + 3real * h1 * q1 + n1 * h1 * h1 * h1)
            by {
            lemma_recentre_cube(a, m1, m);
            lemma_mul_zero_one(3real * h1 * h1);
        }
        assert(sum_cube_dev(b, m) == sum_cube_dev(b, m2) + 3real * h2 * q2 + n2 * h2 * h2 * h2)
            by {
            lemma_recentre_cube(b, m2, m);
            lemma_mul_zero_one(3real * h2 * h2);
        }
        assert(3real * h1 * q1 + 3real * h2 * q2 == 3real * w * (n1 * q2 - n2 * q1)) by {
            lemma_merge_spread_left(w, n2, q1, h1);
            lemma_merge_spread_right(w, n1, q2);
            lemma_mul_distributes_sub(3real * w, n1 * q2, n2 * q1);
        }
        assert(n1 * h1 * h1 * h1 + n2 * h2 * h2 * h2 == d * w * w * n1 * n2 * (n1 - n2)) by {
            lemma_merge_weights(w, n1, n2);
            lemma_merge_cubes(w * n1 * n2, w * n1, w * n2, n1, n2, h1);
            lemma_merge_cube_factors(d, w, n1, n2, n1 - n2);
        }
    }

    /// Adding the observations one at a time reaches the state that the definitions
    /// give: besides the exact mean and variance state, the cubed deviations from
    /// the mean.
    pub proof fn lemma_one_pass_exact(s: Seq<real>)
        ensures
            Self::of(s) == Self::exact(s),
            Self::of(s).moments == MomentState::of(s),
            Self::of(s).len() == s.len(),
            s.len() == 0 ==> Self::of(s).mean() == 0real,
            s.len() > 0 ==> Self::of(s).mean() == total(s) / (s.len() as real),
            Self::of(s).sum_cube == sum_cube_dev(s, mean(s)),
        decreases s.len(),
    {
        MomentState::lemma_one_pass_exact(s);
        if s.len() > 0 {
            Self::lemma_one_pass_exact(s.drop_last());
            Self::lemma_add_exact(s.drop_last(), s.last());
            assert(s.drop_last().push(s.last()) =~= s);
        }
    }

    /// Accumulating two parts of a series separately and merging gives the state of
    /// accumulating the whole in one pass, and so the same mean, variances and
    /// skewness.
    pub proof fn lemma_merge_is_one_pass(a: Seq<real>, b: Seq<real>)
        requires
            a.len() + b.len() > 0,
        ensures
            Self::of(a).merge(Self::of(b)) == Self::of(a + b),
            Self::of(a).merge(Self::of(b)).mean() == Self::of(a + b).mean(),
            Self::of(a).merge(Self::of(b)).sample_variance() == Self::of(a + b).sample_variance(),
            Self::of(a).merge(Self::of(b)).population_variance() == Self::of(
                a + b,
            ).population_variance(),
            Self::of(a).merge(Self::of(b)).skewness() == Self::of(a + b).skewness(),
    {
        Self::lemma_one_pass_exact(a);
        Self::lemma_one_pass_exact(b);
        Self::lemma_one_pass_exact(a + b);
        Self::lemma_merge_exact(a, b);
    }

    /// Cutting a series in two at any place, accumulating the two parts separately
    /// and merging gives the state of one pass over the whole.
    pub proof fn lemma_split_is_one_pass(s: Seq<real>, k: int)
        requires
            0 <= k <= s.len(),
            s.len() > 0,
        ensures
            Self::of(s.subrange(0, k)).merge(Self::of(s.subrange(k, s.len() as int))) == Self::of(
                s,
            ),
    {
        let a = s.subrange(0, k);
        let b = s.subrange(k, s.len() as int);
        assert(a + b =~= s);
        Self::lemma_merge_is_one_pass(a, b);
    }

    /// Merging with an empty state, on either side, leaves a state that is not empty
    /// as it is.
    pub proof fn lemma_merge_with_empty(a: Seq<real>)
        requires
            a.len() > 0,
        ensures
            Self::of(a).merge(Self::new()) == Self::of(a),
            Self::new().merge(Self::of(a)) == Self::of(a),
    {
        let e = Seq::<real>::empty();
        assert(a + e =~= a);
        assert(e + a =~= a);
        Self::lemma_merge_is_one_pass(a, e);
        Self::lemma_merge_is_one_pass(e, a);
    }

    /// Merging is associative: with three parts, it does not matter which two are
    /// merged first, as long as neither merge is of two empty states.
    pub proof fn lemma_merge_associative(a: Seq<real>, b: Seq<real>, c: Seq<real>)
        requires
            a.len() + b.len() > 0,
            b.len() + c.len() > 0,
        ensures
            Self::of(a).merge(Self::of(b)).merge(Self::of(c)) == Self::of(a).merge(
                Self::of(b).merge(Self::of(c)),
            ),
    {
        Self::lemma_merge_is_one_pass(a, b);
        Self::lemma_merge_is_one_pass(a + b, c);
        Self::lemma_merge_is_one_pass(b, c);
        Self::lemma_merge_is_one_pass(a, b + c);
        assert((a + b) + c =~= a + (b + c));
    }

    /// Merging is commutative, as long as the two states are not both empty.
    pub proof fn lemma_merge_commutative(a: Seq<real>, b: Seq<real>)
        requires
            a.len() + b.len() > 0,
        ensures
            Self::of(a).merge(Self::of(b)) == Self::of(b).merge(Self::of(a)),
    {
        let t1 = a + b;
        let t2 = b + a;
        assert(Self::exact(t1) == Self::exact(t2)) by {
            lemma_concat(a, b, 0real);
            lemma_concat(b, a, 0real);
            assert(total(t1) == total(t2));
            assert(t1.len() == t2.len());
            assert(mean(t1) == mean(t2));
            lemma_concat(a, b, mean(t1));
            lemma_concat(b, a, mean(t1));
        }
        Self::lemma_one_pass_exact(a);
        Self::lemma_one_pass_exact(b);
        Self::lemma_merge_exact(a, b);
        Self::lemma_merge_exact(b, a);
    }

    /// The state does not depend on the order in which the observations were added.
    pub proof fn lemma_order_independent(s1: Seq<real>, s2: Seq<real>)
        requires
            same_observations(s1, s2),
        ensures
            Self::of(s1) == Self::of(s2),
    {
        Self::lemma_one_pass_exact(s1);
        Self::lemma_one_pass_exact(s2);
        lemma_permutation(s1, s2, mean(s1));
    }

    /// A population that is symmetric about some centre has its mean there and has
    /// skewness zero.
    pub proof fn lemma_symmetric_has_no_skewness(s: Seq<real>, c: real)
        requires
            symmetric_about(s, c),
        ensures
            s.len() > 0 ==> Self::of(s).mean() == c,
            Self::of(s).sum_cube == 0real,
            Self::of(s).skewness() == 0real,
    {
        Self::lemma_one_pass_exact(s);
        lemma_symmetric(s, c);
    }
}

} // verus!
