//! The mean-and-variance accumulator as a mathematical object.
//!
//! A [`MomentState`] is what the accumulator holds, with real numbers in place of
//! machine numbers. `add` and `merge` are its two update rules. The lemmas show that
//! the rules keep the state equal to [`MomentState::exact`] of the observations seen
//! so far, whatever the order of additions and merges that produced it.

use crate::algebra::{
    lemma_div_cancel, lemma_div_unique, lemma_merge_mean, lemma_merge_shift, lemma_merge_sq,
    lemma_merge_sq_quotient, lemma_merge_weights, lemma_mul_distributes, lemma_mul_zero_one,
    lemma_square_of_neg, lemma_update_sq, lemma_update_sq_forms,
};
use crate::order::{lemma_permutation, same_observations};
use crate::series::{
    lemma_concat, lemma_mean_centres, lemma_push, lemma_recentre_sq, lemma_sum_sq_dev_nonneg,
    mean, sum_sq_dev, total,
};
use vstd::prelude::*;

verus! {

/// Whether `r` is the non-negative square root of `x`.
pub open spec fn is_sqrt(r: real, x: real) -> bool {
    r >= 0real && r * r == x
}

/// The non-negative square root of a non-negative number.
pub open spec fn sqrt(x: real) -> real {
    choose|r: real| is_sqrt(r, x)
}

/// Running count, mean and sum of squared deviations from the mean.
pub struct MomentState {
    /// Number of observations folded in.
    pub count: nat,
    /// Running arithmetic mean.
    pub mean: real,
    /// Running sum of squared deviations from the running mean.
    pub sum_sq: real,
}

impl MomentState {
    /// The state before any observation: count zero, and every sum at zero.
    pub open spec fn new() -> Self {
        MomentState { count: 0, mean: 0real, sum_sq: 0real }
    }

    /// The state after one more observation `x`.
    ///
    /// With `n` the count after the increment and `delta = x - mean`, the mean moves
    /// by `delta / n` and the spread grows by `delta * (x - new mean)`.
    pub open spec fn add(self, x: real) -> Self {
        let n = (self.count + 1) as real;
        let delta = x - self.mean;
        let mean = self.mean + delta / n;
        MomentState { count: self.count + 1, mean, sum_sq: self.sum_sq + delta * (x - mean) }
    }

    /// The state that stands for the observations of `self` and `other` together.
    ///
    /// With `n1`, `n2` the two counts, `n` their sum and `d` the difference of the
    /// means, the mean moves by `d * n2 / n` and the spreads add up with a correction
    /// of `d * d * n1 * n2 / n`. Where both states are empty the rule divides zero by
    /// zero, and nothing is said of the result.
    pub open spec fn merge(self, other: Self) -> Self {
        let n1 = self.count as real;
        let n2 = other.count as real;
        let n = n1 + n2;
        let d = other.mean - self.mean;
        MomentState {
            count: self.count + other.count,
            mean: self.mean + d * n2 / n,
            sum_sq: self.sum_sq + other.sum_sq + d * d * n1 * n2 / n,
        }
    }

    /// The state reached by adding the observations of `s` one at a time, in order.
    pub open spec fn of(s: Seq<real>) -> Self
        decreases s.len(),
    {
        if s.len() == 0 {
            Self::new()
        } else {
            Self::of(s.drop_last()).add(s.last())
        }
    }

    /// The state written down from the definitions: the length, the mean, and the
    /// squared deviations from that mean.
    pub open spec fn exact(s: Seq<real>) -> Self {
        MomentState { count: s.len(), mean: mean(s), sum_sq: sum_sq_dev(s, mean(s)) }
    }

    /// Number of observations.
    pub open spec fn len(self) -> nat {
        self.count
    }

    /// Whether no observation has been folded in.
    pub open spec fn is_empty(self) -> bool {
        self.count == 0
    }

    /// Estimate of the population mean.
    pub open spec fn mean(self) -> real {
        self.mean
    }

    /// Biased variance estimate, `sum_sq / count`; `0` for an empty state.
    pub open spec fn population_variance(self) -> real {
        if self.count == 0 {
            0real
        } else {
            self.sum_sq / (self.count as real)
        }
    }

    /// Unbiased variance estimate, `sum_sq / (count - 1)`; `None` with fewer than two
    /// observations, where it is not defined.
    pub open spec fn sample_variance(self) -> Option<real> {
        if self.count <= 1 {
            None
        } else {
            Some(self.sum_sq / ((self.count - 1) as real))
        }
    }

    /// Standard error of the mean, `sqrt(sample_variance / count)`; `None` exactly
    /// when the sample variance is.
    pub open spec fn error(self) -> Option<real> {
        match self.sample_variance() {
            Some(v) => Some(sqrt(v / (self.count as real))),
            None => None,
        }
    }

    /// A state is empty exactly when its length is zero. An update adds one to the
    /// length and a merge adds the two lengths, so neither makes a state empty that
    /// was not.
    pub proof fn lemma_lengths(self, other: Self, x: real)
        ensures
            self.is_empty() <==> self.len() == 0,
            Self::new().is_empty(),
            self.add(x).len() == self.len() + 1,
            !self.add(x).is_empty(),
            self.merge(other).len() == self.len() + other.len(),
            !self.is_empty() ==> !self.merge(other).is_empty(),
            !other.is_empty() ==> !self.merge(other).is_empty(),
    {
    }

    /// The two ways of writing the growth of the spread agree: with `n` the count
    /// after the increment, `delta * (x - new mean)` equals
    /// `delta * (delta / n) * (n - 1)`.
    pub proof fn lemma_add_forms(self, x: real)
        ensures
            ({
                let n = (self.count + 1) as real;
                let delta = x - self.mean;
                self.add(x).sum_sq == self.sum_sq + delta * (delta / n) * (n - 1real)
            }),
    {
        let n = (self.count + 1) as real;
        let delta = x - self.mean;
        lemma_div_cancel(delta, n);
        lemma_update_sq_forms(delta, delta / n, self.count as real, n);
    }

    /// The empty state is the exact state of the empty series, and its mean is zero.
    pub proof fn lemma_new_exact()
        ensures
            Self::new() == Self::exact(Seq::<real>::empty()),
            Self::new().mean() == 0real,
            Self::new().population_variance() == 0real,
    {
    }

    /// What holds of the exact state of any series: it is empty exactly for the
    /// empty series, and then its mean and spread are zero; its mean is the total
    /// over the length; and its spread is never negative.
    pub proof fn lemma_exact_invariants(s: Seq<real>)
        ensures
            Self::exact(s).len() == s.len(),
            Self::exact(s).is_empty() <==> s.len() == 0,
            s.len() == 0 ==> Self::exact(s).mean() == 0real && Self::exact(s).sum_sq == 0real,
            s.len() > 0 ==> Self::exact(s).mean() == total(s) / (s.len() as real),
            Self::exact(s).sum_sq >= 0real,
    {
        lemma_sum_sq_dev_nonneg(s, mean(s));
    }

    /// One update of the exact state of `s` gives the exact state of `s` with `x`
    /// appended.
    pub proof fn lemma_add_exact(s: Seq<real>, x: real)
        ensures
            Self::exact(s).add(x) == Self::exact(s.push(x)),
    {
        let t = s.push(x);
        let m = mean(s);
        let count = s.len() as real;
        let n = count + 1real;
        let delta = x - m;
        let delta_n = delta / n;
        let m_new = m + delta_n;
        assert(t.len() as real == n);
        lemma_push(s, x, m_new);
        lemma_mean_centres(s);
        lemma_div_cancel(delta, n);
        assert(m_new == mean(t)) by {
            lemma_mul_distributes(n, m, delta_n);
            lemma_mul_distributes(m, count, 1real);
            lemma_mul_zero_one(m);
            lemma_div_unique(m_new, total(t), n);
        }
        let h = m - m_new;
        let y = x - m_new;
        assert(sum_sq_dev(s, m_new) == sum_sq_dev(s, m) + count * h * h) by {
            lemma_recentre_sq(s, m, m_new);
            lemma_mul_zero_one(2real * h);
        }
        lemma_update_sq(delta, delta_n, count, h, y);
    }

    /// Merging the exact states of two series gives the exact state of their
    /// concatenation, as long as there is at least one observation between them.
    pub proof fn lemma_merge_exact(a: Seq<real>, b: Seq<real>)
        requires
            a.len() + b.len() > 0,
        ensures
            Self::exact(a).merge(Self::exact(b)) == Self::exact(a + b),
    {
        let t = a + b;
        let m1 = mean(a);
        let m2 = mean(b);
        let n1 = a.len() as real;
        let n2 = b.len() as real;
        let n = n1 + n2;
        let d = m2 - m1;
        let w = d / n;
        let m = m1 + d * n2 / n;
        assert(t.len() as real == n);
        lemma_concat(a, b, m);
        lemma_mean_centres(a);
        lemma_mean_centres(b);
        lemma_merge_offsets(m1, m2, n1, n2);
        assert(m == mean(t)) by {
            lemma_div_unique(m, total(t), n);
        }
        let h1 = m1 - m;
        let h2 = m2 - m;
        assert(sum_sq_dev(a, m) == sum_sq_dev(a, m1) + n1 * h1 * h1) by {
            lemma_recentre_sq(a, m1, m);
            lemma_mul_zero_one(2real * h1);
        }
        assert(sum_sq_dev(b, m) == sum_sq_dev(b, m2) + n2 * h2 * h2) by {
            lemma_recentre_sq(b, m2, m);
            lemma_mul_zero_one(2real * h2);
        }
        assert(n1 * h1 * h1 + n2 * h2 * h2 == d * d * n1 * n2 / n) by {
            lemma_square_of_neg(n1, w * n2, h1);
            lemma_merge_sq(n1, n2, w);
            lemma_merge_sq_quotient(n1, n2, w, n, d);
            lemma_div_unique((w * n1 * n2) * d, d * d * n1 * n2, n);
        }
    }

    /// Adding the observations one at a time reaches the state that the definitions
    /// give: the count is the length, the mean is the arithmetic mean, the spread is
    /// the sum of squared deviations from that mean, and the two variance estimates
    /// are that sum over the length and over one less.
    pub proof fn lemma_one_pass_exact(s: Seq<real>)
        ensures
            Self::of(s) == Self::exact(s),
            Self::of(s).len() == s.len(),
            s.len() == 0 ==> Self::of(s).mean() == 0real,
            s.len() > 0 ==> Self::of(s).mean() == total(s) / (s.len() as real),
            Self::of(s).sum_sq == sum_sq_dev(s, mean(s)),
            s.len() > 0 ==> Self::of(s).population_variance() == sum_sq_dev(s, mean(s)) / (
            s.len() as real),
            s.len() > 1 ==> Self::of(s).sample_variance() == Some(
                sum_sq_dev(s, mean(s)) / ((s.len() - 1) as real),
            ),
            s.len() <= 1 ==> Self::of(s).sample_variance() is None,
        decreases s.len(),
    {
        if s.len() > 0 {
            Self::lemma_one_pass_exact(s.drop_last());
            Self::lemma_add_exact(s.drop_last(), s.last());
            assert(s.drop_last().push(s.last()) =~= s);
        }
    }

    /// Accumulating two parts of a series separately and merging gives the state of
    /// accumulating the whole in one pass, and so the same mean and variances.
    pub proof fn lemma_merge_is_one_pass(a: Seq<real>, b: Seq<real>)
        requires
            a.len() + b.len() > 0,
        ensures
            Self::of(a).merge(Self::of(b)) == Self::of(a + b),
            Self::of(a).merge(Self::of(b)).mean() == Self::of(a + b).mean(),
            Self::of(a).merge(Self::of(b)).sample_variance() == Self::of(a + b).sample_variance(),
            Self::of(a).merge(Self::of(b)).population_variance() == Self::of(
                a + b,
            ).population_variance(),
    {
        Self::lemma_one_pass_exact(a);
        Self::lemma_one_pass_exact(b);
        Self::lemma_one_pass_exact(a + b);
        Self::lemma_merge_exact(a, b);
    }

    /// Cutting a series in two at any place, accumulating the two parts separately
    /// and merging gives the state of one pass over the whole.
    pub proof fn lemma_split_is_one_pass(s: Seq<real>, k: int)
        requires
            0 <= k <= s.len(),
            s.len() > 0,
        ensures
            Self::of(s.subrange(0, k)).merge(Self::of(s.subrange(k, s.len() as int))) == Self::of(
                s,
            ),
    {
        let a = s.subrange(0, k);
        let b = s.subrange(k, s.len() as int);
        assert(a + b =~= s);
        Self::lemma_merge_is_one_pass(a, b);
    }

    /// Merging with an empty state, on either side, leaves a state that is not empty
    /// as it is.
    pub proof fn lemma_merge_with_empty(a: Seq<real>)
        requires
            a.len() > 0,
        ensures
            Self::of(a).merge(Self::new()) == Self::of(a),
            Self::new().merge(Self::of(a)) == Self::of(a),
    {
        let e = Seq::<real>::empty();
        assert(a + e =~= a);
        assert(e + a =~= a);
        Self::lemma_merge_is_one_pass(a, e);
        Self::lemma_merge_is_one_pass(e, a);
    }

    /// Merging is associative: with three parts, it does not matter which two are
    /// merged first, as long as neither merge is of two empty states.
    pub proof fn lemma_merge_associative(a: Seq<real>, b: Seq<real>, c: Seq<real>)
        requires
            a.len() + b.len() > 0,
            b.len() + c.len() > 0,
        ensures
            Self::of(a).merge(Self::of(b)).merge(Self::of(c)) == Self::of(a).merge(
                Self::of(b).merge(Self::of(c)),
            ),
    {
        Self::lemma_merge_is_one_pass(a, b);
        Self::lemma_merge_is_one_pass(a + b, c);
        Self::lemma_merge_is_one_pass(b, c);
        Self::lemma_merge_is_one_pass(a, b + c);
        assert((a + b) + c =~= a + (b + c));
    }

    /// Merging is commutative, as long as the two states are not both empty.
    pub proof fn lemma_merge_commutative(a: Seq<real>, b: Seq<real>)
        requires
            a.len() + b.len() > 0,
        ensures
            Self::of(a).merge(Self::of(b)) == Self::of(b).merge(Self::of(a)),
    {
        let t1 = a + b;
        let t2 = b + a;
        assert(Self::exact(t1) == Self::exact(t2)) by {
            lemma_concat(a, b, 0real);
            lemma_concat(b, a, 0real);
            assert(total(t1) == total(t2));
            assert(t1.len() == t2.len());
            assert(mean(t1) == mean(t2));
            lemma_concat(a, b, mean(t1));
            lemma_concat(b, a, mean(t1));
        }
        Self::lemma_one_pass_exact(a);
        Self::lemma_one_pass_exact(b);
        Self::lemma_merge_exact(a, b);
        Self::lemma_merge_exact(b, a);
    }

    /// The state does not depend on the order in which the observations were added.
    pub proof fn lemma_order_independent(s1: Seq<real>, s2: Seq<real>)
        requires
            same_observations(s1, s2),
        ensures
            Self::of(s1) == Self::of(s2),
    {
        Self::lemma_one_pass_exact(s1);
        Self::lemma_one_pass_exact(s2);
        lemma_permutation(s1, s2, mean(s1));
    }
}

/// Where the merged mean lies: with `w = (m2 - m1) / (n1 + n2)`, it is `w * n2` away
/// from `m1` and `w * n1` away from `m2`, and its product with the merged count is
/// the sum of the two totals.
pub(crate) proof fn lemma_merge_offsets(m1: real, m2: real, n1: real, n2: real)
    requires
        n1 + n2 != 0real,
    ensures
        ({
            let d = m2 - m1;
            let n = n1 + n2;
            let w = d / n;
            let m = m1 + d * n2 / n;
            &&& w * n == d
            &&& m1 - m == 0real - w * n2
            &&& m2 - m == w * n1
            &&& m * n == m1 * n1 + m2 * n2
        }),
{
    let d = m2 - m1;
    let n = n1 + n2;
    let w = d / n;
    lemma_div_cancel(d, n);
    lemma_merge_shift(d, n, n2, w);
    lemma_div_unique(w * n2, d * n2, n);
    lemma_merge_mean(m1, m2, n1, n2, w * n2);
    lemma_merge_weights(w, n1, n2);
}

} // verus!
