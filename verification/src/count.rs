//! The sample counter: the part of an accumulator that runs on integers.
//!
//! A [`SampleCount`] holds what [`MomentState::len`](crate::moments::MomentState::len)
//! is for the state it belongs to: `increment` goes with an update of that state,
//! `merge` with a merge, and the two divisors tell whether a variance estimate divides
//! at all and by what.

use vstd::prelude::*;

verus! {

/// Number of observations that an accumulator has folded in.
///
/// The counter starts empty and only grows: by one for each observation, and by the
/// other counter's value on a merge.
#[derive(Clone, Copy, Debug)]
pub struct SampleCount {
    n: u64,
}

impl View for SampleCount {
    type V = nat;

    closed spec fn view(&self) -> nat {
        self.n as nat
    }
}

impl SampleCount {
    /// A counter that has seen no observation.
    pub fn new() -> (c: SampleCount)
        ensures
            c@ == 0,
    {
        SampleCount { n: 0 }
    }

    /// The number of observations.
    pub fn len(&self) -> (n: u64)
        ensures
            n == self@,
    {
        self.n
    }

    /// Whether no observation has been counted.
    pub fn is_empty(&self) -> (b: bool)
        ensures
            b <==> self@ == 0,
    {
        self.n == 0
    }

    /// Counts one more observation. Nothing else changes, and the counter is not
    /// empty afterwards.
    pub fn increment(&mut self)
        requires
            old(self)@ < u64::MAX,
        ensures
            final(self)@ == old(self)@ + 1,
    {
        self.n = self.n + 1;
    }

    /// Absorbs the observations counted by `other`, which is left as it was.
    pub fn merge(&mut self, other: &SampleCount)
        requires
            old(self)@ + other@ <= u64::MAX,
        ensures
            final(self)@ == old(self)@ + other@,
    {
        self.n = self.n + other.n;
    }

    /// The divisor of the biased variance estimate, the count itself; `None` for an
    /// empty counter, where that estimate is zero by convention and nothing is
    /// divided.
    pub fn population_variance_divisor(&self) -> (d: Option<u64>)
        ensures
            self@ >= 1 ==> d == Some(self@ as u64),
            self@ == 0 ==> d is None,
    {
        if self.n >= 1 {
            Some(self.n)
        } else {
            None
        }
    }

    /// The divisor of the unbiased variance estimate, one less than the count; `None`
    /// with fewer than two observations, where that estimate is not defined.
    pub fn sample_variance_divisor(&self) -> (d: Option<u64>)
        ensures
            self@ >= 2 ==> d == Some((self@ - 1) as u64),
            self@ <= 1 ==> d is None,
    {
        if self.n >= 2 {
            Some(self.n - 1)
        } else {
            None
        }
    }
}

} // verus!
