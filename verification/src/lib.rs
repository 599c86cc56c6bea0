//! One-pass estimation of mean, variance and skewness, stated and proved over the
//! real numbers.
//!
//! An accumulator sees the observations of a population one at a time and keeps
//! only a count, a running mean, and running sums of squared and cubed deviations
//! from that mean. Two accumulators that saw different parts of a population can be
//! merged into one that stands for both. This crate fixes those rules as
//! mathematical functions and proves what they compute:
//!
//! - [`series`] defines the quantities to be tracked, directly from a series of
//!   observations;
//! - [`moments`] holds the mean-and-variance state with its update and merge rules,
//!   and [`skewness`] the state that adds the third moment on top of it;
//! - each of the two proves that its rules keep the state equal to the one written
//!   down from the definitions, so that a merge of parts equals one pass over the
//!   whole, merging is associative and commutative, and the order of the
//!   observations does not matter;
//! - [`order`] holds the facts on reordering and on symmetric populations;
//! - [`examples`] works the rules through on a few small populations;
//! - [`algebra`] collects the identities of real arithmetic that the proofs use.
//!
//! All of this is exact arithmetic. A program that evaluates the same rules in
//! floating point rounds at every step; nothing here bounds that error.
//!
//! The one part of an accumulator that runs on integers is its sample count, and
//! [`count`] holds it as executable code: the counter, its growth on an update and
//! on a merge, and the divisors of the two variance estimates.

pub mod algebra;
pub mod count;
pub mod examples;
pub mod moments;
pub mod order;
pub mod series;
pub mod skewness;
