//! Bayesian inference for ternary variables on {-1, 0, +1}: the verified core.
//!
//! The values of a ternary variable, conditional probability tables keyed by
//! a parent's value, and the counting that trains a naive Bayes classifier.

pub mod cpt;
pub mod naive_bayes;
pub mod ternary;

pub use cpt::CPT;
pub use naive_bayes::{Sample, TrainingCounts};
pub use ternary::Ternary;
