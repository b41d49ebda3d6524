//! Viterbi decoding of hidden Markov models in log-probability space.
//!
//! A [`model::HMM`] holds transition, emission and initial-state
//! log-probabilities as IEEE-754 binary64 bit patterns, shape-checked at
//! construction; [`decoder::viterbi`] finds the most likely hidden-state
//! path for a sequence of observed symbols, with a NaN-skipping argmax
//! and a flat prior over end states.

pub mod arith;
pub mod decoder;
pub mod ieee_bits;
pub mod model;
