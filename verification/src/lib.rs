//! Deterministic, seed-reproducible orderings of the integers `0..=max` that visit every
//! value exactly once, with constant-time lookup of the value at any position.

pub mod bijection;
pub mod builder;
pub mod model;
pub mod number_theory;
pub mod permute;
pub mod primes;
pub mod residue;
pub mod sequence;
pub mod stepping;

pub use crate::builder::RandomSequenceBuilder;
pub use crate::primes::find_largest_suitable_prime;
pub use crate::residue::QuadraticResidue;
pub use crate::sequence::RandomSequence;
