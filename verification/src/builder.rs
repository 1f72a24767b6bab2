//! The configuration of a sequence: the seed-derived constants, the prime boundary of the
//! domain, and the round function built on them.

use crate::model::{Config, Cursor};
use crate::primes::{find_largest_suitable_prime, lemma_suitable_prime_is_largest, suitable_prime};
use crate::residue::QuadraticResidue;
use crate::sequence::RandomSequence;
use vstd::prelude::*;

verus! {

/// Constant used to add some noise to the seed and to build the intermediate values
/// from it.
pub const SEED_NOISE: u64 = 6624854654305503467;

/// A number brought back into the 64-bit range by adding or subtracting 2^64 once.
pub open spec fn wrap64(x: int) -> int {
    if x > u64::MAX {
        x - 18446744073709551616
    } else if x < 0 {
        x + 18446744073709551616
    } else {
        x
    }
}

/// The 64-bit value a seed is mixed into before it is cut to the integer width.
pub open spec fn mixed_seed(seed: u64) -> int {
    wrap64((seed ^ SEED_NOISE) + SEED_NOISE)
}

/// The 64-bit value the variable noise term is derived from: half the seed, less the
/// noise constant and one.
pub open spec fn mixed_offset(seed: u64) -> int {
    wrap64(seed / 2 - (SEED_NOISE + 1))
}

/// The configuration for [RandomSequence], a random unique sequence generator.
///
/// These values define the entire sequence.
#[derive(Debug, Clone, Copy, PartialEq, Eq)]
pub struct RandomSequenceBuilder<T: QuadraticResidue> {
    /// The sequence seed value.
    pub seed: T,
    /// The largest prime number that does not exceed `max` and satisfies
    /// `prime = 3 mod 4`.
    pub prime: T,
    /// The maximum value in the sequence.
    pub max: T,
    /// A value that provides some constant noise in the sequence.
    pub intermediate_a: T,
    /// A value that provides some variable noise in the sequence. Determined by the seed.
    pub intermediate_b: T,
}

impl<T: QuadraticResidue> View for RandomSequenceBuilder<T> {
    type V = Config;

    open spec fn view(&self) -> Config {
        Config {
            seed: self.seed.value(),
            prime: self.prime.value(),
            max: self.max.value(),
            intermediate_a: self.intermediate_a.value(),
            intermediate_b: self.intermediate_b.value(),
            limit: T::limit(),
        }
    }
}

impl<T: QuadraticResidue> RandomSequenceBuilder<T> {
    /// The configuration that `seed` gives for the integer width: the mixed seed and the
    /// two noise terms cut to the width, the whole width as the domain, and the boundary
    /// of that domain.
    pub open spec fn seeded(seed: u64) -> Config {
        Config {
            seed: mixed_seed(seed) % (T::limit() + 1),
            prime: suitable_prime(T::limit()),
            max: T::limit(),
            intermediate_a: (SEED_NOISE as int) % (T::limit() + 1),
            intermediate_b: mixed_offset(seed) % (T::limit() + 1),
            limit: T::limit(),
        }
    }

    /// Every field fits the integer width.
    pub proof fn lemma_in_range(self)
        ensures
            self@.in_range(),
    {
        self.seed.lemma_value_in_range();
        self.prime.lemma_value_in_range();
        self.max.lemma_value_in_range();
        self.intermediate_a.lemma_value_in_range();
        self.intermediate_b.lemma_value_in_range();
    }

    /// Seeding is deterministic: two configurations of one integer width that were
    /// seeded with the same seed are equal field for field.
    pub proof fn lemma_seed_is_deterministic(first: Self, second: Self, seed: u64)
        requires
            first@ == Self::seeded(seed),
            second@ == Self::seeded(seed),
        ensures
            first == second,
    {
        T::lemma_value_injective(first.seed, second.seed);
        T::lemma_value_injective(first.prime, second.prime);
        T::lemma_value_injective(first.max, second.max);
        T::lemma_value_injective(first.intermediate_a, second.intermediate_a);
        T::lemma_value_injective(first.intermediate_b, second.intermediate_b);
    }

    /// Initialise this configuration with a particular seed. The domain is the whole
    /// integer width, and its boundary is found by searching down from the top of the
    /// width.
    pub fn seed(seed: u64) -> (r: Self)
        ensures
            r@ == Self::seeded(seed),
            r@.valid(),
    {
        let noise: u64 = SEED_NOISE;
        proof {
            T::lemma_limit_in_range();
        }
        let top = T::top();
        let prime = Self::find_suitable_prime(top);
        proof {
            lemma_suitable_prime_is_largest(T::limit());
        }
        let r = Self {
            // final bit determines 0/1 swapping
            seed: T::truncate((seed ^ noise).wrapping_add(noise)),
            // constant intermediate
            intermediate_a: T::truncate(noise),
            // variable intermediate, the seed determines odd or even addition
            intermediate_b: T::truncate((seed >> 1).wrapping_sub(noise + 1)),
            prime,
            max: top,
        };
        proof {
            assert(seed >> 1 == seed / 2) by (bit_vector);
            r.lemma_in_range();
        }
        r
    }

    /// Set the maximum value for the sequence, and with it the largest suitable prime
    /// for the new domain.
    ///
    /// Note: `max` is _inclusive_, so the sequence will include `max`.
    pub fn with_max(self, max: T) -> (r: Self)
        ensures
            r@ == (Config { max: max.value(), prime: suitable_prime(max.value()), ..self@ }),
            r@.valid(),
    {
        let prime = Self::find_suitable_prime(max);
        let r = Self { max, prime, ..self };
        proof {
            r.lemma_in_range();
            if max.value() >= 3 {
                lemma_suitable_prime_is_largest(max.value());
            }
        }
        r
    }

    /// Discover the largest suitable prime number that satisfies:
    /// - prime <= max
    /// - prime = 3 mod 4 (`prime % 4 == 3`)
    ///
    /// A `max` of 0, 1 or 2 is returned unchanged.
    pub fn find_suitable_prime(max: T) -> (prime: T)
        ensures
            prime.value() == suitable_prime(max.value()),
            prime.value() <= max.value(),
    {
        let found: u64 = find_largest_suitable_prime(max.widen());
        proof {
            max.lemma_value_in_range();
            T::lemma_limit_in_range();
            vstd::arithmetic::div_mod::lemma_small_mod(found as nat, (T::limit() + 1) as nat);
        }
        T::truncate(found)
    }

    /// Intermediary function to compute the quadratic prime residue.
    pub fn permute_qpr(&self, x: T) -> (y: T)
        requires
            self.prime.value() > 0 || x.value() <= 1,
        ensures
            y.value() == self@.permute_qpr(x.value()),
    {
        let xv: u64 = x.widen();
        let prime: u64 = self.prime.widen();
        let max: u64 = self.max.widen();
        // The small set of integers out of range are mapped to themselves.
        if xv >= prime && prime > 1 {
            // for small sequences this adds noise
            let noise: u64 = self.intermediate_b.widen();
            assert((noise & 1 == 0) == (noise % 2 == 0)) by (bit_vector);
            if noise & 1 == 0 {
                if xv == prime {
                    return self.max;
                } else if xv == max {
                    return self.prime;
                }
            }
            return x;
        }
        proof {
            T::lemma_limit_in_range();
        }
        // Extra noise for small sequences to flip 0/1 depending on seed
        if xv <= 1 {
            let seed: u64 = self.seed.widen();
            // the mask ensures that a domain of one value maps to 0
            let mask: u64 = if max > 0 { 1 } else { 0 };
            let bit: u64 = (xv ^ (seed & 1)) & mask;
            assert(xv <= 1 && mask <= 1 ==> (xv ^ (seed & 1)) & mask == (if mask == 1 {
                (xv + seed % 2) % 2
            } else {
                0
            })) by (bit_vector);
            proof {
                vstd::arithmetic::div_mod::lemma_small_mod(bit as nat, (T::limit() + 1) as nat);
            }
            return T::truncate(bit);
        }
        // (x * x) % prime, formed without overflow
        let residue: u64 = x.residue(self.prime).widen();
        proof {
            self.prime.lemma_value_in_range();
            vstd::arithmetic::div_mod::lemma_mod_bound(xv * xv, prime as int);
        }
        if xv <= prime >> 1 {
            assert(prime >> 1 == prime / 2) by (bit_vector);
            proof {
                vstd::arithmetic::div_mod::lemma_small_mod(residue as nat, (T::limit() + 1) as nat);
            }
            T::truncate(residue)
        } else {
            assert(prime >> 1 == prime / 2) by (bit_vector);
            proof {
                vstd::arithmetic::div_mod::lemma_small_mod(
                    (prime - residue) as nat,
                    (T::limit() + 1) as nat,
                );
            }
            T::truncate(prime - residue)
        }
    }

    /// Build a [RandomSequence] cursor from this configuration, positioned at the start
    /// of the sequence.
    pub fn into_iter(self) -> (r: RandomSequence<T>)
        requires
            self@.can_permute(),
        ensures
            r@ == (Cursor {
                config: self@,
                start_index: self@.start_index(),
                current_index: 0,
                ended: false,
            }),
            r@.wf(),
    {
        let mut start_index = T::truncate(0);
        proof {
            T::lemma_limit_in_range();
            self.lemma_in_range();
        }
        if self.max.widen() > 0 {
            let first = self.permute_qpr(self.seed);
            let shifted = first.modulo_add(self.intermediate_b, T::top());
            start_index = self.permute_qpr(shifted);
        }
        proof {
            start_index.lemma_value_in_range();
        }
        RandomSequence { config: self, start_index, current_index: T::truncate(0), ended: false }
    }
}

} // verus!
