use std::collections::HashMap;

use rand_sequence::builder::SEED_NOISE;
use rand_sequence::{find_largest_suitable_prime, QuadraticResidue, RandomSequenceBuilder};

fn is_send<T: Send>() {}

fn is_sync<T: Sync>() {}

fn check_config<T>(check: u64)
where
    T: QuadraticResidue + std::fmt::Debug + PartialEq + Eq + std::hash::Hash + Send + Sync,
{
    let config = RandomSequenceBuilder::<T>::seed(0);
    let config_orig = config.clone();

    // the configured prime number satisfies the requirements
    let prime = config.prime.widen();
    assert!(machine_prime::is_prime(prime), "{} is not prime", prime);
    assert_eq!(prime % 4, 3, "{} = 3 mod 4 doesn't hold", prime);
    assert_eq!(config.max, T::top());

    // the config can be cloned and tested for equality
    let sequence = config.into_iter();
    assert_eq!(sequence.config, config_orig);

    // permute_qpr gives no value twice
    let mut nums = HashMap::<T, u64>::new();
    for i in 0..check {
        let num = config.permute_qpr(T::truncate(i));
        if let Some(earlier) = nums.insert(num, i) {
            panic!("Duplicate number {:?} at index {} and {}", num, earlier, i);
        }
    }
    assert_eq!(nums.len() as u64, check);

    is_send::<RandomSequenceBuilder<T>>();
    is_sync::<RandomSequenceBuilder<T>>();

    let config = RandomSequenceBuilder::<T>::seed(0).with_max(T::truncate(100));
    assert_eq!(config.max, T::truncate(100));
    assert_eq!(config.prime, T::truncate(83));
}

#[test]
fn test_u8_config() {
    check_config::<u8>(256);
}

#[test]
fn test_u16_config() {
    check_config::<u16>(65536);
}

#[test]
fn test_u32_config() {
    check_config::<u32>(100_000);
}

#[test]
fn test_u64_config() {
    check_config::<u64>(100_000);
}

#[test]
fn test_usize_config() {
    check_config::<usize>(100_000);
}

#[test]
fn test_find_suitable_prime() {
    assert_eq!(
        RandomSequenceBuilder::<u64>::find_suitable_prime(u64::MAX),
        RandomSequenceBuilder::<u64>::seed(0).prime
    );
    assert_eq!(RandomSequenceBuilder::<u32>::find_suitable_prime(u8::MAX as u32), 251);
    assert_eq!(RandomSequenceBuilder::<u32>::find_suitable_prime(101), 83);
    assert_eq!(RandomSequenceBuilder::<u32>::find_suitable_prime(100), 83);
    assert_eq!(RandomSequenceBuilder::<u32>::find_suitable_prime(7), 7);
    assert_eq!(RandomSequenceBuilder::<u32>::find_suitable_prime(6), 3);
    assert_eq!(RandomSequenceBuilder::<u32>::find_suitable_prime(5), 3);
    assert_eq!(RandomSequenceBuilder::<u32>::find_suitable_prime(4), 3);
    assert_eq!(RandomSequenceBuilder::<u32>::find_suitable_prime(3), 3);
    assert_eq!(RandomSequenceBuilder::<u32>::find_suitable_prime(2), 2);
    assert_eq!(RandomSequenceBuilder::<u32>::find_suitable_prime(1), 1);
    assert_eq!(RandomSequenceBuilder::<u32>::find_suitable_prime(0), 0);
}

#[test]
fn check_seed_constant_is_prime() {
    assert_eq!(SEED_NOISE, RandomSequenceBuilder::<u64>::find_suitable_prime(SEED_NOISE));
}

#[test]
fn largest_suitable_prime_of_each_width() {
    assert_eq!(find_largest_suitable_prime(u8::MAX as u64), 251);
    assert_eq!(find_largest_suitable_prime(u16::MAX as u64), 65519);
    assert_eq!(find_largest_suitable_prime(u32::MAX as u64), 4294967291);
    assert_eq!(find_largest_suitable_prime(u64::MAX), 18446744073709551427);
}

#[test]
fn search_skips_primes_that_are_one_modulo_four() {
    // 13 and 17 are prime but leave remainder 1, 15 is no prime
    assert_eq!(find_largest_suitable_prime(17), 11);
    assert_eq!(find_largest_suitable_prime(13), 11);
    assert_eq!(find_largest_suitable_prime(12), 11);
    assert_eq!(find_largest_suitable_prime(10), 7);
    // 27, 35 and 39 leave remainder 3 but are no primes
    assert_eq!(find_largest_suitable_prime(27), 23);
    assert_eq!(find_largest_suitable_prime(42), 31);
}

#[test]
fn seed_derives_every_field() {
    let config = RandomSequenceBuilder::<u64>::seed(0);
    assert_eq!(config.seed, 13249709308611006934);
    assert_eq!(config.intermediate_a, 6624854654305503467);
    assert_eq!(config.intermediate_b, 11821889419404048148);
    assert_eq!(config.prime, 18446744073709551427);
    assert_eq!(config.max, u64::MAX);

    let config = RandomSequenceBuilder::<u64>::seed(12345);
    assert_eq!(config.seed, 13249709308611019197);
    assert_eq!(config.intermediate_b, 11821889419404054320);

    let config = RandomSequenceBuilder::<u8>::seed(0);
    assert_eq!(config.seed, 214);
    assert_eq!(config.intermediate_a, 235);
    assert_eq!(config.intermediate_b, 20);
    assert_eq!(config.prime, 251);
    assert_eq!(config.max, 255);

    let config = RandomSequenceBuilder::<u16>::seed(0);
    assert_eq!(config.seed, 4566);
    assert_eq!(config.intermediate_a, 2283);
    assert_eq!(config.intermediate_b, 63252);
    assert_eq!(config.prime, 65519);

    let config = RandomSequenceBuilder::<u32>::seed(0);
    assert_eq!(config.seed, 2364674518);
    assert_eq!(config.intermediate_a, 1182337259);
    assert_eq!(config.intermediate_b, 3112630036);
    assert_eq!(config.prime, 4294967291);
}

#[test]
fn seed_wraps_around_at_64_bits() {
    // the mixed seed of u64::MAX exceeds 64 bits before it wraps
    let config = RandomSequenceBuilder::<u64>::seed(u64::MAX);
    assert_eq!(config.seed, (u64::MAX ^ SEED_NOISE).wrapping_add(SEED_NOISE));
    assert_eq!(config.seed, u64::MAX);
    assert_eq!(config.intermediate_b, (u64::MAX >> 1) - SEED_NOISE - 1);
}

#[test]
fn seeding_is_deterministic() {
    for seed in [0u64, 1, 2, 99, u64::MAX] {
        assert_eq!(RandomSequenceBuilder::<u64>::seed(seed), RandomSequenceBuilder::<u64>::seed(seed));
        assert_eq!(RandomSequenceBuilder::<u8>::seed(seed), RandomSequenceBuilder::<u8>::seed(seed));
        assert_eq!(RandomSequenceBuilder::<u16>::seed(seed), RandomSequenceBuilder::<u16>::seed(seed));
    }
    assert_ne!(RandomSequenceBuilder::<u64>::seed(1), RandomSequenceBuilder::<u64>::seed(2));
}

#[test]
fn with_max_keeps_the_seeded_fields() {
    let seeded = RandomSequenceBuilder::<u32>::seed(17);
    let config = seeded.with_max(1000);
    assert_eq!(config.max, 1000);
    assert_eq!(config.prime, 991);
    assert_eq!(config.seed, seeded.seed);
    assert_eq!(config.intermediate_a, seeded.intermediate_a);
    assert_eq!(config.intermediate_b, seeded.intermediate_b);
    // small domains take their own size as the boundary
    assert_eq!(seeded.with_max(0).prime, 0);
    assert_eq!(seeded.with_max(1).prime, 1);
    assert_eq!(seeded.with_max(2).prime, 2);
    assert_eq!(seeded.with_max(3).prime, 3);
}

fn config(seed: u32, prime: u32, max: u32, intermediate_b: u32) -> RandomSequenceBuilder<u32> {
    RandomSequenceBuilder { seed, prime, max, intermediate_a: 0, intermediate_b }
}

#[test]
fn permute_qpr_folds_squares_below_the_prime() {
    let config = config(0, 7, 10, 1);
    // lower half: the residue of the square
    assert_eq!(config.permute_qpr(2), 4);
    assert_eq!(config.permute_qpr(3), 2);
    // upper half: the prime less the residue
    assert_eq!(config.permute_qpr(4), 5);
    assert_eq!(config.permute_qpr(5), 3);
    assert_eq!(config.permute_qpr(6), 6);
}

#[test]
fn permute_qpr_flips_zero_and_one_for_an_odd_seed() {
    let even = config(4, 7, 10, 1);
    assert_eq!(even.permute_qpr(0), 0);
    assert_eq!(even.permute_qpr(1), 1);
    let odd = config(5, 7, 10, 1);
    assert_eq!(odd.permute_qpr(0), 1);
    assert_eq!(odd.permute_qpr(1), 0);
}

#[test]
fn permute_qpr_swaps_prime_and_max_for_an_even_noise_term() {
    let even = config(0, 7, 10, 2);
    assert_eq!(even.permute_qpr(7), 10);
    assert_eq!(even.permute_qpr(10), 7);
    assert_eq!(even.permute_qpr(8), 8);
    assert_eq!(even.permute_qpr(9), 9);
    let odd = config(0, 7, 10, 3);
    assert_eq!(odd.permute_qpr(7), 7);
    assert_eq!(odd.permute_qpr(10), 10);
    assert_eq!(odd.permute_qpr(8), 8);
}

#[test]
fn permute_qpr_on_the_smallest_domains() {
    // a single value maps to itself whatever the seed
    assert_eq!(config(0, 0, 0, 0).permute_qpr(0), 0);
    assert_eq!(config(1, 0, 0, 0).permute_qpr(0), 0);
    // two values change places for an odd seed
    assert_eq!(config(0, 1, 1, 0).permute_qpr(0), 0);
    assert_eq!(config(0, 1, 1, 0).permute_qpr(1), 1);
    assert_eq!(config(1, 1, 1, 0).permute_qpr(0), 1);
    assert_eq!(config(1, 1, 1, 0).permute_qpr(1), 0);
    // three values: 2 stays
    assert_eq!(config(1, 2, 2, 0).permute_qpr(0), 1);
    assert_eq!(config(1, 2, 2, 0).permute_qpr(1), 0);
    assert_eq!(config(1, 2, 2, 0).permute_qpr(2), 2);
}

#[test]
fn permute_qpr_is_a_bijection_of_the_domain() {
    for max in [0u32, 1, 2, 3, 4, 5, 6, 7, 10, 11, 100, 255, 1000] {
        for seed in 0..6u64 {
            let config = RandomSequenceBuilder::<u32>::seed(seed).with_max(max);
            let mut seen = vec![false; max as usize + 1];
            for x in 0..=max {
                let y = config.permute_qpr(x);
                assert!(y <= max);
                assert!(!seen[y as usize], "max {} seed {}: {} reached twice", max, seed, y);
                seen[y as usize] = true;
            }
            assert!(seen.iter().all(|reached| *reached));
        }
    }
}

#[test]
fn residue_squares_without_overflow() {
    assert_eq!(255u8.residue(251), 16);
    assert_eq!(65535u16.residue(65519), 256);
    assert_eq!(4000000000u32.residue(4294967291), 3430488118);
    assert_eq!(u64::MAX.residue(18446744073709551427), 35344);
    assert_eq!(usize::MAX.residue(7), ((usize::MAX % 7) * (usize::MAX % 7)) % 7);
    assert_eq!(5u8.residue(1), 0);
}

#[test]
fn modulo_add_wraps_at_the_end_of_the_domain() {
    assert_eq!(200u8.modulo_add(100, 255), 44);
    assert_eq!(200u8.modulo_add(100, 249), 50);
    assert_eq!(3u8.modulo_add(2, 5), 5);
    assert_eq!(3u8.modulo_add(3, 5), 0);
    assert_eq!(7u16.modulo_add(9, 0), 0);
    assert_eq!(u64::MAX.modulo_add(u64::MAX, u64::MAX), u64::MAX - 1);
    assert_eq!(u64::MAX.modulo_add(u64::MAX, u64::MAX - 1), 0);
    assert_eq!(u64::MAX.modulo_add(1, u64::MAX - 1), 1);
    assert_eq!(u32::MAX.modulo_add(1, u32::MAX), 0);
}

#[test]
fn truncate_keeps_the_low_bits() {
    assert_eq!(<u8 as QuadraticResidue>::truncate(0x1234), 0x34);
    assert_eq!(<u16 as QuadraticResidue>::truncate(0x12345678), 0x5678);
    assert_eq!(<u32 as QuadraticResidue>::truncate(0x1_2345_6789), 0x2345_6789);
    assert_eq!(<u64 as QuadraticResidue>::truncate(u64::MAX), u64::MAX);
    assert_eq!(<usize as QuadraticResidue>::truncate(u64::MAX), u64::MAX as usize);
    assert_eq!(<u8 as QuadraticResidue>::top(), 255);
    assert_eq!(200u8.widen(), 200u64);
}
