//! Primes congruent to 3 modulo 4, and the search for the largest one under a bound.

use vstd::prelude::*;

verus! {

/// `n` is prime: at least two, and no number strictly between one and `n` divides it.
pub open spec fn is_prime(n: int) -> bool {
    n >= 2 && forall|d: int| 2 <= d < n ==> #[trigger] (n % d) != 0
}

/// `n` is a prime that leaves remainder 3 when divided by 4.
pub open spec fn is_suitable_prime(n: int) -> bool {
    is_prime(n) && n % 4 == 3
}

/// The boundary chosen for the domain `0..=bound`: for a bound of at most 2 the bound
/// itself, otherwise the largest suitable prime that does not exceed the bound.
pub open spec fn suitable_prime(bound: int) -> int
    decreases bound,
{
    if bound <= 2 {
        bound
    } else if is_suitable_prime(bound) {
        bound
    } else {
        suitable_prime(bound - 1)
    }
}

/// 3 is a suitable prime.
pub proof fn lemma_three_is_suitable()
    ensures
        is_suitable_prime(3),
{
    assert forall|d: int| 2 <= d < 3 implies #[trigger] (3int % d) != 0 by {
        assert(d == 2);
    }
}

/// For a bound of at least 3, `suitable_prime(bound)` lies in `3..=bound`, is a suitable
/// prime, and no suitable prime lies strictly between it and the bound.
pub proof fn lemma_suitable_prime_is_largest(bound: int)
    requires
        bound >= 3,
    ensures
        3 <= suitable_prime(bound) <= bound,
        is_suitable_prime(suitable_prime(bound)),
        forall|q: int| suitable_prime(bound) < q <= bound ==> !is_suitable_prime(q),
    decreases bound,
{
    lemma_three_is_suitable();
    if bound > 3 && !is_suitable_prime(bound) {
        lemma_suitable_prime_is_largest(bound - 1);
    }
}

/// If nothing in `p+1..=bound` is a suitable prime and `p` is one (or `p` is small), the
/// boundary for `bound` is the boundary for `p`.
proof fn lemma_suitable_prime_skip(p: int, bound: int)
    requires
        2 <= p <= bound,
        forall|q: int| p < q <= bound ==> !is_suitable_prime(q),
    ensures
        suitable_prime(bound) == suitable_prime(p),
    decreases bound - p,
{
    if p < bound {
        lemma_suitable_prime_skip(p, bound - 1);
    }
}

/// Primality test of `machine_prime::is_prime`, which the crate documents as correct for
/// every 64-bit input: the result says whether `n` is prime.
#[verifier::external_body]
fn check_prime(n: u64) -> (r: bool)
    ensures
        r == is_prime(n as int),
{
    machine_prime::is_prime(n)
}

/// Finds the boundary for the domain `0..=bound`: the bound itself when it is at most 2,
/// otherwise the largest prime congruent to 3 modulo 4 that does not exceed it.
pub fn find_largest_suitable_prime(bound: u64) -> (p: u64)
    ensures
        p as int == suitable_prime(bound as int),
        p <= bound,
{
    let mut number: u64 = bound;
    proof {
        lemma_three_is_suitable();
    }
    if number <= 3 {
        return number;
    }
    if number & 1 == 0 {
        assert(number & 1 == 0 ==> number % 2 == 0) by (bit_vector);
        number = number - 1;
    } else {
        assert(number & 1 != 0 ==> number % 2 == 1) by (bit_vector);
    }
    let mut found: bool = false;
    while number > 3 && !found
        invariant
            3 <= number <= bound,
            number % 2 == 1,
            found ==> is_suitable_prime(number as int),
            forall|q: int| number < q <= bound ==> !is_suitable_prime(q),
        decreases number - (if found { 1int } else { 0int }),
    {
        assert((number & 3 == 3) == (number % 4 == 3)) by (bit_vector);
        if number & 3 == 3 && check_prime(number) {
            found = true;
        } else {
            number = number - 2;
        }
    }
    proof {
        lemma_suitable_prime_skip(number as int, bound as int);
    }
    number
}

} // verus!
