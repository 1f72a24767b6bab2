//! The number theory behind the round function: modulo a prime congruent to 3 modulo 4,
//! minus one is not a square, so no two numbers below the prime share a folded square.

use crate::primes::is_prime;
use vstd::arithmetic::div_mod::{
    lemma_fundamental_div_mod, lemma_mod_bound, lemma_mod_equivalence, lemma_mod_multiples_basic,
    lemma_mod_multiples_vanish, lemma_mul_mod_noop_right, lemma_small_mod,
};
use vstd::prelude::*;
use vstd::set_lib::{lemma_int_range, set_int_range};

verus! {

/// A number with remainder 0 is the modulus times the quotient.
proof fn lemma_multiple_of(z: int, p: int)
    requires
        p > 0,
        z % p == 0,
    ensures
        z == p * (z / p),
{
    lemma_fundamental_div_mod(z, p);
}

/// A multiple of the modulus has remainder 0.
proof fn lemma_multiple_vanishes(z: int, k: int, p: int)
    requires
        p > 0,
        z == k * p,
    ensures
        z % p == 0,
{
    lemma_mod_multiples_basic(k, p);
}

/// Every number strictly between 0 and a prime `p` has an inverse modulo `p`.
pub proof fn lemma_inverse(p: int, a: int) -> (u: int)
    requires
        is_prime(p),
        0 < a < p,
    ensures
        0 < u < p,
        (a * u) % p == 1,
    decreases a,
{
    if a == 1 {
        lemma_small_mod(1, p as nat);
        assert(1int * 1int == 1);
        1
    } else {
        let r = p % a;
        let q = p / a;
        lemma_fundamental_div_mod(p, a);
        lemma_mod_bound(p, a);
        assert(p % a != 0);
        let v = lemma_inverse(p, r);
        let w = -q * v;
        lemma_mod_equivalence(r * v, 1, p);
        lemma_small_mod(1, p as nat);
        lemma_multiple_of(r * v - 1, p);
        let k = (r * v - 1) / p;
        assert(a * w == p * (k - v) + 1) by (nonlinear_arith)
            requires
                p == a * q + r,
                w == -q * v,
                r * v - 1 == p * k,
        ;
        lemma_mod_multiples_vanish(k - v, 1, p);
        lemma_small_mod(1, p as nat);
        assert((a * w) % p == 1);
        let u = w % p;
        lemma_mod_bound(w, p);
        lemma_mul_mod_noop_right(a, w, p);
        if u == 0 {
            assert(a * 0 == 0);
            lemma_small_mod(0, p as nat);
        }
        u
    }
}

/// A prime that divides a product, one factor of which lies strictly between 0 and the
/// prime, divides the other factor.
pub proof fn lemma_prime_divides_factor(p: int, a: int, b: int)
    requires
        is_prime(p),
        0 < a < p,
        (a * b) % p == 0,
    ensures
        b % p == 0,
{
    let u = lemma_inverse(p, a);
    lemma_multiple_of(a * b, p);
    lemma_mod_equivalence(a * u, 1, p);
    lemma_small_mod(1, p as nat);
    lemma_multiple_of(a * u - 1, p);
    let k1 = (a * b) / p;
    let k2 = (a * u - 1) / p;
    assert(b == (u * k1 - k2 * b) * p) by (nonlinear_arith)
        requires
            a * b == p * k1,
            a * u - 1 == p * k2,
    ;
    lemma_multiple_vanishes(b, u * k1 - k2 * b, p);
}

/// The members of `s` at `x`: its image under `g` stays in `s`, neither one nor two
/// applications of `g` return to `x`, and four applications do.
pub open spec fn turns_in_four(s: Set<int>, g: spec_fn(int) -> int, x: int) -> bool {
    &&& s.contains(g(x))
    &&& g(x) != x
    &&& g(g(x)) != x
    &&& g(g(g(g(x)))) == x
}

/// A finite set on which a map cycles every member through exactly four distinct
/// members has a size divisible by 4.
pub proof fn lemma_four_cycles(s: Set<int>, g: spec_fn(int) -> int)
    requires
        s.finite(),
        forall|x: int| s.contains(x) ==> #[trigger] turns_in_four(s, g, x),
    ensures
        s.len() % 4 == 0,
    decreases s.len(),
{
    if s.len() != 0 {
        let x0 = s.choose();
        let x1 = g(x0);
        let x2 = g(x1);
        let x3 = g(x2);
        assert(turns_in_four(s, g, x0));
        assert(turns_in_four(s, g, x1));
        assert(turns_in_four(s, g, x2));
        assert(turns_in_four(s, g, x3));
        let t = s.remove(x0).remove(x1).remove(x2).remove(x3);
        assert forall|y: int| t.contains(y) implies #[trigger] turns_in_four(t, g, y) by {
            assert(turns_in_four(s, g, y));
        }
        lemma_four_cycles(t, g);
        assert(t.len() == s.len() - 4);
    }
}

/// Modulo a number congruent to 3 modulo 4, minus one is not a square.
pub proof fn lemma_minus_one_is_no_square(p: int, a: int)
    requires
        p > 0,
        p % 4 == 3,
    ensures
        (a * a + 1) % p != 0,
{
    if (a * a + 1) % p == 0 {
        lemma_multiple_of(a * a + 1, p);
        let k = (a * a + 1) / p;
        let g = |x: int| (a * x) % p;
        let s = set_int_range(1, p);
        lemma_int_range(1, p);
        // applying the map twice negates modulo p
        assert forall|x: int| 0 < x < p implies #[trigger] g(g(x)) == p - x by {
            lemma_mul_mod_noop_right(a, a * x, p);
            assert(a * (a * x) == p * (k * x) + (-x)) by (nonlinear_arith)
                requires
                    a * a + 1 == p * k,
            ;
            lemma_mod_multiples_vanish(k * x, -x, p);
            lemma_mod_multiples_vanish(1, -x, p);
            assert(p * 1 + (-x) == p - x);
            lemma_small_mod((p - x) as nat, p as nat);
        }
        assert(g(0) == 0) by {
            assert(a * 0 == 0);
            lemma_small_mod(0, p as nat);
        }
        assert forall|x: int| s.contains(x) implies #[trigger] turns_in_four(s, g, x) by {
            lemma_mod_bound(a * x, p);
            assert(g(g(x)) == p - x);
            let y = g(x);
            if y == 0 {
                assert(g(y) == 0);
            }
            assert(0 < y < p);
            assert(g(g(y)) == p - y);
            let z = g(y);
            assert(0 < z < p);
            assert(g(g(z)) == p - z);
        }
        lemma_four_cycles(s, g);
    }
}

/// A prime congruent to 3 modulo 4 does not divide a sum of two squares of which one is
/// the square of a number strictly between 0 and the prime.
pub proof fn lemma_sum_of_squares(p: int, x: int, y: int)
    requires
        is_prime(p),
        p % 4 == 3,
        0 < y < p,
    ensures
        (x * x + y * y) % p != 0,
{
    if (x * x + y * y) % p == 0 {
        let u = lemma_inverse(p, y);
        lemma_multiple_of(x * x + y * y, p);
        lemma_mod_equivalence(y * u, 1, p);
        lemma_small_mod(1, p as nat);
        lemma_multiple_of(y * u - 1, p);
        let k1 = (y * u - 1) / p;
        let k2 = (x * x + y * y) / p;
        let a = x * u;
        let yu = y * u;
        let xx = x * x;
        let uu = u * u;
        assert(a * a == xx * uu) by (nonlinear_arith)
            requires
                a == x * u,
                xx == x * x,
                uu == u * u,
        ;
        assert(yu * yu == (y * y) * uu) by (nonlinear_arith)
            requires
                yu == y * u,
                uu == u * u,
        ;
        assert(yu * yu == 1 + p * (2 * k1 + p * k1 * k1)) by (nonlinear_arith)
            requires
                yu - 1 == p * k1,
        ;
        assert((xx + y * y) * uu == p * (k2 * uu)) by (nonlinear_arith)
            requires
                xx + y * y == p * k2,
        ;
        assert((xx + y * y) * uu == xx * uu + (y * y) * uu) by (nonlinear_arith);
        assert(a * a + 1 == (k2 * uu - (2 * k1 + p * k1 * k1)) * p) by (nonlinear_arith)
            requires
                a * a == xx * uu,
                xx * uu + (y * y) * uu == p * (k2 * uu),
                (y * y) * uu == 1 + p * (2 * k1 + p * k1 * k1),
        ;
        lemma_multiple_vanishes(a * a + 1, k2 * uu - (2 * k1 + p * k1 * k1), p);
        lemma_minus_one_is_no_square(p, a);
    }
}

/// The folded square modulo `p`: the square's residue in the lower half, the prime less
/// that residue in the upper half.
pub open spec fn folded_square(p: int, x: int) -> int {
    if x <= p / 2 {
        (x * x) % p
    } else {
        p - (x * x) % p
    }
}

/// Two numbers below a prime whose squares leave the same residue are equal or add up
/// to a multiple of the prime.
proof fn lemma_equal_squares(p: int, x: int, y: int)
    requires
        is_prime(p),
        0 <= x < y < p,
        (x * x) % p == (y * y) % p,
    ensures
        (x + y) % p == 0,
{
    lemma_mod_equivalence(y * y, x * x, p);
    assert(y * y - x * x == (y - x) * (x + y)) by (nonlinear_arith);
    lemma_prime_divides_factor(p, y - x, x + y);
}

/// Modulo a prime congruent to 3 modulo 4, two different numbers below the prime have
/// different folded squares.
pub proof fn lemma_folded_square_injective(p: int, x: int, y: int)
    requires
        is_prime(p),
        p % 4 == 3,
        0 <= x < p,
        0 <= y < p,
        folded_square(p, x) == folded_square(p, y),
    ensures
        x == y,
{
    if x < y {
        lemma_folded_square_differs(p, x, y);
    } else if y < x {
        lemma_folded_square_differs(p, y, x);
    }
}

proof fn lemma_folded_square_differs(p: int, x: int, y: int)
    requires
        is_prime(p),
        p % 4 == 3,
        0 <= x < y < p,
    ensures
        folded_square(p, x) != folded_square(p, y),
{
    if folded_square(p, x) == folded_square(p, y) {
        let h = p / 2;
        lemma_mod_bound(x * x, p);
        lemma_mod_bound(y * y, p);
        if y <= h {
            lemma_equal_squares(p, x, y);
            lemma_small_mod((x + y) as nat, p as nat);
        } else if x > h {
            lemma_equal_squares(p, x, y);
            lemma_mod_multiples_vanish(-1, x + y, p);
            assert(p * (-1) + (x + y) == x + y - p);
            lemma_small_mod((x + y - p) as nat, p as nat);
        } else {
            let rx = (x * x) % p;
            let ry = (y * y) % p;
            assert(rx + ry == p);
            lemma_fundamental_div_mod(x * x, p);
            lemma_fundamental_div_mod(y * y, p);
            let k = (x * x) / p + (y * y) / p + 1;
            assert(x * x + y * y == k * p) by (nonlinear_arith)
                requires
                    x * x == p * ((x * x) / p) + rx,
                    y * y == p * ((y * y) / p) + ry,
                    rx + ry == p,
                    k == (x * x) / p + (y * y) / p + 1,
            ;
            lemma_multiple_vanishes(x * x + y * y, k, p);
            lemma_sum_of_squares(p, x, y);
        }
    }
}

} // verus!
