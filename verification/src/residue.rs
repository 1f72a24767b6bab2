//! The integer widths a sequence can be built over, and their overflow-free modular
//! arithmetic.

use vstd::prelude::*;

verus! {

/// An unsigned integer width with the modular operations the permutation needs. Every
/// intermediate product or sum is formed in a type twice as wide, so none overflows.
pub trait QuadraticResidue: Copy + Sized {
    /// The number this value stands for.
    spec fn value(self) -> int;

    /// The largest number the width can hold.
    spec fn limit() -> int;

    /// Every value lies in `0..=limit()`.
    proof fn lemma_value_in_range(self)
        ensures
            0 <= self.value() <= Self::limit(),
    ;

    /// The width holds at least a byte and at most 64 bits.
    proof fn lemma_limit_in_range()
        ensures
            255 <= Self::limit() <= u64::MAX,
    ;

    /// Two values that stand for the same number are the same value.
    proof fn lemma_value_injective(a: Self, b: Self)
        requires
            a.value() == b.value(),
        ensures
            a == b,
    ;

    /// The value as a 64-bit integer.
    fn widen(self) -> (r: u64)
        ensures
            r as int == self.value(),
    ;

    /// The largest value of the width.
    fn top() -> (r: Self)
        ensures
            r.value() == Self::limit(),
    ;

    /// The low bits of `n` that fit the width: `n` reduced modulo `limit() + 1`.
    fn truncate(n: u64) -> (r: Self)
        ensures
            r.value() == (n as int) % (Self::limit() + 1),
    ;

    /// Compute the quadratic residue of this integer against a prime: `self * self`
    /// reduced modulo `prime`.
    fn residue(self, prime: Self) -> (r: Self)
        requires
            prime.value() > 0,
        ensures
            r.value() == (self.value() * self.value()) % prime.value(),
    ;

    /// Perform safe modular addition, avoiding overflow: `self + b` reduced modulo
    /// `modulo + 1`, so that the result lies in `0..=modulo`.
    fn modulo_add(self, b: Self, modulo: Self) -> (r: Self)
        ensures
            r.value() == (self.value() + b.value()) % (modulo.value() + 1),
    ;
}

impl QuadraticResidue for u8 {
    fn top() -> (r: Self) {
        u8::MAX
    }

    open spec fn value(self) -> int {
        self as int
    }

    open spec fn limit() -> int {
        u8::MAX as int
    }

    proof fn lemma_value_in_range(self) {
    }

    proof fn lemma_limit_in_range() {
    }

    proof fn lemma_value_injective(a: Self, b: Self) {
    }

    fn widen(self) -> (r: u64) {
        self as u64
    }

    fn truncate(n: u64) -> (r: Self) {
        (n % 256) as u8
    }

    fn residue(self, prime: Self) -> (r: Self) {
        let wide: u16 = self as u16;
        assert(wide * wide <= 255 * 255) by (nonlinear_arith)
            requires
                wide <= 255,
        ;
        ((wide * wide) % (prime as u16)) as u8
    }

    fn modulo_add(self, b: Self, modulo: Self) -> (r: Self) {
        ((self as u16 + b as u16) % (modulo as u16 + 1)) as u8
    }
}

impl QuadraticResidue for u16 {
    fn top() -> (r: Self) {
        u16::MAX
    }

    open spec fn value(self) -> int {
        self as int
    }

    open spec fn limit() -> int {
        u16::MAX as int
    }

    proof fn lemma_value_in_range(self) {
    }

    proof fn lemma_limit_in_range() {
    }

    proof fn lemma_value_injective(a: Self, b: Self) {
    }

    fn widen(self) -> (r: u64) {
        self as u64
    }

    fn truncate(n: u64) -> (r: Self) {
        (n % 65536) as u16
    }

    fn residue(self, prime: Self) -> (r: Self) {
        let wide: u32 = self as u32;
        assert(wide * wide <= 65535 * 65535) by (nonlinear_arith)
            requires
                wide <= 65535,
        ;
        ((wide * wide) % (prime as u32)) as u16
    }

    fn modulo_add(self, b: Self, modulo: Self) -> (r: Self) {
        ((self as u32 + b as u32) % (modulo as u32 + 1)) as u16
    }
}

impl QuadraticResidue for u32 {
    fn top() -> (r: Self) {
        u32::MAX
    }

    open spec fn value(self) -> int {
        self as int
    }

    open spec fn limit() -> int {
        u32::MAX as int
    }

    proof fn lemma_value_in_range(self) {
    }

    proof fn lemma_limit_in_range() {
    }

    proof fn lemma_value_injective(a: Self, b: Self) {
    }

    fn widen(self) -> (r: u64) {
        self as u64
    }

    fn truncate(n: u64) -> (r: Self) {
        (n % 4294967296) as u32
    }

    fn residue(self, prime: Self) -> (r: Self) {
        let wide: u64 = self as u64;
        assert(wide * wide <= 4294967295 * 4294967295) by (nonlinear_arith)
            requires
                wide <= 4294967295,
        ;
        ((wide * wide) % (prime as u64)) as u32
    }

    fn modulo_add(self, b: Self, modulo: Self) -> (r: Self) {
        ((self as u64 + b as u64) % (modulo as u64 + 1)) as u32
    }
}

impl QuadraticResidue for u64 {
    fn top() -> (r: Self) {
        u64::MAX
    }

    open spec fn value(self) -> int {
        self as int
    }

    open spec fn limit() -> int {
        u64::MAX as int
    }

    proof fn lemma_value_in_range(self) {
    }

    proof fn lemma_limit_in_range() {
    }

    proof fn lemma_value_injective(a: Self, b: Self) {
    }

    fn widen(self) -> (r: u64) {
        self
    }

    fn truncate(n: u64) -> (r: Self) {
        proof {
            vstd::arithmetic::div_mod::lemma_small_mod(n as nat, 18446744073709551616);
        }
        n
    }

    fn residue(self, prime: Self) -> (r: Self) {
        let wide: u128 = self as u128;
        assert(wide * wide <= 18446744073709551615 * 18446744073709551615) by (nonlinear_arith)
            requires
                wide <= 18446744073709551615,
        ;
        ((wide * wide) % (prime as u128)) as u64
    }

    fn modulo_add(self, b: Self, modulo: Self) -> (r: Self) {
        ((self as u128 + b as u128) % (modulo as u128 + 1)) as u64
    }
}

impl QuadraticResidue for usize {
    fn top() -> (r: Self) {
        let r: usize = usize::MAX;
        // the width of `usize` is not fixed, so the prover is led through the equality
        assert(r as int == usize::MAX as int);
        assert(r.value() == r as int);
        assert(Self::limit() == usize::MAX as int);
        r
    }

    open spec fn value(self) -> int {
        self as int
    }

    open spec fn limit() -> int {
        usize::MAX as int
    }

    proof fn lemma_value_in_range(self) {
    }

    proof fn lemma_limit_in_range() {
    }

    proof fn lemma_value_injective(a: Self, b: Self) {
    }

    fn widen(self) -> (r: u64) {
        self as u64
    }

    fn truncate(n: u64) -> (r: Self) {
        let top: u64 = usize::MAX as u64;
        if top == u64::MAX {
            proof {
                vstd::arithmetic::div_mod::lemma_small_mod(n as nat, 18446744073709551616);
            }
            n as usize
        } else {
            (n % (top + 1)) as usize
        }
    }

    fn residue(self, prime: Self) -> (r: Self) {
        let wide: u128 = self as u128;
        assert(wide * wide <= 18446744073709551615 * 18446744073709551615) by (nonlinear_arith)
            requires
                wide <= 18446744073709551615,
        ;
        ((wide * wide) % (prime as u128)) as usize
    }

    fn modulo_add(self, b: Self, modulo: Self) -> (r: Self) {
        ((self as u128 + b as u128) % (modulo as u128 + 1)) as usize
    }
}

} // verus!
