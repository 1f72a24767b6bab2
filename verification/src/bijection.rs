//! The central property of a sequence: the round function, and with it the map from
//! positions to values, visits every number of the domain exactly once.

use crate::model::Config;
use crate::number_theory::{
    folded_square, lemma_folded_square_injective, lemma_prime_divides_factor,
};
use vstd::arithmetic::div_mod::{lemma_mod_bound, lemma_mod_equivalence, lemma_small_mod};
use vstd::prelude::*;
use vstd::relations::injective_on;
use vstd::set_lib::{lemma_int_range, lemma_map_size, lemma_subset_equality, set_int_range};

verus! {

/// `f` maps the numbers `0..=max` into `0..=max`, and no two of them to the same number.
pub open spec fn is_injection_on_domain(f: spec_fn(int) -> int, max: int) -> bool {
    &&& forall|x: int| 0 <= x <= max ==> 0 <= #[trigger] f(x) <= max
    &&& forall|x: int, y: int|
        0 <= x <= max && 0 <= y <= max && #[trigger] f(x) == #[trigger] f(y) ==> x == y
}

/// Some number of `0..=max` is mapped to `y`.
pub open spec fn is_reached(f: spec_fn(int) -> int, max: int, y: int) -> bool {
    exists|x: int| 0 <= x <= max && #[trigger] f(x) == y
}

/// `f` maps the numbers `0..=max` one-to-one onto themselves: into the domain, no two to
/// the same number, every number of the domain reached, so that the set of its values
/// on the domain is the domain, with `max + 1` members.
pub open spec fn is_bijection_on_domain(f: spec_fn(int) -> int, max: int) -> bool {
    &&& is_injection_on_domain(f, max)
    &&& forall|y: int| 0 <= y <= max ==> #[trigger] is_reached(f, max, y)
    &&& set_int_range(0, max + 1).map(f) == set_int_range(0, max + 1)
    &&& set_int_range(0, max + 1).map(f).len() == max + 1
}

/// A map of `0..=max` into itself that sends no two numbers to the same number reaches
/// every number of the domain.
pub proof fn lemma_injection_is_bijection(f: spec_fn(int) -> int, max: int)
    requires
        0 <= max,
        is_injection_on_domain(f, max),
    ensures
        is_bijection_on_domain(f, max),
{
    let domain = set_int_range(0, max + 1);
    let image = domain.map(f);
    lemma_int_range(0, max + 1);
    assert(injective_on(f, domain));
    lemma_map_size(domain, image, f);
    assert(image.subset_of(domain));
    lemma_subset_equality(image, domain);
    assert forall|y: int| 0 <= y <= max implies #[trigger] is_reached(f, max, y) by {
        assert(image.contains(y));
        let x = choose|x: int| domain.contains(x) && y == f(x);
        assert(0 <= x <= max && f(x) == y);
    }
}

/// Shifting with wrap-around at the end of the domain keeps two different numbers of
/// the domain apart, and keeps every number in the domain.
pub proof fn lemma_modulo_add_injective(c: Config, x: int, y: int, shift: int)
    requires
        0 <= c.max,
        0 <= x <= c.max,
        0 <= y <= c.max,
        c.modulo_add(x, shift) == c.modulo_add(y, shift),
    ensures
        x == y,
{
    let m = c.max + 1;
    lemma_mod_equivalence(x + shift, y + shift, m);
    lemma_mod_equivalence(y + shift, x + shift, m);
    if x > y {
        lemma_small_mod((x - y) as nat, m as nat);
    } else if y > x {
        lemma_small_mod((y - x) as nat, m as nat);
    }
}

/// Modulo a suitable boundary, the folded square of a number in `2..prime` lies in
/// `2..prime` again.
proof fn lemma_folded_square_in_range(c: Config, x: int)
    requires
        c.valid(),
        c.max >= 3,
        2 <= x < c.prime,
    ensures
        2 <= folded_square(c.prime, x) < c.prime,
{
    let p = c.prime;
    lemma_mod_bound(x * x, p);
    if (x * x) % p == 0 {
        lemma_prime_divides_factor(p, x, x);
        lemma_small_mod(x as nat, p as nat);
    }
    assert(folded_square(p, 0) == 0) by {
        assert(0int * 0int == 0);
        lemma_small_mod(0, p as nat);
    }
    assert(folded_square(p, 1) == 1) by {
        assert(1int * 1int == 1);
        lemma_small_mod(1, p as nat);
    }
    if folded_square(p, x) == 0 {
        lemma_folded_square_injective(p, x, 0);
    }
    if folded_square(p, x) == 1 {
        lemma_folded_square_injective(p, x, 1);
    }
}

impl Config {
    /// The round function keeps every number of the domain in the domain.
    pub proof fn lemma_permute_qpr_in_domain(self, x: int)
        requires
            self.valid(),
            0 <= x <= self.max,
        ensures
            0 <= self.permute_qpr(x) <= self.max,
    {
        if self.max >= 3 && 2 <= x < self.prime {
            lemma_folded_square_in_range(self, x);
        }
    }

    /// The round function sends no two numbers of the domain to the same number.
    pub proof fn lemma_permute_qpr_injective(self, x: int, y: int)
        requires
            self.valid(),
            0 <= x <= self.max,
            0 <= y <= self.max,
            self.permute_qpr(x) == self.permute_qpr(y),
        ensures
            x == y,
    {
        if self.max >= 3 {
            if 2 <= x < self.prime {
                lemma_folded_square_in_range(self, x);
            }
            if 2 <= y < self.prime {
                lemma_folded_square_in_range(self, y);
            }
            if 2 <= x < self.prime && 2 <= y < self.prime {
                lemma_folded_square_injective(self.prime, x, y);
            }
        }
    }

    /// For every valid configuration the round function is a bijection of the domain
    /// `0..=max`: its values on the domain are `max + 1` distinct numbers, none missing.
    pub proof fn lemma_permute_qpr_is_bijection(self)
        requires
            self.valid(),
        ensures
            is_bijection_on_domain(|x: int| self.permute_qpr(x), self.max),
    {
        let f = |x: int| self.permute_qpr(x);
        assert forall|x: int| 0 <= x <= self.max implies 0 <= #[trigger] f(x) <= self.max by {
            self.lemma_permute_qpr_in_domain(x);
        }
        assert forall|x: int, y: int|
            0 <= x <= self.max && 0 <= y <= self.max && #[trigger] f(x) == #[trigger] f(
                y,
            ) implies x == y by {
            self.lemma_permute_qpr_injective(x, y);
        }
        lemma_injection_is_bijection(f, self.max);
    }

    /// The value at an absolute position lies in the domain.
    pub proof fn lemma_n_internal_in_domain(self, index: int)
        requires
            self.valid(),
            0 <= index,
        ensures
            0 <= self.n_internal(index) <= self.max,
    {
        let m = self.max + 1;
        let shifted = self.modulo_add(index, self.intermediate_b);
        lemma_mod_bound(index + self.intermediate_b, m);
        self.lemma_permute_qpr_in_domain(shifted);
        let inner = self.permute_qpr(shifted);
        lemma_mod_bound(inner + self.intermediate_a, m);
        self.lemma_permute_qpr_in_domain(self.modulo_add(inner, self.intermediate_a));
    }

    /// Two absolute positions of the domain with the same value are the same position.
    pub proof fn lemma_n_internal_injective(self, i: int, j: int)
        requires
            self.valid(),
            0 <= i <= self.max,
            0 <= j <= self.max,
            self.n_internal(i) == self.n_internal(j),
        ensures
            i == j,
    {
        let m = self.max + 1;
        let si = self.modulo_add(i, self.intermediate_b);
        let sj = self.modulo_add(j, self.intermediate_b);
        lemma_mod_bound(i + self.intermediate_b, m);
        lemma_mod_bound(j + self.intermediate_b, m);
        let qi = self.permute_qpr(si);
        let qj = self.permute_qpr(sj);
        self.lemma_permute_qpr_in_domain(si);
        self.lemma_permute_qpr_in_domain(sj);
        let ti = self.modulo_add(qi, self.intermediate_a);
        let tj = self.modulo_add(qj, self.intermediate_a);
        lemma_mod_bound(qi + self.intermediate_a, m);
        lemma_mod_bound(qj + self.intermediate_a, m);
        self.lemma_permute_qpr_injective(ti, tj);
        lemma_modulo_add_injective(self, qi, qj, self.intermediate_a);
        self.lemma_permute_qpr_injective(si, sj);
        lemma_modulo_add_injective(self, i, j, self.intermediate_b);
    }

    /// For every valid configuration and every start, the positions `0..=max` carry
    /// `max + 1` distinct values of the domain: the sequence visits every number of the
    /// domain exactly once.
    pub proof fn lemma_n_is_bijection(self, start: int)
        requires
            self.valid(),
            0 <= start,
        ensures
            is_bijection_on_domain(|index: int| self.n(start, index), self.max),
    {
        let f = |index: int| self.n(start, index);
        let m = self.max + 1;
        assert forall|x: int| 0 <= x <= self.max implies 0 <= #[trigger] f(x) <= self.max by {
            lemma_mod_bound(start + x, m);
            self.lemma_n_internal_in_domain(self.modulo_add(start, x));
        }
        assert forall|x: int, y: int|
            0 <= x <= self.max && 0 <= y <= self.max && #[trigger] f(x) == #[trigger] f(
                y,
            ) implies x == y by {
            lemma_mod_bound(start + x, m);
            lemma_mod_bound(start + y, m);
            self.lemma_n_internal_injective(self.modulo_add(start, x), self.modulo_add(start, y));
            lemma_modulo_add_injective(self, x, y, start);
        }
        lemma_injection_is_bijection(f, self.max);
    }
}

} // verus!
