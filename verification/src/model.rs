//! The mathematical model of a sequence: its parameters as unbounded integers, the round
//! function over them, and the value at each position.

use crate::number_theory::folded_square;
use crate::primes::is_suitable_prime;
use vstd::prelude::*;

verus! {

/// The parameters of a sequence as plain numbers, together with the largest number of
/// the integer width they are stored in.
pub struct Config {
    pub seed: int,
    pub prime: int,
    pub max: int,
    pub intermediate_a: int,
    pub intermediate_b: int,
    pub limit: int,
}

impl Config {
    /// Every parameter fits the integer width.
    pub open spec fn in_range(self) -> bool {
        &&& 0 <= self.seed <= self.limit
        &&& 0 <= self.prime <= self.limit
        &&& 0 <= self.max <= self.limit
        &&& 0 <= self.intermediate_a <= self.limit
        &&& 0 <= self.intermediate_b <= self.limit
    }

    /// The round function never divides by zero: a domain of more than one value has a
    /// non-zero boundary.
    pub open spec fn can_permute(self) -> bool {
        self.max > 0 ==> self.prime > 0
    }

    /// The boundary suits the domain: for a domain `0..=max` with `max` of at most 2 it
    /// is `max` itself, otherwise it is a prime congruent to 3 modulo 4 within `3..=max`.
    pub open spec fn valid(self) -> bool {
        &&& self.in_range()
        &&& if self.max <= 2 {
            self.prime == self.max
        } else {
            3 <= self.prime <= self.max && is_suitable_prime(self.prime)
        }
    }

    /// The round function. Values from the boundary upward map to themselves, except that
    /// the boundary and `max` change places when `intermediate_b` is even; 0 and 1 change
    /// places when the seed is odd (in a domain of a single value both map to 0); every
    /// other value maps to its folded square modulo the boundary.
    pub open spec fn permute_qpr(self, x: int) -> int {
        if x >= self.prime && self.prime > 1 {
            if self.intermediate_b % 2 == 0 && x == self.prime {
                self.max
            } else if self.intermediate_b % 2 == 0 && x == self.max {
                self.prime
            } else {
                x
            }
        } else if x <= 1 {
            if self.max > 0 {
                (x + self.seed) % 2
            } else {
                0
            }
        } else {
            folded_square(self.prime, x)
        }
    }

    /// Addition that wraps around at the end of the domain `0..=max`.
    pub open spec fn modulo_add(self, x: int, y: int) -> int {
        (x + y) % (self.max + 1)
    }

    /// The value at an absolute position: the round function applied twice, each time
    /// after shifting by one of the two noise terms within the domain.
    pub open spec fn n_internal(self, index: int) -> int {
        self.permute_qpr(
            self.modulo_add(
                self.permute_qpr(self.modulo_add(index, self.intermediate_b)),
                self.intermediate_a,
            ),
        )
    }

    /// The absolute position at which a sequence starts: 0 for a domain of a single
    /// value, otherwise the round function applied to the seed, shifted by
    /// `intermediate_b` with wrap-around at the integer width, and applied again.
    pub open spec fn start_index(self) -> int {
        if self.max > 0 {
            self.permute_qpr((self.permute_qpr(self.seed) + self.intermediate_b) % (self.limit + 1))
        } else {
            0
        }
    }

    /// The value at the logical position `index`, counted from the start of the sequence.
    pub open spec fn n(self, start: int, index: int) -> int {
        self.n_internal(self.modulo_add(start, index))
    }
}

/// The state of a cursor as plain numbers.
pub struct Cursor {
    pub config: Config,
    pub start_index: int,
    pub current_index: int,
    pub ended: bool,
}

impl Cursor {
    /// The cursor's numbers fit the integer width.
    pub open spec fn in_range(self) -> bool {
        &&& self.config.in_range()
        &&& 0 <= self.start_index <= self.config.limit
        &&& 0 <= self.current_index <= self.config.limit
    }

    /// The cursor's numbers fit the integer width and its round function is usable.
    pub open spec fn wf(self) -> bool {
        self.in_range() && self.config.can_permute()
    }

    /// The value at logical position `index`.
    pub open spec fn n(self, index: int) -> int {
        self.config.n(self.start_index, index)
    }

    /// The cursor moved to `index`, with the given end marker.
    pub open spec fn moved(self, index: int, ended: bool) -> Cursor {
        Cursor { current_index: index, ended: ended, ..self }
    }

    /// The domain is the whole of an integer width that is at least as wide as the
    /// counter of a length (`usize`): such a sequence has no representable length, so
    /// its cursor cycles and never ends.
    pub open spec fn cycles(self) -> bool {
        self.config.max == self.config.limit && self.config.limit >= usize::MAX
    }

    /// The cursor has nothing more to produce by bounded forward steps: it stands past
    /// `max`, or, where `max` is the largest number of the width and no position lies
    /// past it, on `max` with the end marker set. A cycling cursor is never exhausted.
    pub open spec fn exhausted(self) -> bool {
        &&& !self.cycles()
        &&& (self.current_index > self.config.max || (self.current_index == self.config.max
            && self.config.max == self.config.limit && self.ended))
    }

    /// The value a bounded forward step produces, if any: the value at the current
    /// position, unless the cursor is exhausted.
    pub open spec fn next_value(self) -> Option<int> {
        if self.exhausted() {
            None
        } else {
            Some(self.n(self.current_index))
        }
    }

    /// The cursor after a bounded forward step.
    ///
    /// A cycling cursor advances by one, wraps to 0 after the largest number of the
    /// width, and clears the end marker. Any other cursor advances by one as long as it
    /// has a value to produce: below `max` the end marker is cleared, and the step from
    /// `max` to `max + 1` sets it. Only where `max` is the largest number of the width
    /// does the step at `max` leave the position and set the marker alone. An exhausted
    /// cursor does not change.
    pub open spec fn after_next(self) -> Cursor {
        if self.cycles() {
            if self.current_index >= self.config.limit {
                self.moved(0, false)
            } else {
                self.moved(self.current_index + 1, false)
            }
        } else if self.current_index < self.config.max {
            self.moved(self.current_index + 1, false)
        } else if self.current_index > self.config.max {
            self
        } else if self.config.max < self.config.limit {
            self.moved(self.current_index + 1, true)
        } else {
            self.moved(self.current_index, true)
        }
    }

    /// The value a bounded backward step produces, if any: none only at position 0.
    pub open spec fn prev_value(self) -> Option<int> {
        if self.current_index == 0 {
            None
        } else {
            Some(self.n(self.current_index - 1))
        }
    }

    /// The cursor after a bounded backward step. At position 0 nothing changes;
    /// otherwise the position retreats by one and the end marker is cleared.
    pub open spec fn after_prev(self) -> Cursor {
        if self.current_index == 0 {
            self
        } else {
            self.moved(self.current_index - 1, false)
        }
    }

    /// The cursor after a wrapping forward step: the position advances by one and wraps
    /// to 0 after the largest number of the integer width. The end marker is untouched.
    pub open spec fn after_wrapping_next(self) -> Cursor {
        if self.current_index >= self.config.limit {
            self.moved(0, self.ended)
        } else {
            self.moved(self.current_index + 1, self.ended)
        }
    }

    /// The cursor after a wrapping backward step: the position retreats by one and
    /// wraps from 0 to the largest number of the integer width. The end marker is
    /// untouched.
    pub open spec fn after_wrapping_prev(self) -> Cursor {
        if self.current_index <= 0 {
            self.moved(self.config.limit, self.ended)
        } else {
            self.moved(self.current_index - 1, self.ended)
        }
    }
}

} // verus!
