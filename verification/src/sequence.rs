//! The cursor over a sequence: stepping forward and backward, and direct lookup of the
//! value at a position.

use crate::builder::RandomSequenceBuilder;
use crate::model::Cursor;
use crate::residue::QuadraticResidue;
use vstd::prelude::*;

verus! {

/// The number an optional value stands for.
pub open spec fn value_of<T: QuadraticResidue>(item: Option<T>) -> Option<int> {
    match item {
        Some(v) => Some(v.value()),
        None => None,
    }
}

/// Generate a deterministic pseudo-random sequence of unique numbers.
///
/// Not cryptographically secure.
///
/// Properties:
/// - The sequence is deterministic and repeatable.
/// - The sequence will only include each number once (every index is unique).
/// - Computing the value for any random index in the sequence is an O(1) operation.
#[derive(Debug, Clone)]
pub struct RandomSequence<T: QuadraticResidue> {
    /// The config/builder holds the parameters that define the sequence.
    pub config: RandomSequenceBuilder<T>,
    /// The absolute position the sequence starts at.
    pub start_index: T,
    /// The logical position of the cursor, counted from the start.
    pub current_index: T,
    /// The end marker: set once the last value of the domain has been produced.
    pub ended: bool,
}

impl<T: QuadraticResidue> View for RandomSequence<T> {
    type V = Cursor;

    open spec fn view(&self) -> Cursor {
        Cursor {
            config: self.config@,
            start_index: self.start_index.value(),
            current_index: self.current_index.value(),
            ended: self.ended,
        }
    }
}

impl<T: QuadraticResidue> RandomSequence<T> {
    /// Every number of a cursor fits its integer width.
    pub proof fn lemma_in_range(&self)
        ensures
            self@.in_range(),
    {
        self.config.lemma_in_range();
        self.start_index.lemma_value_in_range();
        self.current_index.lemma_value_in_range();
    }

    /// Initialise a random sequence from a seed, over the whole integer width.
    pub fn seed(seed: u64) -> (r: Self)
        ensures
            r@ == (Cursor {
                config: RandomSequenceBuilder::<T>::seeded(seed),
                start_index: RandomSequenceBuilder::<T>::seeded(seed).start_index(),
                current_index: 0,
                ended: false,
            }),
            r@.config.valid(),
            r@.wf(),
    {
        let config = RandomSequenceBuilder::<T>::seed(seed);
        config.into_iter()
    }

    /// Get the next element in the sequence: the value at the current position, after
    /// which the cursor advances by one. Once the value at `max` has been produced the
    /// cursor stands past the domain with the end marker set, and produces nothing
    /// until it moves back. A cursor over a whole width that is as wide as a length's
    /// counter wraps around instead and never ends.
    pub fn next(&mut self) -> (r: Option<T>)
        requires
            old(self)@.config.can_permute(),
        ensures
            value_of(r) == old(self)@.next_value(),
            final(self)@ == old(self)@.after_next(),
            final(self)@.wf(),
    {
        let current: u64 = self.current_index.widen();
        let max: u64 = self.config.max.widen();
        let top: u64 = T::top().widen();
        proof {
            T::lemma_limit_in_range();
            self.lemma_in_range();
        }
        if max == top && top >= usize::MAX as u64 {
            let next = self.n(self.current_index);
            if current == top {
                self.current_index = T::truncate(0);
            } else {
                proof {
                    vstd::arithmetic::div_mod::lemma_small_mod(
                        (current + 1) as nat,
                        (T::limit() + 1) as nat,
                    );
                }
                self.current_index = T::truncate(current + 1);
            }
            self.ended = false;
            Some(next)
        } else if current > max {
            None
        } else if current < max || max < top {
            let next = self.n(self.current_index);
            proof {
                vstd::arithmetic::div_mod::lemma_small_mod(
                    (current + 1) as nat,
                    (T::limit() + 1) as nat,
                );
            }
            self.current_index = T::truncate(current + 1);
            self.ended = current == max;
            Some(next)
        } else if !self.ended {
            let next = self.n(self.current_index);
            self.ended = true;
            Some(next)
        } else {
            None
        }
    }

    /// The number of values that bounded forward steps still produce, where the cursor
    /// ends and the number fits a length; nothing for a cursor that cycles.
    pub fn remaining(&self) -> (r: Option<usize>)
        ensures
            r == if !self@.cycles() && self@.remaining() <= usize::MAX {
                Some(self@.remaining() as usize)
            } else {
                None
            },
    {
        let current: u64 = self.current_index.widen();
        let max: u64 = self.config.max.widen();
        let top: u64 = T::top().widen();
        let longest: u64 = usize::MAX as u64;
        proof {
            T::lemma_limit_in_range();
            self.lemma_in_range();
        }
        if max == top && top >= longest {
            None
        } else if current > max || (current == max && max == top && self.ended) {
            Some(0)
        } else {
            let count: u64 = max - current + 1;
            if count <= longest {
                Some(count as usize)
            } else {
                None
            }
        }
    }

    /// Get the next element in the sequence, cycling the sequence once we reach the end
    /// of the integer width.
    ///
    /// This ignores the end marker.
    pub fn wrapping_next(&mut self) -> (r: T)
        requires
            old(self)@.config.can_permute(),
        ensures
            r.value() == old(self)@.n(old(self)@.current_index),
            final(self)@ == old(self)@.after_wrapping_next(),
            final(self)@.wf(),
    {
        let next = self.n(self.current_index);
        let current: u64 = self.current_index.widen();
        let top: u64 = T::top().widen();
        proof {
            T::lemma_limit_in_range();
            self.lemma_in_range();
        }
        if current == top {
            self.current_index = T::truncate(0);
        } else {
            proof {
                vstd::arithmetic::div_mod::lemma_small_mod(
                    (current + 1) as nat,
                    (T::limit() + 1) as nat,
                );
            }
            self.current_index = T::truncate(current + 1);
        }
        next
    }

    /// Get the previous element in the sequence: retreats by one position and produces
    /// the value there. At position 0 nothing is produced and nothing changes.
    pub fn prev(&mut self) -> (r: Option<T>)
        requires
            old(self)@.config.can_permute(),
        ensures
            value_of(r) == old(self)@.prev_value(),
            final(self)@ == old(self)@.after_prev(),
            final(self)@.wf(),
    {
        // decrement then compute, opposite to next()
        let current: u64 = self.current_index.widen();
        proof {
            T::lemma_limit_in_range();
            self.lemma_in_range();
        }
        if current == 0 {
            return None;
        }
        proof {
            vstd::arithmetic::div_mod::lemma_small_mod(
                (current - 1) as nat,
                (T::limit() + 1) as nat,
            );
        }
        self.current_index = T::truncate(current - 1);
        self.ended = false;
        Some(self.n(self.current_index))
    }

    /// Get the previous element in the sequence, cycling the sequence once we reach the
    /// start.
    pub fn wrapping_prev(&mut self) -> (r: T)
        requires
            old(self)@.config.can_permute(),
        ensures
            final(self)@ == old(self)@.after_wrapping_prev(),
            r.value() == old(self)@.n(final(self)@.current_index),
            final(self)@.wf(),
    {
        // decrement then compute, opposite to next()
        let current: u64 = self.current_index.widen();
        proof {
            T::lemma_limit_in_range();
            self.lemma_in_range();
        }
        if current == 0 {
            self.current_index = T::top();
        } else {
            proof {
                vstd::arithmetic::div_mod::lemma_small_mod(
                    (current - 1) as nat,
                    (T::limit() + 1) as nat,
                );
            }
            self.current_index = T::truncate(current - 1);
        }
        self.n(self.current_index)
    }

    /// Get the nth element in the sequence.
    pub fn n(&self, index: T) -> (r: T)
        requires
            self@.config.can_permute(),
        ensures
            r.value() == self@.n(index.value()),
    {
        let actual_index = self.start_index.modulo_add(index, self.config.max);
        self.n_internal(actual_index)
    }

    /// Get the nth element in the sequence, but using the absolute index rather than
    /// relative to `start_index`.
    ///
    /// `qpr(qpr(index + intermediate_b) + intermediate_a)`, each sum within the domain.
    fn n_internal(&self, index: T) -> (r: T)
        requires
            self@.config.can_permute(),
        ensures
            r.value() == self@.config.n_internal(index.value()),
    {
        let max = self.config.max;
        proof {
            self.lemma_in_range();
            index.lemma_value_in_range();
        }
        let shifted = index.modulo_add(self.config.intermediate_b, max);
        let inner_residue = self.config.permute_qpr(shifted);
        proof {
            inner_residue.lemma_value_in_range();
        }
        let mixed = inner_residue.modulo_add(self.config.intermediate_a, max);
        self.config.permute_qpr(mixed)
    }

    /// Collect up to `count` values by bounded forward steps, stopping early once the
    /// cursor produces nothing more: the result holds `count` values, or all that
    /// remained where those are fewer.
    pub fn take(&mut self, count: usize) -> (values: Vec<T>)
        requires
            old(self)@.config.can_permute(),
        ensures
            values.len() == if old(self)@.cycles() || count <= old(self)@.remaining() {
                count as int
            } else {
                old(self)@.remaining()
            },
            final(self)@ == old(self)@.after_nexts(values.len() as nat),
            final(self)@.wf(),
            forall|i: int|
                0 <= i < values.len() ==> old(self)@.after_nexts(i as nat).next_value() == Some(
                    #[trigger] values[i].value(),
                ),
            values.len() < count ==> final(self)@.next_value().is_none(),
    {
        let mut values: Vec<T> = Vec::new();
        let mut exhausted: bool = false;
        proof {
            self.lemma_in_range();
        }
        while values.len() < count && !exhausted
            invariant
                self@.wf(),
                values.len() <= count,
                self@ == old(self)@.after_nexts(values.len() as nat),
                forall|i: int|
                    0 <= i < values.len() ==> old(self)@.after_nexts(i as nat).next_value()
                        == Some(#[trigger] values[i].value()),
                exhausted ==> self@.next_value().is_none(),
            decreases count - values.len() + (if exhausted { 0int } else { 1int }),
        {
            match self.next() {
                Some(v) => {
                    values.push(v);
                },
                None => {
                    exhausted = true;
                },
            }
        }
        proof {
            let taken = values.len() as nat;
            old(self).lemma_in_range();
            if old(self)@.cycles() {
                old(self)@.lemma_cycling_never_ends(taken);
            } else {
                old(self)@.lemma_produces_while_remaining(taken);
            }
            if taken > 0 && !old(self)@.cycles() {
                old(self)@.lemma_produces_while_remaining((taken - 1) as nat);
                assert(old(self)@.after_nexts((taken - 1) as nat).next_value() == Some(
                    values[taken - 1].value(),
                ));
            }
        }
        values
    }

    /// Get the current position in the sequence.
    pub fn index(&self) -> (r: T)
        ensures
            r.value() == self@.current_index,
    {
        self.current_index
    }
}

} // verus!
