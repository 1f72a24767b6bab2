//! Slices read in the order of a sequence: a view of a slice whose element at each
//! position is the element of the slice that the sequence gives for that position.

use crate::builder::RandomSequenceBuilder;
use crate::model::{Config, Cursor};
use crate::primes::suitable_prime;
use crate::sequence::RandomSequence;
use vstd::prelude::*;

verus! {

/// The cursor at the start of the sequence that `builder` gives over the positions of
/// `len` elements.
pub open spec fn cursor_over(builder: Config, len: int) -> Cursor {
    let config = Config { max: len - 1, prime: suitable_prime(len - 1), ..builder };
    Cursor { config: config, start_index: config.start_index(), current_index: 0, ended: false }
}

/// Slices that can be read in a seeded random order.
pub trait PermuteSlice<'a, T> {
    /// The elements to be permuted.
    spec fn elements(&self) -> Seq<T>;

    /// Randomly permute a slice with a specific seed, returning a [PermutedSlice].
    fn permute_with_seed(&'a self, seed: u64) -> (r: PermutedSlice<'a, T>)
        requires
            self.elements().len() > 0,
        ensures
            r.slice@ == self.elements(),
            r.sequence@ == cursor_over(RandomSequenceBuilder::<usize>::seeded(seed), r.slice@.len() as int),
            r.wf(),
    ;

    /// Randomly permute a slice with a specific seed, returning a [PermutedSliceMut].
    fn permute_mut_with_seed(&'a self, seed: u64) -> (r: PermutedSliceMut<'a, T>)
        requires
            self.elements().len() > 0,
        ensures
            r.slice@ == self.elements(),
            r.sequence@ == cursor_over(RandomSequenceBuilder::<usize>::seeded(seed), r.slice@.len() as int),
    ;
}

/// A slice together with the sequence that orders its positions.
#[derive(Debug, Clone)]
pub struct PermutedSlice<'a, T> {
    pub slice: &'a [T],
    pub sequence: RandomSequence<usize>,
}

/// A slice together with the sequence that orders its positions.
#[derive(Debug, Clone)]
pub struct PermutedSliceMut<'a, T> {
    pub slice: &'a [T],
    pub sequence: RandomSequence<usize>,
}

/// A cursor over the elements of a slice in the order of a sequence.
#[derive(Debug, Clone)]
pub struct PermutedSliceIterator<'a, T> {
    pub slice: &'a [T],
    pub sequence: RandomSequence<usize>,
}

/// The sequence's domain is the positions of the slice.
pub open spec fn covers<T>(slice: &[T], sequence: RandomSequence<usize>) -> bool {
    &&& slice@.len() > 0
    &&& sequence@.config.valid()
    &&& sequence@.config.max == slice@.len() - 1
}

fn permute_inner<T>(slice: &[T], builder: RandomSequenceBuilder<usize>) -> (r: PermutedSlice<'_, T>)
    requires
        slice@.len() > 0,
    ensures
        r.slice == slice,
        r.sequence@ == cursor_over(builder@, slice@.len() as int),
        r.wf(),
{
    let sequence = builder.with_max(slice.len() - 1).into_iter();
    PermutedSlice { slice, sequence }
}

fn permute_mut_inner<T>(slice: &[T], builder: RandomSequenceBuilder<usize>) -> (r:
    PermutedSliceMut<'_, T>)
    requires
        slice@.len() > 0,
    ensures
        r.slice == slice,
        r.sequence@ == cursor_over(builder@, slice@.len() as int),
{
    let sequence = builder.with_max(slice.len() - 1).into_iter();
    PermutedSliceMut { slice, sequence }
}

impl<'a, T> PermuteSlice<'a, T> for &'a [T] {
    open spec fn elements(&self) -> Seq<T> {
        (*self)@
    }

    fn permute_with_seed(&'a self, seed: u64) -> (r: PermutedSlice<'a, T>) {
        permute_inner(self, RandomSequenceBuilder::<usize>::seed(seed))
    }

    fn permute_mut_with_seed(&'a self, seed: u64) -> (r: PermutedSliceMut<'a, T>) {
        permute_mut_inner(self, RandomSequenceBuilder::<usize>::seed(seed))
    }
}

impl<'a, T> PermutedSlice<'a, T> {
    /// The sequence's domain is the positions of the slice.
    pub open spec fn wf(&self) -> bool {
        covers(self.slice, self.sequence)
    }

    /// The element at a position of the permuted order: the element of the slice at
    /// the position that the sequence gives.
    pub fn get(&self, index: usize) -> (r: Option<&T>)
        requires
            self.wf(),
        ensures
            0 <= self.sequence@.n(index as int) < self.slice@.len(),
            r == Some(&self.slice@[self.sequence@.n(index as int)]),
    {
        proof {
            self.sequence.lemma_in_range();
            lemma_position_in_slice(self.sequence@, index as int);
        }
        let position = self.sequence.n(index);
        Some(&self.slice[position])
    }

    /// Read the elements in the permuted order, from the start of the sequence.
    pub fn into_iter(self) -> (r: PermutedSliceIterator<'a, T>)
        requires
            self.wf(),
        ensures
            r.slice == self.slice,
            r.sequence@ == (Cursor {
                config: self.sequence@.config,
                start_index: self.sequence@.config.start_index(),
                current_index: 0,
                ended: false,
            }),
            r.wf(),
    {
        PermutedSliceIterator { slice: self.slice, sequence: self.sequence.config.into_iter() }
    }
}

/// Every position that a sequence over a slice gives is a position of the slice.
proof fn lemma_position_in_slice(cursor: Cursor, index: int)
    requires
        cursor.config.valid(),
        cursor.in_range(),
        0 <= index,
    ensures
        0 <= cursor.n(index) <= cursor.config.max,
{
    vstd::arithmetic::div_mod::lemma_mod_bound(
        cursor.start_index + index,
        cursor.config.max + 1,
    );
    cursor.config.lemma_n_internal_in_domain(cursor.config.modulo_add(cursor.start_index, index));
}

impl<'a, T> PermutedSliceIterator<'a, T> {
    /// The sequence's domain is the positions of the slice.
    pub open spec fn wf(&self) -> bool {
        covers(self.slice, self.sequence)
    }

    /// The next element in the permuted order, as long as the cursor stands on a
    /// position of the slice and the sequence produces a position.
    pub fn next(&mut self) -> (r: Option<&'a T>)
        requires
            old(self).wf(),
        ensures
            final(self).wf(),
            final(self).slice == old(self).slice,
            old(self).sequence@.current_index >= old(self).slice@.len() ==> r.is_none()
                && final(self).sequence@ == old(self).sequence@,
            old(self).sequence@.current_index < old(self).slice@.len() ==> final(self).sequence@
                == old(self).sequence@.after_next() && match old(self).sequence@.next_value() {
                Some(position) => 0 <= position < old(self).slice@.len() && r == Some(
                    &old(self).slice@[position],
                ),
                None => r.is_none(),
            },
    {
        proof {
            self.sequence.lemma_in_range();
            lemma_position_in_slice(self.sequence@, self.sequence@.current_index);
        }
        if self.sequence.index() >= self.slice.len() {
            return None;
        }
        match self.sequence.next() {
            Some(index) => Some(&self.slice[index]),
            None => None,
        }
    }
}

} // verus!
