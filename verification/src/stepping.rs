//! Laws of stepping a cursor: forward steps follow the positions in order, backward
//! steps undo forward steps, a bounded cursor stops after the last value, and a cursor
//! over a whole width as wide as a length's counter never stops.

use crate::model::Cursor;
use vstd::prelude::*;

verus! {

impl Cursor {
    /// The cursor stands at position 0 with the end marker clear, as a new cursor does.
    pub open spec fn at_start(self) -> bool {
        self.current_index == 0 && !self.ended
    }

    /// The number of values that bounded forward steps still produce on a cursor that
    /// does not cycle: one for every position from the current one up to `max`, and
    /// none for an exhausted cursor.
    pub open spec fn remaining(self) -> int {
        if self.current_index > self.config.max {
            0
        } else if self.current_index == self.config.max && self.config.max == self.config.limit
            && self.ended {
            0
        } else {
            self.config.max + 1 - self.current_index
        }
    }

    /// The cursor after `k` bounded forward steps.
    pub open spec fn after_nexts(self, k: nat) -> Cursor
        decreases k,
    {
        if k == 0 {
            self
        } else {
            self.after_nexts((k - 1) as nat).after_next()
        }
    }

    /// The cursor after `k` bounded backward steps.
    pub open spec fn after_prevs(self, k: nat) -> Cursor
        decreases k,
    {
        if k == 0 {
            self
        } else {
            self.after_prev().after_prevs((k - 1) as nat)
        }
    }

    /// The cursor after `k` wrapping forward steps.
    pub open spec fn after_wrapping_nexts(self, k: nat) -> Cursor
        decreases k,
    {
        if k == 0 {
            self
        } else {
            self.after_wrapping_nexts((k - 1) as nat).after_wrapping_next()
        }
    }

    /// The cursor after `k` wrapping backward steps.
    pub open spec fn after_wrapping_prevs(self, k: nat) -> Cursor
        decreases k,
    {
        if k == 0 {
            self
        } else {
            self.after_wrapping_prev().after_wrapping_prevs((k - 1) as nat)
        }
    }

    /// Bounded forward steps keep the configuration and the start of the sequence.
    pub proof fn lemma_nexts_keep_sequence(self, k: nat)
        ensures
            self.after_nexts(k).config == self.config,
            self.after_nexts(k).start_index == self.start_index,
        decreases k,
    {
        if k > 0 {
            self.lemma_nexts_keep_sequence((k - 1) as nat);
        }
    }

    /// Bounded steps below the end of the domain advance the position one by one.
    pub proof fn lemma_nexts_below_end(self, k: nat)
        requires
            0 <= self.current_index,
            self.current_index + k <= self.config.max,
            self.config.max <= self.config.limit,
        ensures
            self.after_nexts(k) == self.moved(
                self.current_index + k,
                if k > 0 {
                    false
                } else {
                    self.ended
                },
            ),
        decreases k,
    {
        if k > 0 {
            self.lemma_nexts_below_end((k - 1) as nat);
        }
    }

    /// Every forward step that produces a value advances the position by one: after `k`
    /// steps, each with a value to produce and none past the largest number of the
    /// width, the cursor stands `k` positions further, with the end marker set exactly
    /// if it has left the domain.
    pub proof fn lemma_nexts_advance(self, k: nat)
        requires
            self.in_range(),
            self.current_index + k <= self.config.limit,
            self.cycles() || k <= self.remaining(),
        ensures
            self.after_nexts(k) == self.moved(
                self.current_index + k,
                if k > 0 {
                    self.current_index + k > self.config.max
                } else {
                    self.ended
                },
            ),
        decreases k,
    {
        if k > 0 {
            self.lemma_nexts_advance((k - 1) as nat);
        }
    }

    /// Lookup agrees with stepping: after `k` bounded forward steps from the start, with
    /// `k` at most `max`, the cursor stands at position `k`, and the value it produces
    /// next is the value that direct lookup gives for position `k`.
    pub proof fn lemma_nexts_follow_lookup(self, k: nat)
        requires
            self.at_start(),
            k <= self.config.max <= self.config.limit,
        ensures
            self.after_nexts(k) == self.moved(k as int, false),
            self.after_nexts(k).next_value() == Some(self.n(k as int)),
    {
        self.lemma_nexts_below_end(k);
    }

    /// The position counts the steps: after `k` forward steps from the start that each
    /// produced a value, the cursor stands at position `k`. This holds past the last
    /// value too, up to the largest number of the width.
    pub proof fn lemma_index_counts_steps(self, k: nat)
        requires
            self.at_start(),
            self.in_range(),
            k <= self.config.limit,
            self.cycles() || k <= self.config.max + 1,
        ensures
            self.after_nexts(k).current_index == k,
    {
        self.lemma_nexts_advance(k);
    }

    /// Lookup agrees with wrapping steps: after `k` wrapping forward steps from the
    /// start, with `k` within the integer width, the cursor stands at position `k`, so
    /// that the next wrapping step produces the value that lookup gives for `k`.
    pub proof fn lemma_wrapping_nexts_follow_lookup(self, k: nat)
        requires
            self.current_index == 0,
            k <= self.config.limit,
        ensures
            self.after_wrapping_nexts(k) == self.moved(k as int, self.ended),
        decreases k,
    {
        if k > 0 {
            self.lemma_wrapping_nexts_follow_lookup((k - 1) as nat);
        }
    }

    /// A backward step produces the value that lookup gives for the position the cursor
    /// then stands at. Where that position lies in the domain, or the cursor cycles, a
    /// forward step from there produces the same value again.
    pub proof fn lemma_prev_produces_value_at_index(self)
        requires
            self.current_index > 0,
        ensures
            self.prev_value() == Some(self.n(self.after_prev().current_index)),
            self.cycles() || self.current_index <= self.config.max + 1
                ==> self.after_prev().next_value() == self.prev_value(),
    {
    }

    /// Wrapping steps keep the position within the integer width.
    pub proof fn lemma_wrapping_nexts_in_range(self, k: nat)
        requires
            0 <= self.current_index <= self.config.limit,
        ensures
            0 <= self.after_wrapping_nexts(k).current_index <= self.config.limit,
            self.after_wrapping_nexts(k).config == self.config,
        decreases k,
    {
        if k > 0 {
            self.lemma_wrapping_nexts_in_range((k - 1) as nat);
        }
    }

    /// Wrapping steps are reversible: `k` wrapping steps forward followed by `k`
    /// wrapping steps backward return the cursor to the state it had.
    pub proof fn lemma_wrapping_steps_reverse(self, k: nat)
        requires
            0 <= self.current_index <= self.config.limit,
        ensures
            self.after_wrapping_nexts(k).after_wrapping_prevs(k) == self,
        decreases k,
    {
        if k > 0 {
            let before = self.after_wrapping_nexts((k - 1) as nat);
            self.lemma_wrapping_nexts_in_range((k - 1) as nat);
            assert(before.after_wrapping_next().after_wrapping_prev() == before);
            self.lemma_wrapping_steps_reverse((k - 1) as nat);
        }
    }

    /// Bounded backward steps retreat one position each and clear the end marker.
    pub proof fn lemma_prevs_retreat(self, k: nat)
        requires
            k <= self.current_index,
        ensures
            self.after_prevs(k) == self.moved(
                self.current_index - k,
                if k > 0 {
                    false
                } else {
                    self.ended
                },
            ),
        decreases k,
    {
        if k > 0 {
            self.after_prev().lemma_prevs_retreat((k - 1) as nat);
        }
    }

    /// Bounded steps are reversible: `k` forward steps that each produced a value and
    /// did not pass the largest number of the width, followed by `k` backward steps,
    /// return the cursor to its position, where it produces next what it would have
    /// produced. The last of the backward steps produces the value that the first of
    /// the forward steps produced.
    pub proof fn lemma_steps_reverse(self, k: nat)
        requires
            self.in_range(),
            self.current_index + k <= self.config.limit,
            forall|j: nat| j < k ==> (#[trigger] self.after_nexts(j)).next_value().is_some(),
        ensures
            self.after_nexts(k).after_prevs(k) == self.moved(
                self.current_index,
                if k > 0 {
                    false
                } else {
                    self.ended
                },
            ),
            self.after_nexts(k).after_prevs(k).next_value() == self.next_value(),
            k > 0 ==> self.after_nexts(k).after_prevs((k - 1) as nat).prev_value()
                == self.next_value(),
    {
        if k > 0 {
            assert(self.after_nexts(0).next_value().is_some());
            assert(self.after_nexts((k - 1) as nat).next_value().is_some());
            if !self.cycles() {
                self.lemma_produces_while_remaining((k - 1) as nat);
            }
            self.lemma_nexts_advance(k);
            let there = self.after_nexts(k);
            there.lemma_prevs_retreat(k);
            there.lemma_prevs_retreat((k - 1) as nat);
        }
    }

    /// A cursor at the start has the whole domain before it: `max + 1` values remain.
    pub proof fn lemma_remaining_at_start(self)
        requires
            self.at_start(),
            0 <= self.config.max,
        ensures
            self.remaining() == self.config.max + 1,
    {
    }

    /// Once a cursor that does not cycle has produced all that remained, it is
    /// exhausted: it stands one past `max` with the end marker set, or, where `max` is
    /// the largest number of the width, on `max` with the end marker set. A cursor that
    /// stood past `max` already has not changed.
    pub proof fn lemma_nexts_past_end(self, k: nat)
        requires
            !self.cycles(),
            self.in_range(),
            k >= self.remaining(),
            k > 0,
        ensures
            self.after_nexts(k).exhausted(),
            self.after_nexts(k) == if self.current_index > self.config.max {
                self
            } else if self.config.max < self.config.limit {
                self.moved(self.config.max + 1, true)
            } else {
                self.moved(self.config.max, true)
            },
        decreases k,
    {
        let before = self.after_nexts((k - 1) as nat);
        assert(self.after_nexts(k) == before.after_next());
        if k == 1 {
            assert(before == self);
        } else if k - 1 >= self.remaining() {
            self.lemma_nexts_past_end((k - 1) as nat);
        } else {
            self.lemma_nexts_below_end((k - 1) as nat);
        }
    }

    /// Bounded forward steps produce a value exactly as long as some remain: on a cursor
    /// that does not cycle, the step after `k` steps produces one if and only if `k` is
    /// less than `remaining()`.
    pub proof fn lemma_produces_while_remaining(self, k: nat)
        requires
            !self.cycles(),
            self.in_range(),
        ensures
            self.after_nexts(k).next_value().is_some() <==> k < self.remaining(),
    {
        if k > 0 {
            if k >= self.remaining() {
                self.lemma_nexts_past_end(k);
            } else {
                self.lemma_nexts_below_end(k);
            }
        }
    }

    /// A cycling cursor never ends: however many forward steps were taken, the next
    /// one produces a value.
    pub proof fn lemma_cycling_never_ends(self, k: nat)
        requires
            self.cycles(),
        ensures
            self.after_nexts(k).next_value().is_some(),
    {
        self.lemma_nexts_keep_sequence(k);
    }

    /// A bounded cursor stops after the last value: once more than `max` forward steps
    /// were taken from the start, the cursor is exhausted and produces nothing. It
    /// stands one past `max`, or on `max` where that is the largest number of the width.
    pub proof fn lemma_exhausted_after_domain(self, k: nat)
        requires
            !self.cycles(),
            self.at_start(),
            self.in_range(),
            self.config.max < k,
        ensures
            self.after_nexts(k).next_value().is_none(),
            self.after_nexts(k) == if self.config.max < self.config.limit {
                self.moved(self.config.max + 1, true)
            } else {
                self.moved(self.config.max, true)
            },
    {
        self.lemma_nexts_past_end(k);
    }

    /// From the start a bounded cursor produces a value on each of the first `max + 1`
    /// forward steps and on none after them.
    pub proof fn lemma_produces_exactly_the_domain(self, k: nat)
        requires
            !self.cycles(),
            self.at_start(),
            self.in_range(),
        ensures
            self.after_nexts(k).next_value().is_some() <==> k <= self.config.max,
    {
        self.lemma_produces_while_remaining(k);
    }

    /// An exhausted cursor can be reversed: the backward step produces a value and
    /// clears the end marker, and the forward step after it produces a value again.
    /// Where the cursor stands one past `max`, the value is the last one it produced.
    pub proof fn lemma_reversal_resumes(self)
        requires
            self.in_range(),
            self.config.limit > 0,
            self.exhausted(),
            self.current_index <= self.config.max + 1,
        ensures
            self.prev_value().is_some(),
            !self.after_prev().ended,
            self.after_prev().next_value().is_some(),
            self.current_index == self.config.max + 1 ==> self.prev_value() == Some(
                self.n(self.config.max),
            ),
    {
    }
}

} // verus!
