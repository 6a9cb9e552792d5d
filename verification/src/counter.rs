//! Differences between successive readings of a monotonic counter.
//!
//! Many counters of the operating system only grow, and start again from
//! zero once they pass their maximum. [`CounterDiff`] turns successive
//! readings of such a counter into the amount by which it advanced.

use vstd::prelude::*;

verus! {

/// Outcome of feeding a new reading to a [`CounterDiff`].
#[derive(Clone, Copy, Debug, PartialEq, Eq, Structural)]
pub enum CounterDiffUpdate {
    /// No earlier reading exists, so no difference can be given.
    FirstTime,
    /// The counter advanced without wrapping; holds `new - last`.
    Difference(u64),
    /// The counter wrapped around its maximum; holds the corrected difference.
    CorrectedDifference(u64),
}

impl CounterDiffUpdate {
    /// The amount by which the counter advanced, if it is known.
    pub open spec fn spec_difference(self) -> Option<u64> {
        match self {
            CounterDiffUpdate::FirstTime => None,
            CounterDiffUpdate::Difference(d) => Some(d),
            CounterDiffUpdate::CorrectedDifference(d) => Some(d),
        }
    }

    /// The amount by which the counter advanced: `None` for a first reading,
    /// the difference otherwise, corrected or not.
    pub fn difference(self) -> (r: Option<u64>)
        ensures
            r == self.spec_difference(),
    {
        match self {
            CounterDiffUpdate::FirstTime => None,
            CounterDiffUpdate::Difference(d) => Some(d),
            CounterDiffUpdate::CorrectedDifference(d) => Some(d),
        }
    }
}

/// What a counter with maximum `max` and last reading `previous` reports for
/// the reading `new`.
pub open spec fn counter_update(max: u64, previous: Option<u64>, new: u64) -> CounterDiffUpdate {
    match previous {
        None => CounterDiffUpdate::FirstTime,
        Some(last) => if new >= last {
            CounterDiffUpdate::Difference((new - last) as u64)
        } else {
            CounterDiffUpdate::CorrectedDifference(((max - last) + new + 1) as u64)
        },
    }
}

/// Follows a monotonic counter that wraps around after `max_value`.
#[derive(Clone, Copy, Debug)]
pub struct CounterDiff {
    max_value: u64,
    previous_value: Option<u64>,
}

impl CounterDiff {
    #[verifier::type_invariant]
    spec fn reading_within_maximum(self) -> bool {
        match self.previous_value {
            Some(last) => last <= self.max_value,
            None => true,
        }
    }

    /// The largest value that the counter can take.
    pub closed spec fn spec_max_value(&self) -> u64 {
        self.max_value
    }

    /// The last reading, if there has been one.
    pub closed spec fn spec_previous(&self) -> Option<u64> {
        self.previous_value
    }

    /// A counter that wraps around after `max_value` and has not been read yet.
    pub fn with_max_value(max_value: u64) -> (c: CounterDiff)
        ensures
            c.spec_max_value() == max_value,
            c.spec_previous() is None,
    {
        CounterDiff { max_value, previous_value: None }
    }

    /// The largest value that the counter can take.
    pub fn max_value(&self) -> (m: u64)
        ensures
            m == self.spec_max_value(),
    {
        self.max_value
    }

    /// The last reading, if there has been one. It never exceeds the maximum.
    pub fn previous(&self) -> (p: Option<u64>)
        ensures
            p == self.spec_previous(),
            p matches Some(last) ==> last <= self.spec_max_value(),
    {
        proof {
            use_type_invariant(self);
        }
        self.previous_value
    }

    /// Records the reading `new_value` and reports by how much the counter
    /// advanced since the reading before: nothing for a first reading, the
    /// plain difference if the counter did not go back, and
    /// `(max - last) + new + 1` if it wrapped around.
    pub fn update(&mut self, new_value: u64) -> (r: CounterDiffUpdate)
        requires
            new_value <= old(self).spec_max_value(),
        ensures
            r == counter_update(old(self).spec_max_value(), old(self).spec_previous(), new_value),
            final(self).spec_max_value() == old(self).spec_max_value(),
            final(self).spec_previous() == Some(new_value),
    {
        proof {
            use_type_invariant(&*self);
        }
        let r = match self.previous_value {
            None => CounterDiffUpdate::FirstTime,
            Some(last) => {
                if new_value >= last {
                    CounterDiffUpdate::Difference(new_value - last)
                } else {
                    CounterDiffUpdate::CorrectedDifference((self.max_value - last) + new_value + 1)
                }
            },
        };
        self.previous_value = Some(new_value);
        r
    }
}

/// A reading below the last one is a wrap: the counter reports
/// `(max - last) + new + 1`, which is at least 1 and at most `max`.
pub proof fn lemma_wrapped_difference(max: u64, last: u64, new: u64)
    requires
        last <= max,
        new < last,
    ensures
        counter_update(max, Some(last), new) == CounterDiffUpdate::CorrectedDifference(
            ((max - last) + new + 1) as u64,
        ),
        1 <= (max - last) + new + 1 <= max,
{
}

/// A counter never reports a negative difference, and what it reports is the
/// distance from the last reading to the new one, counted around the maximum.
pub proof fn lemma_difference_is_distance(max: u64, last: u64, new: u64)
    requires
        last <= max,
        new <= max,
    ensures
        counter_update(max, Some(last), new).spec_difference() matches Some(d) && 0 <= d <= max
            && (last + d) % (max + 1) == new as int,
{
    let d = counter_update(max, Some(last), new).spec_difference()->0;
    if new >= last {
        assert(last + d == new);
        assert((new as int) % (max + 1) == new as int) by (nonlinear_arith)
            requires
                0 <= new <= max,
        ;
    } else {
        assert(last + d == new + (max + 1));
        assert((new + (max + 1)) % (max + 1) == new as int) by (nonlinear_arith)
            requires
                0 <= new <= max,
        ;
    }
}

} // verus!
