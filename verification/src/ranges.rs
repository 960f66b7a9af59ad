//! The three range variants and the step-rebinding capability.

use vstd::prelude::*;

use crate::num::RangeNum;

verus! {

/// A range that yields its cursor while the cursor is strictly below `stop`.
/// The value that would equal or exceed `stop` is never yielded.
pub struct ExclusiveRange<T, S> {
    /// The current cursor; advanced in place on each successful pull.
    pub start: T,
    /// The fixed upper bound; never yielded.
    pub stop: T,
    /// The increment added to the cursor on each successful pull.
    pub step: S,
}

/// A range that yields its cursor while the cursor is at or below `stop`.
/// A cursor exactly equal to `stop` is still yielded.
pub struct InclusiveRange<T, S> {
    /// The current cursor; advanced in place on each successful pull.
    pub start: T,
    /// The fixed upper bound; yielded when the cursor lands on it exactly.
    pub stop: T,
    /// The increment added to the cursor on each successful pull.
    pub step: S,
}

/// A range without a stop bound: every pull yields a value and advances.
pub struct UnboundedRange<T, S> {
    /// The current cursor; advanced in place on each pull.
    pub start: T,
    /// The increment added to the cursor on each pull.
    pub step: S,
}

/// Rebinds the step of an already-constructed range: the original range is
/// consumed and an otherwise-identical range with the new step comes back.
pub trait StepBy<S>: Sized {
    fn step_by(self, step: S) -> Self;
}

impl<T: RangeNum<S>, S: Copy> ExclusiveRange<T, S> {
    /// Whether the guard has failed: no further pull yields a value.
    pub open spec fn is_exhausted(self) -> bool {
        !self.start.lt_spec(self.stop)
    }

    /// The outcome of one pull: the range afterwards, and the yielded value
    /// if the guard held.
    pub open spec fn pull_spec(self) -> (Self, Option<T>) {
        if self.start.lt_spec(self.stop) {
            (
                (ExclusiveRange {
                    start: self.start.advanced(self.step),
                    stop: self.stop,
                    step: self.step,
                }),
                Some(self.start),
            )
        } else {
            (self, None)
        }
    }

    /// The range after `n` pulls, with the values those pulls yielded.
    pub open spec fn pull_n_spec(self, n: nat) -> (Self, Seq<T>)
        decreases n,
    {
        if n == 0 {
            (self, Seq::<T>::empty())
        } else {
            let (once, yielded) = self.pull_spec();
            let (rest, tail) = once.pull_n_spec((n - 1) as nat);
            match yielded {
                Some(v) => (rest, seq![v] + tail),
                None => (rest, tail),
            }
        }
    }

    /// Yields the cursor and advances it by the step while the cursor is
    /// strictly below `stop`; afterwards yields nothing and leaves the
    /// range untouched.
    pub fn next(&mut self) -> (r: Option<T>)
        requires
            !old(self).is_exhausted() ==> old(self).start.can_advance(old(self).step),
        ensures
            (*final(self), r) == old(self).pull_spec(),
    {
        if self.start.lt(self.stop) {
            let yielded = self.start;
            self.start = self.start.advance(self.step);
            Some(yielded)
        } else {
            None
        }
    }
}

impl<T: RangeNum<S>, S: Copy> InclusiveRange<T, S> {
    /// Whether the guard has failed: no further pull yields a value.
    pub open spec fn is_exhausted(self) -> bool {
        !self.start.le_spec(self.stop)
    }

    /// The outcome of one pull: the range afterwards, and the yielded value
    /// if the guard held.
    pub open spec fn pull_spec(self) -> (Self, Option<T>) {
        if self.start.le_spec(self.stop) {
            (
                (InclusiveRange {
                    start: self.start.advanced(self.step),
                    stop: self.stop,
                    step: self.step,
                }),
                Some(self.start),
            )
        } else {
            (self, None)
        }
    }

    /// The range after `n` pulls, with the values those pulls yielded.
    pub open spec fn pull_n_spec(self, n: nat) -> (Self, Seq<T>)
        decreases n,
    {
        if n == 0 {
            (self, Seq::<T>::empty())
        } else {
            let (once, yielded) = self.pull_spec();
            let (rest, tail) = once.pull_n_spec((n - 1) as nat);
            match yielded {
                Some(v) => (rest, seq![v] + tail),
                None => (rest, tail),
            }
        }
    }

    /// Yields the cursor and advances it by the step while the cursor is at
    /// or below `stop`; afterwards yields nothing and leaves the range
    /// untouched.
    pub fn next(&mut self) -> (r: Option<T>)
        requires
            !old(self).is_exhausted() ==> old(self).start.can_advance(old(self).step),
        ensures
            (*final(self), r) == old(self).pull_spec(),
    {
        if self.start.le(self.stop) {
            let yielded = self.start;
            self.start = self.start.advance(self.step);
            Some(yielded)
        } else {
            None
        }
    }
}

impl<T: RangeNum<S>, S: Copy> UnboundedRange<T, S> {
    /// The outcome of one pull: the range afterwards and the yielded value.
    /// There is no guard, so a value is always yielded.
    pub open spec fn pull_spec(self) -> (Self, T) {
        (
            (UnboundedRange { start: self.start.advanced(self.step), step: self.step }),
            self.start,
        )
    }

    /// The range after `n` pulls, with the values those pulls yielded.
    pub open spec fn pull_n_spec(self, n: nat) -> (Self, Seq<T>)
        decreases n,
    {
        if n == 0 {
            (self, Seq::<T>::empty())
        } else {
            let (once, yielded) = self.pull_spec();
            let (rest, tail) = once.pull_n_spec((n - 1) as nat);
            (rest, seq![yielded] + tail)
        }
    }

    /// Yields the cursor and advances it by the step. End-of-sequence is
    /// structurally unreachable: every pull returns a value.
    pub fn next(&mut self) -> (r: Option<T>)
        requires
            old(self).start.can_advance(old(self).step),
        ensures
            r == Some(old(self).pull_spec().1),
            *final(self) == old(self).pull_spec().0,
    {
        let yielded = self.start;
        self.start = self.start.advance(self.step);
        Some(yielded)
    }
}

impl<T, S> StepBy<S> for ExclusiveRange<T, S> {
    /// Replaces the step; the cursor and the stop bound carry over.
    fn step_by(self, step: S) -> (r: Self)
        ensures
            r == (ExclusiveRange { start: self.start, stop: self.stop, step }),
    {
        ExclusiveRange { step, ..self }
    }
}

impl<T, S> StepBy<S> for InclusiveRange<T, S> {
    /// Replaces the step; the cursor and the stop bound carry over.
    fn step_by(self, step: S) -> (r: Self)
        ensures
            r == (InclusiveRange { start: self.start, stop: self.stop, step }),
    {
        InclusiveRange { step, ..self }
    }
}

impl<T, S> StepBy<S> for UnboundedRange<T, S> {
    /// Replaces the step; the cursor carries over.
    fn step_by(self, step: S) -> (r: Self)
        ensures
            r == (UnboundedRange { start: self.start, step }),
    {
        UnboundedRange { step, ..self }
    }
}

} // verus!
