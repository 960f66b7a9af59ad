//! The numeric capability that cursor types offer to the range generators.

use vstd::prelude::*;

verus! {

/// What a cursor type must support so that a range can be driven over it:
/// an ordering against the stop bound (strict for exclusive ranges, weak for
/// inclusive ones) and an advance by a step value. Values are trivially
/// copyable, so a pull can hand the cursor out and keep advancing.
///
/// Each executable method is pinned to a spec-level counterpart, so the
/// range contracts can speak about orderings and advances of generic
/// cursors. `advance` is only required to behave like `advanced` where
/// `can_advance` holds; an implementation for a fixed-width integer uses
/// that to rule out overflow.
pub trait RangeNum<S>: Copy {
    /// The strict order that an exclusive guard applies.
    spec fn lt_spec(self, other: Self) -> bool;

    /// The weak order that an inclusive guard applies.
    spec fn le_spec(self, other: Self) -> bool;

    /// When advancing by `step` stays within the type's machine limits.
    spec fn can_advance(self, step: S) -> bool;

    /// The cursor one step further on.
    spec fn advanced(self, step: S) -> Self;

    fn lt(self, other: Self) -> (r: bool)
        ensures
            r == self.lt_spec(other),
    ;

    fn le(self, other: Self) -> (r: bool)
        ensures
            r == self.le_spec(other),
    ;

    fn advance(self, step: S) -> (r: Self)
        requires
            self.can_advance(step),
        ensures
            r == self.advanced(step),
    ;
}

impl RangeNum<i32> for i32 {
    open spec fn lt_spec(self, other: i32) -> bool {
        self < other
    }

    open spec fn le_spec(self, other: i32) -> bool {
        self <= other
    }

    open spec fn can_advance(self, step: i32) -> bool {
        i32::MIN <= self + step <= i32::MAX
    }

    open spec fn advanced(self, step: i32) -> i32 {
        (self + step) as i32
    }

    fn lt(self, other: i32) -> (r: bool) {
        self < other
    }

    fn le(self, other: i32) -> (r: bool) {
        self <= other
    }

    fn advance(self, step: i32) -> (r: i32) {
        self + step
    }
}

impl RangeNum<i64> for i64 {
    open spec fn lt_spec(self, other: i64) -> bool {
        self < other
    }

    open spec fn le_spec(self, other: i64) -> bool {
        self <= other
    }

    open spec fn can_advance(self, step: i64) -> bool {
        i64::MIN <= self + step <= i64::MAX
    }

    open spec fn advanced(self, step: i64) -> i64 {
        (self + step) as i64
    }

    fn lt(self, other: i64) -> (r: bool) {
        self < other
    }

    fn le(self, other: i64) -> (r: bool) {
        self <= other
    }

    fn advance(self, step: i64) -> (r: i64) {
        self + step
    }
}

impl RangeNum<u64> for u64 {
    open spec fn lt_spec(self, other: u64) -> bool {
        self < other
    }

    open spec fn le_spec(self, other: u64) -> bool {
        self <= other
    }

    open spec fn can_advance(self, step: u64) -> bool {
        self + step <= u64::MAX
    }

    open spec fn advanced(self, step: u64) -> u64 {
        (self + step) as u64
    }

    fn lt(self, other: u64) -> (r: bool) {
        self < other
    }

    fn le(self, other: u64) -> (r: bool) {
        self <= other
    }

    fn advance(self, step: u64) -> (r: u64) {
        self + step
    }
}

} // verus!
