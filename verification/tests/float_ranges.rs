//! The ranges driven over a floating-point cursor. Floating-point types
//! stay outside the verified library, so the cursor is a local wrapper that
//! implements the executable surface of `RangeNum` over `f32`; nothing is
//! proved about it, and the boundary behaviour under rounding is pinned
//! down here by tolerance-based assertions instead.

use lazy_ranges::ExclusiveRange;
use lazy_ranges::InclusiveRange;
use lazy_ranges::RangeNum;
use lazy_ranges::UnboundedRange;

const EPSILON: f32 = 1e-7;

#[derive(Clone, Copy, Debug, PartialEq)]
struct F32(f32);

impl RangeNum<F32> for F32 {
    fn lt_spec(self, other: F32) -> bool {
        self.0 < other.0
    }

    fn le_spec(self, other: F32) -> bool {
        self.0 <= other.0
    }

    fn can_advance(self, _step: F32) -> bool {
        true
    }

    fn advanced(self, step: F32) -> F32 {
        F32(self.0 + step.0)
    }

    fn lt(self, other: F32) -> bool {
        self.0 < other.0
    }

    fn le(self, other: F32) -> bool {
        self.0 <= other.0
    }

    fn advance(self, step: F32) -> F32 {
        F32(self.0 + step.0)
    }
}

#[test]
fn test_excl_float_range() {
    let mut iter: ExclusiveRange<F32, F32> = ExclusiveRange {
        start: F32(0.0),
        stop: F32(1.0),
        step: F32(0.3),
    };
    assert!((iter.next().unwrap().0.abs() - 0.0) < EPSILON);
    assert!((iter.next().unwrap().0.abs() - 0.3) < EPSILON);
    assert!((iter.next().unwrap().0.abs() - 0.6) < EPSILON);
    assert!((iter.next().unwrap().0.abs() - 0.9) < EPSILON);
    assert_eq!(iter.next(), None);
}

#[test]
fn test_excl_float_range_on_boundary() {
    let mut iter: ExclusiveRange<F32, F32> = ExclusiveRange {
        start: F32(0.0),
        stop: F32(0.9),
        step: F32(0.3),
    };
    assert!((iter.next().unwrap().0.abs() - 0.0) < EPSILON);
    assert!((iter.next().unwrap().0.abs() - 0.3) < EPSILON);
    assert!((iter.next().unwrap().0.abs() - 0.6) < EPSILON);
    assert_eq!(iter.next(), None);
}

#[test]
fn test_incl_float_range() {
    let mut iter: InclusiveRange<F32, F32> = InclusiveRange {
        start: F32(0.0),
        stop: F32(1.0),
        step: F32(0.3),
    };
    assert!((iter.next().unwrap().0.abs() - 0.0) < EPSILON);
    assert!((iter.next().unwrap().0.abs() - 0.3) < EPSILON);
    assert!((iter.next().unwrap().0.abs() - 0.6) < EPSILON);
    assert!((iter.next().unwrap().0.abs() - 0.9) < EPSILON);
    assert_eq!(iter.next(), None);
}

#[test]
fn test_incl_float_range_on_boundary() {
    // Stepping by 0.3 from 0.0 lands slightly past 0.9 in f32 arithmetic,
    // so the boundary value is not yielded here: that is a property of the
    // floating representation, not a guarantee of the guard.
    let mut iter: InclusiveRange<F32, F32> = InclusiveRange {
        start: F32(0.0),
        stop: F32(0.9),
        step: F32(0.3),
    };
    assert!((iter.next().unwrap().0.abs() - 0.0) < EPSILON);
    assert!((iter.next().unwrap().0.abs() - 0.3) < EPSILON);
    assert!((iter.next().unwrap().0.abs() - 0.6) < EPSILON);
    assert_eq!(iter.next(), None);
}

#[test]
fn test_unbound_float_range() {
    let mut iter: UnboundedRange<F32, F32> = UnboundedRange {
        start: F32(0.0),
        step: F32(0.3),
    };
    assert!((iter.next().unwrap().0 - 0.0).abs() < EPSILON);
    assert!((iter.next().unwrap().0 - 0.3).abs() < EPSILON);
    assert!((iter.next().unwrap().0 - 0.6).abs() < EPSILON);
    assert!((iter.next().unwrap().0 - 0.9).abs() < EPSILON);
    assert!((iter.next().unwrap().0 - 1.2).abs() < EPSILON);
    for _ in 1..1000 {
        iter.next();
    }
    assert!((iter.next().unwrap().0 - 301.2).abs() < EPSILON);
}
