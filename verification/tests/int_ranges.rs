use lazy_ranges::ExclusiveRange;
use lazy_ranges::InclusiveRange;
use lazy_ranges::StepBy;
use lazy_ranges::UnboundedRange;

#[test]
fn test_excl_int_range() {
    let mut iter: ExclusiveRange<i32, i32> = ExclusiveRange {
        start: 0,
        stop: 3,
        step: 1,
    };
    assert_eq!(iter.next(), Some(0));
    assert_eq!(iter.next(), Some(1));
    assert_eq!(iter.next(), Some(2));
    assert_eq!(iter.next(), None);
}

#[test]
fn test_incl_int_range() {
    let mut iter: InclusiveRange<i32, i32> = InclusiveRange {
        start: 0,
        stop: 3,
        step: 1,
    };
    assert_eq!(iter.next(), Some(0));
    assert_eq!(iter.next(), Some(1));
    assert_eq!(iter.next(), Some(2));
    assert_eq!(iter.next(), Some(3));
    assert_eq!(iter.next(), None);
}

#[test]
fn test_unbound_int_range() {
    let mut iter: UnboundedRange<i32, i32> = UnboundedRange {
        start: 0,
        step: 1,
    };
    assert_eq!(iter.next(), Some(0));
    assert_eq!(iter.next(), Some(1));
    assert_eq!(iter.next(), Some(2));
    assert_eq!(iter.next(), Some(3));
    assert_eq!(iter.next(), Some(4));
    for _ in 1..1000 {
        iter.next();
    }
    assert_eq!(iter.next(), Some(1004));
}

#[test]
fn test_steps_excl_int_range() {
    let mut iter: ExclusiveRange<i32, i32> = ExclusiveRange {
            start: 0,
            stop: 5,
            step: 1,
        }
        .step_by(2);
    assert_eq!(iter.next(), Some(0));
    assert_eq!(iter.next(), Some(2));
    assert_eq!(iter.next(), Some(4));
    assert_eq!(iter.next(), None);
}
