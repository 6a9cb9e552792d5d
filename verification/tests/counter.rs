use alumet::counter::{CounterDiff, CounterDiffUpdate};

#[test]
fn first_reading_gives_no_difference() {
    let mut counter = CounterDiff::with_max_value(1000);
    assert_eq!(counter.previous(), None);
    assert_eq!(counter.update(900), CounterDiffUpdate::FirstTime);
    assert_eq!(counter.previous(), Some(900));
    assert_eq!(counter.max_value(), 1000);
}

#[test]
fn growing_counter_gives_plain_difference() {
    let mut counter = CounterDiff::with_max_value(u64::MAX);
    counter.update(1000);
    assert_eq!(counter.update(2000), CounterDiffUpdate::Difference(1000));
    assert_eq!(counter.update(2000), CounterDiffUpdate::Difference(0));
    assert_eq!(counter.update(3000), CounterDiffUpdate::Difference(1000));
}

#[test]
fn counter_wrap() {
    let mut counter = CounterDiff::with_max_value(1000);
    assert_eq!(counter.update(900), CounterDiffUpdate::FirstTime);
    assert_eq!(counter.update(950), CounterDiffUpdate::Difference(50));
    // (1000 - 950) + 50 + 1: the step from 1000 to 0 counts as one.
    assert_eq!(counter.update(50), CounterDiffUpdate::CorrectedDifference(101));
}

#[test]
fn wrap_of_the_largest_counter() {
    let mut counter = CounterDiff::with_max_value(u64::MAX);
    counter.update(u64::MAX);
    assert_eq!(counter.update(0), CounterDiffUpdate::CorrectedDifference(1));
    counter.update(u64::MAX - 9);
    assert_eq!(counter.update(5), CounterDiffUpdate::CorrectedDifference(15));
}

#[test]
fn wrap_by_one_step_below_the_last_reading() {
    let mut counter = CounterDiff::with_max_value(10);
    counter.update(7);
    // (10 - 7) + 6 + 1 = 10: the whole range but one step.
    assert_eq!(counter.update(6), CounterDiffUpdate::CorrectedDifference(10));
}

#[test]
fn difference_unifies_the_three_outcomes() {
    assert_eq!(CounterDiffUpdate::FirstTime.difference(), None);
    assert_eq!(CounterDiffUpdate::Difference(7).difference(), Some(7));
    assert_eq!(CounterDiffUpdate::CorrectedDifference(9).difference(), Some(9));
}
