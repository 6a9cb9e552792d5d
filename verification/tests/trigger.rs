use alumet::pipeline::trigger::{poll_timeout, TickOutcome, TickTimer, TriggerSpec};
use alumet::time::{Duration, Timestamp};

const SECOND: u64 = 1_000_000_000;

fn ts(nanos: u64) -> Timestamp {
    Timestamp::from_nanos(nanos)
}

#[test]
fn ticks_come_at_the_multiples_of_the_period() {
    let epoch = 1_700_000_000 * SECOND;
    let mut timer = TickTimer::new(ts(epoch), Duration::from_secs(1)).unwrap();
    assert_eq!(timer.deadline(), ts(epoch + SECOND));
    for k in 1..=5u64 {
        let outcome = timer.fire(ts(epoch + k * SECOND));
        assert_eq!(outcome, TickOutcome::Tick { timestamp: ts(epoch + k * SECOND), missed: 0 });
        assert_eq!(timer.deadline(), ts(epoch + (k + 1) * SECOND));
    }
}

#[test]
fn late_wake_ups_do_not_add_up() {
    let epoch = 5 * SECOND;
    let mut timer = TickTimer::new(ts(epoch), Duration::from_secs(1)).unwrap();
    // Each wake-up is late by another amount, always less than one period.
    let lateness = [1u64, 999_999_999, 250_000_000, 0, 700_000_000, 3];
    for (i, late) in lateness.iter().enumerate() {
        let k = i as u64 + 1;
        let outcome = timer.fire(ts(epoch + k * SECOND + late));
        assert_eq!(outcome, TickOutcome::Tick { timestamp: ts(epoch + k * SECOND), missed: 0 });
    }
    assert_eq!(timer.deadline(), ts(epoch + 7 * SECOND));
}

#[test]
fn before_the_deadline_the_timer_waits() {
    let mut timer = TickTimer::new(ts(0), Duration::from_nanos(500)).unwrap();
    assert_eq!(timer.fire(ts(0)), TickOutcome::NotDue { wait: Duration::from_nanos(500) });
    assert_eq!(timer.fire(ts(499)), TickOutcome::NotDue { wait: Duration::from_nanos(1) });
    assert_eq!(timer.deadline(), ts(500));
    assert_eq!(timer.fire(ts(500)), TickOutcome::Tick { timestamp: ts(500), missed: 0 });
    assert_eq!(timer.fire(ts(500)), TickOutcome::NotDue { wait: Duration::from_nanos(500) });
}

#[test]
fn missed_ticks_are_merged_into_one() {
    let mut timer = TickTimer::new(ts(100), Duration::from_nanos(10)).unwrap();
    // The ticks at 110, 120 and 130 were missed; one tick comes, for 140.
    assert_eq!(timer.fire(ts(147)), TickOutcome::Tick { timestamp: ts(140), missed: 3 });
    assert_eq!(timer.deadline(), ts(150));
    assert_eq!(timer.fire(ts(149)), TickOutcome::NotDue { wait: Duration::from_nanos(1) });
    assert_eq!(timer.fire(ts(150)), TickOutcome::Tick { timestamp: ts(150), missed: 0 });
}

#[test]
fn a_manual_tick_leaves_the_timer_alone() {
    let mut timer = TickTimer::new(ts(0), Duration::from_secs(1)).unwrap();
    timer.fire(ts(SECOND));
    let before = timer.deadline();
    assert_eq!(timer.manual_tick(ts(SECOND + 123)), ts(SECOND + 123));
    assert_eq!(timer.deadline(), before);
    assert_eq!(timer.period(), Duration::from_secs(1));
}

#[test]
fn no_timer_without_a_period() {
    assert!(TickTimer::new(ts(0), Duration::zero()).is_none());
    assert!(TickTimer::new(ts(u64::MAX), Duration::from_nanos(1)).is_none());
    assert!(TickTimer::new(ts(u64::MAX - 1), Duration::from_nanos(1)).is_some());
}

#[test]
fn trigger_specs() {
    let periodic = TriggerSpec::at_interval(Duration::from_secs(2));
    assert_eq!(periodic, TriggerSpec::Interval { period: Duration::from_nanos(2 * SECOND) });
    assert_eq!(periodic.period(), Some(Duration::from_secs(2)));
    assert!(periodic.is_valid());
    assert!(!TriggerSpec::at_interval(Duration::zero()).is_valid());
    assert_eq!(TriggerSpec::manual(), TriggerSpec::Manual);
    assert_eq!(TriggerSpec::Manual.period(), None);
    assert!(TriggerSpec::Manual.is_valid());
}

#[test]
fn a_poll_is_cancelled_after_its_period_but_not_before_five_seconds() {
    assert_eq!(poll_timeout(Duration::from_secs(1)), Duration::from_secs(5));
    assert_eq!(poll_timeout(Duration::from_secs(5)), Duration::from_secs(5));
    assert_eq!(poll_timeout(Duration::from_secs(60)), Duration::from_secs(60));
    assert_eq!(poll_timeout(Duration::zero()), Duration::from_secs(5));
}

#[test]
fn durations_and_timestamps() {
    assert_eq!(Duration::from_millis(500), Some(Duration::from_nanos(500_000_000)));
    assert_eq!(Duration::from_millis(u64::MAX), None);
    let d = Duration::from_nanos(2_500_000_000);
    assert_eq!(d.as_secs(), 2);
    assert_eq!(d.subsec_nanos(), 500_000_000);
    assert_eq!(d.as_nanos(), 2_500_000_000);
    assert!(Duration::zero().is_zero());
    assert_eq!(Duration::from_secs(3).longest(Duration::from_secs(4)), Duration::from_secs(4));
    assert_eq!(Timestamp::epoch(), ts(0));
    assert_eq!(Timestamp::from_unix_timestamp(3, 7), Some(ts(3 * SECOND + 7)));
    assert_eq!(Timestamp::from_unix_timestamp(u64::MAX, 0), None);
    assert_eq!(ts(3 * SECOND + 7).to_unix_timestamp(), (3, 7));
    assert_eq!(ts(10).checked_add(Duration::from_nanos(5)), Some(ts(15)));
    assert_eq!(ts(u64::MAX).checked_add(Duration::from_nanos(1)), None);
    assert_eq!(ts(10).duration_since(ts(4)), Some(Duration::from_nanos(6)));
    assert_eq!(ts(4).duration_since(ts(10)), None);
}
