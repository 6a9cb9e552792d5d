//! When sources are polled: periodic ticks that do not drift, and manual
//! triggers.

use vstd::prelude::*;
use crate::time::{Duration, Timestamp};

verus! {

/// Number of nanoseconds below which no poll is cancelled: five seconds.
pub const MIN_POLL_TIMEOUT_NANOS: u64 = 5_000_000_000;

/// Says when a source is polled.
#[derive(Clone, Copy, Debug, PartialEq, Eq, Hash, Structural)]
pub enum TriggerSpec {
    /// Once per `period`, at the multiples of the period counted from the
    /// time at which the timer was made.
    Interval { period: Duration },
    /// Only when a control message asks for it.
    Manual,
}

impl TriggerSpec {
    /// A trigger that fires once per `period`.
    pub fn at_interval(period: Duration) -> (t: TriggerSpec)
        ensures
            t == (TriggerSpec::Interval { period }),
    {
        TriggerSpec::Interval { period }
    }

    /// A trigger that fires only on request.
    pub fn manual() -> (t: TriggerSpec)
        ensures
            t == TriggerSpec::Manual,
    {
        TriggerSpec::Manual
    }

    /// The period of the trigger, if it is periodic.
    pub fn period(&self) -> (p: Option<Duration>)
        ensures
            p == match *self {
                TriggerSpec::Interval { period } => Some(period),
                TriggerSpec::Manual => None,
            },
    {
        match *self {
            TriggerSpec::Interval { period } => Some(period),
            TriggerSpec::Manual => None,
        }
    }

    /// Whether a timer can be made for the trigger: a periodic trigger needs
    /// a period above zero.
    pub fn is_valid(&self) -> (v: bool)
        ensures
            v == match *self {
                TriggerSpec::Interval { period } => period.nanos > 0,
                TriggerSpec::Manual => true,
            },
    {
        match *self {
            TriggerSpec::Interval { period } => period.nanos > 0,
            TriggerSpec::Manual => true,
        }
    }
}

/// The time after which a poll that has not returned is cancelled: the
/// period of the source, but at least five seconds.
pub fn poll_timeout(period: Duration) -> (t: Duration)
    ensures
        t.nanos == if period.nanos >= MIN_POLL_TIMEOUT_NANOS {
            period.nanos
        } else {
            MIN_POLL_TIMEOUT_NANOS
        },
{
    period.longest(Duration::from_nanos(MIN_POLL_TIMEOUT_NANOS))
}

/// The time of the `k`-th tick of a timer made at `epoch` with period
/// `period`, in nanoseconds.
pub open spec fn tick_time(epoch: int, period: int, k: int) -> int {
    epoch + k * period
}

/// Whether `t` is the time of a tick of the timer made at `epoch`: the
/// epoch plus a positive multiple of the period.
pub open spec fn is_tick_time(epoch: int, period: int, t: int) -> bool {
    exists|k: int| k >= 1 && t == #[trigger] tick_time(epoch, period, k)
}

/// The number of the last tick that is due at `now`: the largest `k` with
/// `tick_time(epoch, period, k) <= now`.
pub open spec fn ticks_due(epoch: int, period: int, now: int) -> int {
    (now - epoch) / period
}

/// What a timer answers when it is asked whether a tick is due.
#[derive(Clone, Copy, Debug, PartialEq, Eq, Structural)]
pub enum TickOutcome {
    /// No tick is due yet; the next one comes after `wait`.
    NotDue { wait: Duration },
    /// A tick is due. Its logical time is `timestamp`; `missed` ticks before
    /// it had not been delivered and are dropped.
    Tick { timestamp: Timestamp, missed: u64 },
}

/// Timer of one group of sources. It delivers ticks at `epoch + k * period`
/// for `k = 1, 2, ...`, whenever it is asked.
#[derive(Clone, Copy, Debug)]
pub struct TickTimer {
    epoch: u64,
    period: u64,
    next: u64,
}

impl TickTimer {
    #[verifier::type_invariant]
    spec fn aligned(self) -> bool {
        &&& self.period > 0
        &&& self.next > self.epoch
        &&& (self.next - self.epoch) % (self.period as int) == 0
    }

    /// The time at which the timer was made, in nanoseconds.
    pub closed spec fn spec_epoch(&self) -> int {
        self.epoch as int
    }

    /// The time between two ticks, in nanoseconds.
    pub closed spec fn spec_period(&self) -> int {
        self.period as int
    }

    /// The time of the next tick, in nanoseconds.
    pub closed spec fn spec_deadline(&self) -> int {
        self.next as int
    }

    /// The number of the next tick.
    pub open spec fn spec_next_tick(&self) -> int {
        (self.spec_deadline() - self.spec_epoch()) / self.spec_period()
    }

    /// A timer made at `epoch` that ticks once per `period`. There is none
    /// for a period of zero, nor if the first tick is beyond what a timestamp
    /// can hold.
    pub fn new(epoch: Timestamp, period: Duration) -> (t: Option<TickTimer>)
        ensures
            t is Some == (period.nanos > 0 && epoch.nanos + period.nanos <= u64::MAX),
            t matches Some(timer) ==> {
                &&& timer.spec_epoch() == epoch.nanos
                &&& timer.spec_period() == period.nanos
                &&& timer.spec_deadline() == tick_time(epoch.nanos as int, period.nanos as int, 1)
            },
    {
        if period.nanos == 0 {
            return None;
        }
        match epoch.nanos.checked_add(period.nanos) {
            None => None,
            Some(next) => {
                assert((next - epoch.nanos) % (period.nanos as int) == 0) by (nonlinear_arith)
                    requires
                        next - epoch.nanos == period.nanos,
                        period.nanos > 0,
                ;
                assert(period.nanos as int * 1 == period.nanos as int);
                Some(TickTimer { epoch: epoch.nanos, period: period.nanos, next })
            },
        }
    }

    /// The time between two ticks.
    pub fn period(&self) -> (p: Duration)
        ensures
            p.nanos == self.spec_period(),
            p.nanos > 0,
    {
        proof {
            use_type_invariant(self);
        }
        Duration { nanos: self.period }
    }

    /// The time of the next tick. It is the time of a tick: the epoch plus a
    /// positive multiple of the period.
    pub fn deadline(&self) -> (t: Timestamp)
        ensures
            t.nanos == self.spec_deadline(),
            t.nanos == tick_time(self.spec_epoch(), self.spec_period(), self.spec_next_tick()),
            self.spec_next_tick() >= 1,
    {
        proof {
            use_type_invariant(self);
            lemma_aligned_is_tick(self.epoch as int, self.period as int, self.next as int);
        }
        Timestamp { nanos: self.next }
    }

    /// Asks the timer at the time `now` whether a tick is due.
    ///
    /// Before the deadline the timer says how long to wait, and stays as it
    /// is. From the deadline on it delivers one tick, whose logical time is
    /// the last tick time that is not after `now`, and arms itself for the
    /// tick time after that one. So the deadline is always a tick time, no
    /// matter how late the timer was asked, and ticks that were missed are
    /// dropped, not delivered late.
    pub fn fire(&mut self, now: Timestamp) -> (r: TickOutcome)
        requires
            now.nanos + old(self).spec_period() <= u64::MAX,
        ensures
            final(self).spec_epoch() == old(self).spec_epoch(),
            final(self).spec_period() == old(self).spec_period(),
            now.nanos < old(self).spec_deadline() ==> {
                &&& r == (TickOutcome::NotDue {
                    wait: Duration { nanos: (old(self).spec_deadline() - now.nanos) as u64 },
                })
                &&& final(self).spec_deadline() == old(self).spec_deadline()
            },
            now.nanos >= old(self).spec_deadline() ==> {
                let k = ticks_due(old(self).spec_epoch(), old(self).spec_period(), now.nanos as int);
                &&& k >= old(self).spec_next_tick()
                &&& r == (TickOutcome::Tick {
                    timestamp: Timestamp {
                        nanos: tick_time(old(self).spec_epoch(), old(self).spec_period(), k) as u64,
                    },
                    missed: (k - old(self).spec_next_tick()) as u64,
                })
                &&& final(self).spec_deadline() == tick_time(
                    old(self).spec_epoch(),
                    old(self).spec_period(),
                    k + 1,
                )
                &&& final(self).spec_next_tick() == k + 1
            },
    {
        proof {
            use_type_invariant(&*self);
        }
        if now.nanos < self.next {
            return TickOutcome::NotDue { wait: Duration { nanos: self.next - now.nanos } };
        }
        let elapsed: u64 = now.nanos - self.epoch;
        let k: u64 = elapsed / self.period;
        let next_k: u64 = (self.next - self.epoch) / self.period;
        proof {
            lemma_fire(self.epoch as int, self.period as int, self.next as int, now.nanos as int);
        }
        let timestamp: u64 = self.epoch + k * self.period;
        self.next = timestamp + self.period;
        TickOutcome::Tick { timestamp: Timestamp { nanos: timestamp }, missed: k - next_k }
    }

    /// The logical time of a tick that is asked for by hand at the time
    /// `now`: that time itself. The timer stays as it is, so a manual trigger
    /// does not move the periodic ticks.
    pub fn manual_tick(&self, now: Timestamp) -> (t: Timestamp)
        ensures
            t == now,
    {
        now
    }
}

/// A deadline that is a whole number of periods after the epoch is the time
/// of the tick with that number.
pub proof fn lemma_aligned_is_tick(epoch: int, period: int, next: int)
    requires
        period > 0,
        next > epoch,
        (next - epoch) % period == 0,
    ensures
        (next - epoch) / period >= 1,
        next == tick_time(epoch, period, (next - epoch) / period),
{
    let d = next - epoch;
    assert(d == period * (d / period) + d % period) by (nonlinear_arith)
        requires
            period > 0,
    ;
    assert(d / period >= 1) by (nonlinear_arith)
        requires
            period > 0,
            d > 0,
            d == period * (d / period),
    ;
    assert(period * (d / period) == (d / period) * period) by (nonlinear_arith);
}

/// The arithmetic of one tick: at or after the deadline `next`, the last
/// tick time that is not after `now` is `epoch + k * period` with
/// `k = (now - epoch) / period`; it is not before the deadline, and the
/// tick time after it is later than `now`.
pub proof fn lemma_fire(epoch: int, period: int, next: int, now: int)
    requires
        period > 0,
        next > epoch,
        (next - epoch) % period == 0,
        now >= next,
    ensures
        ({
            let k = (now - epoch) / period;
            let next_k = (next - epoch) / period;
            &&& k >= next_k >= 1
            &&& k * period >= 0
            &&& next <= epoch + k * period <= now < epoch + k * period + period
            &&& epoch + k * period + period == tick_time(epoch, period, k + 1)
            &&& ((epoch + k * period + period) - epoch) % period == 0
            &&& ((epoch + k * period + period) - epoch) / period == k + 1
        }),
{
    let k = (now - epoch) / period;
    let next_k = (next - epoch) / period;
    let e = now - epoch;
    let d = next - epoch;
    lemma_aligned_is_tick(epoch, period, next);
    assert(e == period * (e / period) + e % period && 0 <= e % period < period)
        by (nonlinear_arith)
        requires
            period > 0,
            e >= 0,
    ;
    assert(k >= next_k) by (nonlinear_arith)
        requires
            period > 0,
            e >= d,
            d == next_k * period,
            e == period * k + e % period,
            0 <= e % period < period,
    ;
    assert(k * period == period * k) by (nonlinear_arith);
    assert(k * period >= next_k * period) by (nonlinear_arith)
        requires
            k >= next_k,
            period > 0,
    ;
    assert(k * period + period == (k + 1) * period) by (nonlinear_arith);
    assert(((k + 1) * period) % period == 0 && ((k + 1) * period) / period == k + 1)
        by (nonlinear_arith)
        requires
            period > 0,
    ;
}

/// The deadline of a timer after it has been asked at each of the times in
/// `wakes`, in that order, having started with the deadline `next`.
pub open spec fn deadline_after(epoch: int, period: int, next: int, wakes: Seq<int>) -> int
    decreases wakes.len(),
{
    if wakes.len() == 0 {
        next
    } else {
        let before = deadline_after(epoch, period, next, wakes.drop_last());
        let now = wakes.last();
        if now < before {
            before
        } else {
            tick_time(epoch, period, ticks_due(epoch, period, now) + 1)
        }
    }
}

/// The logical time of the tick that the timer delivers when it is asked at
/// the last of the times in `wakes`, after having been asked at the others.
pub open spec fn delivered_time(epoch: int, period: int, next: int, wakes: Seq<int>) -> Option<
    int,
>
    recommends
        wakes.len() > 0,
{
    let before = deadline_after(epoch, period, next, wakes.drop_last());
    let now = wakes.last();
    if now < before {
        None
    } else {
        Some(tick_time(epoch, period, ticks_due(epoch, period, now)))
    }
}

/// Ticks do not drift. A timer that is asked once per period, each time at
/// or after the tick that is due and before the one that follows, delivers
/// as its `k`-th tick exactly `epoch + k * period`: the lateness of one
/// wake-up does not add to the next.
pub proof fn lemma_ticks_do_not_drift(epoch: int, period: int, wakes: Seq<int>)
    requires
        period > 0,
        forall|i: int|
            0 <= i < wakes.len() ==> tick_time(epoch, period, i + 1) <= #[trigger] wakes[i]
                < tick_time(epoch, period, i + 2),
    ensures
        deadline_after(epoch, period, tick_time(epoch, period, 1), wakes) == tick_time(
            epoch,
            period,
            wakes.len() as int + 1,
        ),
        wakes.len() > 0 ==> delivered_time(epoch, period, tick_time(epoch, period, 1), wakes)
            == Some(tick_time(epoch, period, wakes.len() as int)),
    decreases wakes.len(),
{
    if wakes.len() > 0 {
        let first = tick_time(epoch, period, 1);
        let n = wakes.len() as int;
        let earlier = wakes.drop_last();
        assert forall|i: int| 0 <= i < earlier.len() implies tick_time(epoch, period, i + 1)
            <= #[trigger] earlier[i] < tick_time(epoch, period, i + 2) by {
            assert(earlier[i] == wakes[i]);
        }
        lemma_ticks_do_not_drift(epoch, period, earlier);
        let now = wakes.last();
        assert(now == wakes[n - 1]);
        assert(tick_time(epoch, period, n) <= now < tick_time(epoch, period, n + 1));
        assert(deadline_after(epoch, period, first, earlier) == tick_time(epoch, period, n));
        assert(ticks_due(epoch, period, now) == n) by (nonlinear_arith)
            requires
                period > 0,
                epoch + n * period <= now < epoch + (n + 1) * period,
        ;
    }
}

/// Every tick that a timer delivers has a tick time as its logical time,
/// and the timer's deadline is a tick time too, however late or often it is
/// asked.
pub proof fn lemma_ticks_stay_aligned(epoch: int, period: int, wakes: Seq<int>)
    requires
        period > 0,
    ensures
        is_tick_time(epoch, period, deadline_after(epoch, period, tick_time(epoch, period, 1), wakes)),
        wakes.len() > 0 ==> (delivered_time(epoch, period, tick_time(epoch, period, 1), wakes)
            matches Some(t) ==> is_tick_time(epoch, period, t) && t <= wakes.last() < t + period),
    decreases wakes.len(),
{
    let first = tick_time(epoch, period, 1);
    if wakes.len() == 0 {
        assert(first == tick_time(epoch, period, 1));
    } else {
        let earlier = wakes.drop_last();
        lemma_ticks_stay_aligned(epoch, period, earlier);
        let before = deadline_after(epoch, period, first, earlier);
        let now = wakes.last();
        if now >= before {
            let j = choose|j: int| j >= 1 && before == #[trigger] tick_time(epoch, period, j);
            assert(before - epoch == j * period);
            assert((j * period) % period == 0 && j * period > 0) by (nonlinear_arith)
                requires
                    period > 0,
                    j >= 1,
            ;
            lemma_fire(epoch, period, before, now);
            let k = ticks_due(epoch, period, now);
            assert(tick_time(epoch, period, k) == epoch + k * period);
            assert(k >= 1);
            assert(k + 1 >= 1);
        }
    }
}

/// The logical times of the ticks that a timer delivers grow strictly: a
/// tick that comes after another has a later time.
pub proof fn lemma_ticks_increase(epoch: int, period: int, wakes: Seq<int>, earlier_len: int)
    requires
        period > 0,
        0 < earlier_len < wakes.len(),
        delivered_time(epoch, period, tick_time(epoch, period, 1), wakes.take(earlier_len)) is Some,
        delivered_time(epoch, period, tick_time(epoch, period, 1), wakes) is Some,
    ensures
        delivered_time(epoch, period, tick_time(epoch, period, 1), wakes.take(earlier_len))->0
            < delivered_time(epoch, period, tick_time(epoch, period, 1), wakes)->0,
{
    let first = tick_time(epoch, period, 1);
    let part = wakes.take(earlier_len);
    // After the earlier tick the deadline is one period past it.
    let t1 = delivered_time(epoch, period, first, part)->0;
    assert(deadline_after(epoch, period, first, part) == t1 + period) by {
        let k = ticks_due(epoch, period, part.last());
        assert(k * period + period == (k + 1) * period) by (nonlinear_arith);
    }
    lemma_deadline_grows(epoch, period, wakes.drop_last(), earlier_len);
    assert(wakes.drop_last().take(earlier_len) =~= part);
    let before = deadline_after(epoch, period, first, wakes.drop_last());
    assert(before >= t1 + period);
    lemma_ticks_stay_aligned(epoch, period, wakes.drop_last());
    let j = choose|j: int| j >= 1 && before == #[trigger] tick_time(epoch, period, j);
    assert((j * period) % period == 0 && j * period > 0) by (nonlinear_arith)
        requires
            period > 0,
            j >= 1,
    ;
    lemma_fire(epoch, period, before, wakes.last());
}

/// The deadline of a timer never goes back.
pub proof fn lemma_deadline_grows(epoch: int, period: int, wakes: Seq<int>, earlier_len: int)
    requires
        period > 0,
        0 <= earlier_len <= wakes.len(),
    ensures
        deadline_after(epoch, period, tick_time(epoch, period, 1), wakes.take(earlier_len))
            <= deadline_after(epoch, period, tick_time(epoch, period, 1), wakes),
    decreases wakes.len(),
{
    let first = tick_time(epoch, period, 1);
    if earlier_len == wakes.len() {
        assert(wakes.take(earlier_len) =~= wakes);
    } else {
        let earlier = wakes.drop_last();
        lemma_deadline_grows(epoch, period, earlier, earlier_len);
        assert(earlier.take(earlier_len) =~= wakes.take(earlier_len));
        let before = deadline_after(epoch, period, first, earlier);
        let now = wakes.last();
        if now >= before {
            lemma_ticks_stay_aligned(epoch, period, earlier);
            let j = choose|j: int| j >= 1 && before == #[trigger] tick_time(epoch, period, j);
            assert((j * period) % period == 0 && j * period > 0) by (nonlinear_arith)
                requires
                    period > 0,
                    j >= 1,
            ;
            lemma_fire(epoch, period, before, now);
        }
    }
}

} // verus!
