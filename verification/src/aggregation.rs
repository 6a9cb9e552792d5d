//! Plugin that sums the measurements of each metric over windows of time.
//!
//! Time is cut into windows of one interval each, starting at the multiples
//! of the interval. The points with values of type `u64` are held back and
//! added up, by metric, consumer and resource. When a point of a later
//! window comes, the window before it is closed and gives one point, which
//! carries the sum. Points with values of another type pass unchanged.

use vstd::prelude::*;
use vstd::string::*;
use crate::measurement::{
    MeasurementBuffer, MeasurementPoint, MeasurementPointView, WrappedMeasurementValue,
};
use crate::metrics::{
    has_metric, metric_position, Metric, MetricRegistry, MetricView, RawMetricId,
};
use crate::pipeline::elements::{Transform, TransformContext};
use crate::pipeline::error::TransformError;
use crate::time::{Duration, NANOS_PER_SEC};

verus! {

/// Settings of the plugin.
#[derive(Debug)]
pub struct Config {
    /// Length of a window.
    pub interval: Duration,
    /// Name of the function that is applied to the values of a window.
    pub function: String,
    /// Names of the metrics to aggregate.
    pub metrics: Vec<String>,
}

impl Default for Config {
    fn default() -> (c: Config)
        ensures
            c.interval.nanos == 60 * NANOS_PER_SEC,
            c.function@ == "sum"@,
            c.metrics@.len() == 0,
    {
        Config {
            interval: Duration::from_secs(60),
            function: String::from_str("sum"),
            metrics: Vec::new(),
        }
    }
}

/// The window of length `interval` that holds the time `timestamp`: it
/// starts at the largest multiple of the interval that is not after the
/// time, and ends one interval later.
pub open spec fn current_interval(interval: u64, timestamp: u64) -> (u64, u64) {
    (
        ((timestamp / interval) * interval) as u64,
        ((timestamp / interval) * interval + interval) as u64,
    )
}

/// The window of length `interval` that holds the time `timestamp`, as its
/// start and its end. Both are multiples of the interval, and the time is
/// at or after the start and before the end.
pub fn get_current_interval(interval: u64, timestamp: u64) -> (r: (u64, u64))
    requires
        interval > 0,
        (timestamp / interval) * interval + interval <= u64::MAX,
    ensures
        r == current_interval(interval, timestamp),
        r.0 <= timestamp < r.1,
        r.1 == r.0 + interval,
        r.0 % interval == 0,
{
    let t = timestamp / interval;
    proof {
        lemma_window(interval as int, timestamp as int);
    }
    let start = t * interval;
    (start, start + interval)
}

/// The arithmetic of a window: the largest multiple of the interval that
/// is not after the time is less than one interval before it.
pub proof fn lemma_window(interval: int, timestamp: int)
    requires
        interval > 0,
        timestamp >= 0,
    ensures
        0 <= (timestamp / interval) * interval <= timestamp < (timestamp / interval) * interval
            + interval,
        ((timestamp / interval) * interval) % interval == 0,
{
    let q = timestamp / interval;
    assert(timestamp == interval * q + timestamp % interval && 0 <= timestamp % interval
        < interval && q >= 0) by (nonlinear_arith)
        requires
            interval > 0,
            timestamp >= 0,
            q == timestamp / interval,
    ;
    assert(q * interval == interval * q) by (nonlinear_arith);
    assert((q * interval) % interval == 0) by (nonlinear_arith)
        requires
            interval > 0,
    ;
}

/// What a window is kept by: the metric, and the identifiers of the
/// consumer and of the resource, empty where there is none.
pub struct WindowKey {
    pub metric: RawMetricId,
    pub consumer: Seq<char>,
    pub resource: Seq<char>,
}

/// The key of the window that the point `p` belongs to.
pub open spec fn point_key(p: MeasurementPointView) -> WindowKey {
    WindowKey {
        metric: p.metric,
        consumer: match p.consumer.id_string() {
            Some(id) => id,
            None => Seq::empty(),
        },
        resource: match p.resource.id_string() {
            Some(id) => id,
            None => Seq::empty(),
        },
    }
}

/// A window that is still open.
#[derive(Debug)]
pub struct OpenWindow {
    pub metric: RawMetricId,
    pub consumer: String,
    pub resource: String,
    /// Start of the window, in seconds.
    pub start: u64,
    /// Sum of the values of the window so far; it stops at `u64::MAX`.
    pub sum: u64,
    /// The first point of the window.
    pub first: MeasurementPoint,
}

/// Mathematical value of an [`OpenWindow`].
pub struct OpenWindowView {
    pub key: WindowKey,
    pub start: u64,
    pub sum: u64,
    pub first: MeasurementPointView,
}

impl View for OpenWindow {
    type V = OpenWindowView;

    open spec fn view(&self) -> OpenWindowView {
        OpenWindowView {
            key: WindowKey {
                metric: self.metric,
                consumer: self.consumer@,
                resource: self.resource@,
            },
            start: self.start,
            sum: self.sum,
            first: self.first@,
        }
    }
}

/// The windows in `windows`, each as its mathematical value.
pub open spec fn windows_view(windows: Seq<OpenWindow>) -> Seq<OpenWindowView> {
    windows.map_values(|w: OpenWindow| w@)
}

/// The position of the first window with the key `key`, or the length of
/// `windows` if there is none.
pub open spec fn window_position(windows: Seq<OpenWindowView>, key: WindowKey) -> int
    decreases windows.len(),
{
    if windows.len() == 0 {
        0
    } else if windows[0].key == key {
        0
    } else {
        1 + window_position(windows.skip(1), key)
    }
}

/// The start of the window of length `interval` seconds that holds the
/// point `p`, in seconds.
pub open spec fn window_start(interval: u64, p: MeasurementPointView) -> u64 {
    current_interval(interval, p.timestamp.nanos / NANOS_PER_SEC).0
}

/// The sum of `x` and `y`, or `u64::MAX` if the sum is above that.
pub open spec fn saturating_sum(x: u64, y: u64) -> u64 {
    if x + y > u64::MAX {
        u64::MAX
    } else {
        (x + y) as u64
    }
}

/// The window that the point `p` with the value `value` opens.
pub open spec fn opened_by(interval: u64, p: MeasurementPointView, value: u64) -> OpenWindowView {
    OpenWindowView { key: point_key(p), start: window_start(interval, p), sum: value, first: p }
}

/// The open windows after the point `p` has come.
pub open spec fn windows_after_point(
    windows: Seq<OpenWindowView>,
    interval: u64,
    p: MeasurementPointView,
) -> Seq<OpenWindowView> {
    match p.value {
        WrappedMeasurementValue::F64(_) => windows,
        WrappedMeasurementValue::U64(value) => {
            let at = window_position(windows, point_key(p));
            if at >= windows.len() {
                windows.push(opened_by(interval, p, value))
            } else if window_start(interval, p) > windows[at].start {
                windows.update(at, opened_by(interval, p, value))
            } else {
                windows.update(
                    at,
                    OpenWindowView { sum: saturating_sum(windows[at].sum, value), ..windows[at] },
                )
            }
        },
    }
}

/// The points that go on after the point `p` has come: `p` itself if its
/// value is not of type `u64`; the first point of the window that `p`
/// closes, with the sum of the window as its value; or nothing.
pub open spec fn emitted_by_point(
    windows: Seq<OpenWindowView>,
    interval: u64,
    p: MeasurementPointView,
) -> Seq<MeasurementPointView> {
    match p.value {
        WrappedMeasurementValue::F64(_) => seq![p],
        WrappedMeasurementValue::U64(_) => {
            let at = window_position(windows, point_key(p));
            if at < windows.len() && window_start(interval, p) > windows[at].start {
                seq![
                    MeasurementPointView {
                        value: WrappedMeasurementValue::U64(windows[at].sum),
                        ..windows[at].first
                    },
                ]
            } else {
                Seq::empty()
            }
        },
    }
}

/// The open windows after the points `points` have come, one after the other.
pub open spec fn windows_after(
    windows: Seq<OpenWindowView>,
    interval: u64,
    points: Seq<MeasurementPointView>,
) -> Seq<OpenWindowView>
    decreases points.len(),
{
    if points.len() == 0 {
        windows
    } else {
        windows_after_point(
            windows_after(windows, interval, points.drop_last()),
            interval,
            points.last(),
        )
    }
}

/// The points that go on after the points `points` have come, one after the
/// other.
pub open spec fn emitted_after(
    windows: Seq<OpenWindowView>,
    interval: u64,
    points: Seq<MeasurementPointView>,
) -> Seq<MeasurementPointView>
    decreases points.len(),
{
    if points.len() == 0 {
        Seq::empty()
    } else {
        emitted_after(windows, interval, points.drop_last()) + emitted_by_point(
            windows_after(windows, interval, points.drop_last()),
            interval,
            points.last(),
        )
    }
}

proof fn lemma_window_position_is(windows: Seq<OpenWindowView>, key: WindowKey, at: int)
    requires
        0 <= at <= windows.len(),
        at < windows.len() ==> windows[at].key == key,
        forall|i: int| 0 <= i < at ==> (#[trigger] windows[i]).key != key,
    ensures
        window_position(windows, key) == at,
    decreases at,
{
    if at > 0 {
        let rest = windows.skip(1);
        assert forall|i: int| 0 <= i < at - 1 implies (#[trigger] rest[i]).key != key by {
            assert(rest[i] == windows[i + 1]);
        }
        assert(windows[0].key != key);
        lemma_window_position_is(rest, key, at - 1);
    }
}

/// The sums of the windows in `windows`, added up.
pub open spec fn held_total(windows: Seq<OpenWindowView>) -> int
    decreases windows.len(),
{
    if windows.len() == 0 {
        0
    } else {
        held_total(windows.drop_last()) + windows.last().sum
    }
}

/// The values of type `u64` of the points in `points`, added up.
pub open spec fn value_total(points: Seq<MeasurementPointView>) -> int
    decreases points.len(),
{
    if points.len() == 0 {
        0
    } else {
        value_total(points.drop_last()) + match points.last().value {
            WrappedMeasurementValue::U64(v) => v as int,
            WrappedMeasurementValue::F64(_) => 0,
        }
    }
}

proof fn lemma_held_total_update(windows: Seq<OpenWindowView>, at: int, w: OpenWindowView)
    requires
        0 <= at < windows.len(),
    ensures
        held_total(windows.update(at, w)) == held_total(windows) - windows[at].sum + w.sum,
    decreases windows.len(),
{
    let after = windows.update(at, w);
    if at == windows.len() - 1 {
        assert(after.drop_last() =~= windows.drop_last());
    } else {
        assert(after.drop_last() =~= windows.drop_last().update(at, w));
        lemma_held_total_update(windows.drop_last(), at, w);
    }
}

proof fn lemma_held_total_nonnegative(windows: Seq<OpenWindowView>)
    ensures
        0 <= held_total(windows),
    decreases windows.len(),
{
    if windows.len() > 0 {
        lemma_held_total_nonnegative(windows.drop_last());
    }
}

proof fn lemma_held_total_bounds(windows: Seq<OpenWindowView>, at: int)
    requires
        0 <= at < windows.len(),
    ensures
        0 <= windows[at].sum <= held_total(windows),
    decreases windows.len(),
{
    lemma_held_total_nonnegative(windows.drop_last());
    if at < windows.len() - 1 {
        assert(windows.drop_last()[at] == windows[at]);
        lemma_held_total_bounds(windows.drop_last(), at);
    }
}

proof fn lemma_value_total_single(p: MeasurementPointView)
    ensures
        value_total(seq![p]) == match p.value {
            WrappedMeasurementValue::U64(v) => v as int,
            WrappedMeasurementValue::F64(_) => 0,
        },
{
    assert(seq![p].drop_last() =~= Seq::<MeasurementPointView>::empty());
    assert(value_total(seq![p].drop_last()) == 0);
    assert(seq![p].last() == p);
}

proof fn lemma_value_total_concat(a: Seq<MeasurementPointView>, b: Seq<MeasurementPointView>)
    ensures
        value_total(a + b) == value_total(a) + value_total(b),
    decreases b.len(),
{
    if b.len() == 0 {
        assert(a + b =~= a);
    } else {
        assert((a + b).drop_last() =~= a + b.drop_last());
        lemma_value_total_concat(a, b.drop_last());
    }
}

proof fn lemma_position_in_range(windows: Seq<OpenWindowView>, key: WindowKey)
    ensures
        0 <= window_position(windows, key) <= windows.len(),
    decreases windows.len(),
{
    if windows.len() > 0 && windows[0].key != key {
        lemma_position_in_range(windows.skip(1), key);
    }
}

/// Nothing is lost and nothing is counted twice. As long as the sums stay
/// below the largest number, the values that went into the transform are
/// the values that came out of it together with the sums it still holds:
/// every value is in exactly one window, and a window gives its sum out
/// once, when it is closed.
pub proof fn lemma_sums_are_kept(
    windows: Seq<OpenWindowView>,
    interval: u64,
    points: Seq<MeasurementPointView>,
)
    requires
        held_total(windows) + value_total(points) <= u64::MAX,
    ensures
        held_total(windows_after(windows, interval, points)) + value_total(
            emitted_after(windows, interval, points),
        ) == held_total(windows) + value_total(points),
    decreases points.len(),
{
    if points.len() > 0 {
        let earlier = points.drop_last();
        let p = points.last();
        let before = windows_after(windows, interval, earlier);
        let out = emitted_after(windows, interval, earlier);
        lemma_sums_are_kept(windows, interval, earlier);
        lemma_value_total_concat(out, emitted_by_point(before, interval, p));
        assert(0 <= value_total(out)) by {
            lemma_value_total_nonnegative(out);
        }
        let step = emitted_by_point(before, interval, p);
        let after = windows_after_point(before, interval, p);
        assert(windows_after(windows, interval, points) == after);
        assert(emitted_after(windows, interval, points) == out + step);
        match p.value {
            WrappedMeasurementValue::F64(_) => {
                lemma_value_total_single(p);
                assert(value_total(step) == 0);
            },
            WrappedMeasurementValue::U64(value) => {
                let at = window_position(before, point_key(p));
                lemma_position_in_range(before, point_key(p));
                if at >= before.len() {
                    assert(after.drop_last() =~= before);
                    assert(after.last().sum == value);
                    assert(value_total(step) == 0);
                } else if window_start(interval, p) > before[at].start {
                    lemma_held_total_update(before, at, opened_by(interval, p, value));
                    lemma_value_total_single(
                        MeasurementPointView {
                            value: WrappedMeasurementValue::U64(before[at].sum),
                            ..before[at].first
                        },
                    );
                    assert(value_total(step) == before[at].sum);
                } else {
                    assert(value_total(step) == 0);
                    lemma_held_total_bounds(before, at);
                    lemma_held_total_update(
                        before,
                        at,
                        OpenWindowView { sum: saturating_sum(before[at].sum, value), ..before[at] },
                    );
                }
            },
        }
    }
}

proof fn lemma_value_total_nonnegative(points: Seq<MeasurementPointView>)
    ensures
        0 <= value_total(points),
    decreases points.len(),
{
    if points.len() > 0 {
        lemma_value_total_nonnegative(points.drop_last());
    }
}

/// The transform of the plugin.
#[derive(Debug)]
pub struct AggregationTransform {
    interval: Duration,
    internal_buffer: Vec<OpenWindow>,
}

impl AggregationTransform {
    /// The length of a window.
    pub closed spec fn spec_interval(&self) -> Duration {
        self.interval
    }

    /// The windows that are open.
    pub closed spec fn spec_windows(&self) -> Seq<OpenWindowView> {
        windows_view(self.internal_buffer@)
    }

    /// A transform that sums over windows of length `interval`, with no
    /// window open.
    pub fn new(interval: Duration) -> (t: AggregationTransform)
        ensures
            t.spec_interval() == interval,
            t.spec_windows() == Seq::<OpenWindowView>::empty(),
    {
        let t = AggregationTransform { interval, internal_buffer: Vec::new() };
        assert(t.spec_windows() =~= Seq::<OpenWindowView>::empty());
        t
    }

    /// The number of windows that are open.
    pub fn open_windows(&self) -> (n: usize)
        ensures
            n == self.spec_windows().len(),
    {
        self.internal_buffer.len()
    }

    fn position(&self, metric: RawMetricId, consumer: &String, resource: &String) -> (at: usize)
        ensures
            at == window_position(
                self.spec_windows(),
                WindowKey { metric, consumer: consumer@, resource: resource@ },
            ),
            at <= self.spec_windows().len(),
    {
        let ghost key = WindowKey { metric, consumer: consumer@, resource: resource@ };
        let ghost windows = self.spec_windows();
        let mut i: usize = 0;
        while i < self.internal_buffer.len()
            invariant
                i <= self.internal_buffer@.len(),
                windows == windows_view(self.internal_buffer@),
                key == (WindowKey { metric, consumer: consumer@, resource: resource@ }),
                forall|j: int| 0 <= j < i ==> (#[trigger] windows[j]).key != key,
            decreases self.internal_buffer@.len() - i,
        {
            let w = &self.internal_buffer[i];
            if w.metric == metric && w.consumer == *consumer && w.resource == *resource {
                proof {
                    assert(windows[i as int].key =~= key);
                    lemma_window_position_is(windows, key, i as int);
                }
                return i;
            }
            assert(windows[i as int].key != key);
            i += 1;
        }
        proof {
            lemma_window_position_is(windows, key, windows.len() as int);
        }
        i
    }

    /// Takes in the point `p` and adds to `out` what goes on.
    fn take_point(&mut self, p: MeasurementPoint, out: &mut Vec<MeasurementPoint>)
        requires
            old(self).spec_interval().nanos >= NANOS_PER_SEC,
        ensures
            final(self).spec_interval() == old(self).spec_interval(),
            final(self).spec_windows() == windows_after_point(
                old(self).spec_windows(),
                old(self).spec_interval().nanos / NANOS_PER_SEC,
                p@,
            ),
            crate::measurement::points_view(final(out)@) == crate::measurement::points_view(
                old(out)@,
            ) + emitted_by_point(
                old(self).spec_windows(),
                old(self).spec_interval().nanos / NANOS_PER_SEC,
                p@,
            ),
    {
        let ghost before_out = crate::measurement::points_view(out@);
        let ghost windows = self.spec_windows();
        let interval = self.interval.as_secs();
        let value = match p.value {
            WrappedMeasurementValue::F64(_) => {
                out.push(p);
                assert(crate::measurement::points_view(out@) =~= before_out + seq![p@]);
                return ;
            },
            WrappedMeasurementValue::U64(v) => v,
        };
        let consumer = match p.consumer.id_string() {
            Some(id) => id,
            None => String::new(),
        };
        let resource = match p.resource.id_string() {
            Some(id) => id,
            None => String::new(),
        };
        let seconds = p.timestamp.to_unix_timestamp().0;
        proof {
            lemma_window(interval as int, seconds as int);
        }
        let start = get_current_interval(interval, seconds).0;
        let at = self.position(p.metric, &consumer, &resource);
        assert(point_key(p@) =~= (WindowKey {
            metric: p.metric,
            consumer: consumer@,
            resource: resource@,
        }));
        if at >= self.internal_buffer.len() {
            let opened = OpenWindow {
                metric: p.metric,
                consumer,
                resource,
                start,
                sum: value,
                first: p,
            };
            self.internal_buffer.push(opened);
            assert(self.spec_windows() =~= windows.push(opened_by(interval, p@, value)));
            assert(crate::measurement::points_view(out@) =~= before_out + Seq::empty());
        } else if start > self.internal_buffer[at].start {
            let mut closed = self.internal_buffer[at].first.clone();
            closed.value = WrappedMeasurementValue::U64(self.internal_buffer[at].sum);
            let opened = OpenWindow {
                metric: p.metric,
                consumer,
                resource,
                start,
                sum: value,
                first: p,
            };
            self.internal_buffer[at] = opened;
            assert(self.spec_windows() =~= windows.update(
                at as int,
                opened_by(interval, p@, value),
            ));
            out.push(closed);
            assert(crate::measurement::points_view(out@) =~= before_out + seq![closed@]);
        } else {
            let sum = self.internal_buffer[at].sum;
            let total = match sum.checked_add(value) {
                Some(t) => t,
                None => u64::MAX,
            };
            self.internal_buffer[at].sum = total;
            assert(self.spec_windows() =~= windows.update(
                at as int,
                OpenWindowView { sum: saturating_sum(sum, value), ..windows[at as int] },
            ));
            assert(crate::measurement::points_view(out@) =~= before_out + Seq::empty());
        }
    }

    /// Takes in the points of `measurements`, in their order, and leaves in
    /// the buffer what goes on to the outputs: the points with values that
    /// are not of type `u64`, and one point for each window that was closed.
    /// A transform with an interval below one second has no windows: that
    /// is a fatal error, and the buffer is left alone.
    pub fn aggregate(&mut self, measurements: &mut MeasurementBuffer) -> (r: Result<
        (),
        TransformError,
    >)
        ensures
            final(self).spec_interval() == old(self).spec_interval(),
            r is Ok == (old(self).spec_interval().nanos >= NANOS_PER_SEC),
            r is Err ==> (r matches Err(TransformError::Fatal(_))) && final(measurements)@ == old(measurements)@ && final(self).spec_windows() == old(self).spec_windows(),
            r is Ok ==> final(self).spec_windows() == windows_after(
                old(self).spec_windows(),
                old(self).spec_interval().nanos / NANOS_PER_SEC,
                old(measurements)@,
            ) && final(measurements)@ == emitted_after(
                old(self).spec_windows(),
                old(self).spec_interval().nanos / NANOS_PER_SEC,
                old(measurements)@,
            ),
    {
        if self.interval.as_secs() == 0 {
            return Err(
                TransformError::Fatal(String::from_str("the interval is shorter than one second")),
            );
        }
        let ghost interval = self.interval.nanos / NANOS_PER_SEC;
        let ghost windows = self.spec_windows();
        let ghost all = measurements@;
        let mut input: Vec<MeasurementPoint> = Vec::new();
        core::mem::swap(&mut measurements.points, &mut input);
        let mut out: Vec<MeasurementPoint> = Vec::new();
        assert(all.take(0) =~= Seq::empty());
        assert(crate::measurement::points_view(out@) =~= Seq::empty());
        for p in it: input
            invariant
                crate::measurement::points_view(it.seq()) == all,
                self.spec_interval() == old(self).spec_interval(),
                self.spec_interval().nanos >= NANOS_PER_SEC,
                interval == self.spec_interval().nanos / NANOS_PER_SEC,
                self.spec_windows() == windows_after(windows, interval, all.take(it.index() as int)),
                crate::measurement::points_view(out@) == emitted_after(
                    windows,
                    interval,
                    all.take(it.index() as int),
                ),
        {
            let ghost i = it.index() as int;
            assert(all.take(i + 1).drop_last() =~= all.take(i));
            assert(all.take(i + 1).last() == p@);
            self.take_point(p, &mut out);
        }
        assert(all.take(all.len() as int) =~= all);
        measurements.points = out;
        Ok(())
    }
}

impl Transform for AggregationTransform {
    /// Takes in the points of `measurements`, in their order, and leaves in
    /// the buffer what goes on to the outputs, as [`aggregate`] does: the
    /// windows take the points with values of type `u64`, each closed window
    /// gives one point with its sum, and the other points pass unchanged.
    /// With an interval below one second the error is fatal, and neither
    /// the buffer nor the windows change. The context is not looked at.
    ///
    /// [`aggregate`]: AggregationTransform::aggregate
    fn apply(&mut self, measurements: &mut MeasurementBuffer, ctx: &TransformContext) -> (r:
        Result<(), TransformError>)
        ensures
            final(self).spec_interval() == old(self).spec_interval(),
            r is Ok == (old(self).spec_interval().nanos >= NANOS_PER_SEC),
            r is Err ==> (r matches Err(TransformError::Fatal(_))) && final(measurements)@ == old(measurements)@ && final(self).spec_windows() == old(self).spec_windows(),
            r is Ok ==> final(self).spec_windows() == windows_after(
                old(self).spec_windows(),
                old(self).spec_interval().nanos / NANOS_PER_SEC,
                old(measurements)@,
            ) && final(measurements)@ == emitted_after(
                old(self).spec_windows(),
                old(self).spec_interval().nanos / NANOS_PER_SEC,
                old(measurements)@,
            ),
    {
        self.aggregate(measurements)
    }
}

/// The plugin.
#[derive(Debug)]
pub struct AggregationPlugin {
    pub config: Config,
}

/// A metric of the settings is not in the registry.
#[derive(Clone, Copy, Debug, PartialEq, Eq, Structural)]
pub struct MetricNotFound {
    /// Position of the name in the settings.
    pub position: usize,
}

/// The metric that holds the aggregate of `source` under the function
/// `function`: the same unit, description and type of values, and the name
/// of the source, a `-` and the function.
pub open spec fn derived_metric(source: MetricView, function: Seq<char>) -> MetricView {
    MetricView { name: source.name + seq!['-'] + function, ..source }
}

/// The names in `names`, each as the sequence of its characters.
pub open spec fn names_view(names: Seq<String>) -> Seq<Seq<char>> {
    names.map_values(|n: String| n@)
}

/// The number of names at the start of `names` that are names of metrics.
pub open spec fn found_before_missing(metrics: Seq<MetricView>, names: Seq<Seq<char>>) -> int
    decreases names.len(),
{
    if names.len() == 0 {
        0
    } else if !has_metric(metrics, names[0]) {
        0
    } else {
        1 + found_before_missing(metrics, names.skip(1))
    }
}

proof fn lemma_found_before_missing(metrics: Seq<MetricView>, names: Seq<Seq<char>>, n: int)
    requires
        0 <= n <= names.len(),
        forall|i: int| 0 <= i < n ==> has_metric(metrics, #[trigger] names[i]),
        n < names.len() ==> !has_metric(metrics, names[n]),
    ensures
        found_before_missing(metrics, names) == n,
    decreases n,
{
    if n > 0 {
        let rest = names.skip(1);
        assert forall|i: int| 0 <= i < n - 1 implies has_metric(metrics, #[trigger] rest[i]) by {
            assert(rest[i] == names[i + 1]);
        }
        assert(has_metric(metrics, names[0]));
        lemma_found_before_missing(metrics, rest, n - 1);
    }
}

impl AggregationPlugin {
    /// Name of the plugin.
    pub fn name() -> (n: &'static str)
        ensures
            n@ == "aggregation"@,
    {
        "aggregation"
    }

    /// Version of the plugin.
    pub fn version() -> (v: &'static str)
        ensures
            v@ == "0.1.0"@,
    {
        "0.1.0"
    }

    /// The settings that the plugin has when none are given: windows of one
    /// minute, the sum, and no metric.
    pub fn default_config() -> (c: Config)
        ensures
            c.interval.nanos == 60 * NANOS_PER_SEC,
            c.function@ == "sum"@,
            c.metrics@.len() == 0,
    {
        Config::default()
    }

    /// The plugin with the settings `config`.
    pub fn init(config: Config) -> (p: AggregationPlugin)
        ensures
            p.config == config,
    {
        AggregationPlugin { config }
    }

    /// Starts the plugin: gives the transform to register, which sums over
    /// windows of the interval of the settings.
    pub fn start(&mut self) -> (t: AggregationTransform)
        ensures
            *final(self) == *old(self),
            t.spec_interval() == old(self).config.interval,
            t.spec_windows() == Seq::<OpenWindowView>::empty(),
    {
        AggregationTransform::new(self.config.interval)
    }

    /// The metrics that hold the aggregates: one for each metric that the
    /// settings name, in their order. A name that is not in the registry is
    /// an error; the first such name is reported.
    pub fn pre_pipeline_start(&self, metrics: &MetricRegistry) -> (r: Result<
        Vec<Metric>,
        MetricNotFound,
    >)
        ensures
            ({
                let names = names_view(self.config.metrics@);
                let found = found_before_missing(metrics@, names);
                &&& r is Ok == (found == names.len())
                &&& r matches Err(e) ==> e.position == found
                &&& r matches Ok(derived) ==> derived@.len() == names.len() && forall|k: int|
                    0 <= k < names.len() ==> (#[trigger] derived@[k])@ == derived_metric(
                        metrics@[metric_position(metrics@, names[k])],
                        self.config.function@,
                    )
            }),
    {
        proof {
            reveal_strlit("-");
        }
        let ghost names = names_view(self.config.metrics@);
        let mut new_metrics: Vec<Metric> = Vec::new();
        let mut i: usize = 0;
        while i < self.config.metrics.len()
            invariant
                i <= self.config.metrics@.len(),
                names == names_view(self.config.metrics@),
                new_metrics@.len() == i,
                forall|k: int| 0 <= k < i ==> has_metric(metrics@, #[trigger] names[k]),
                forall|k: int|
                    0 <= k < i ==> (#[trigger] new_metrics@[k])@ == derived_metric(
                        metrics@[metric_position(metrics@, names[k])],
                        self.config.function@,
                    ),
            decreases self.config.metrics@.len() - i,
        {
            let metric_name = self.config.metrics[i].as_str();
            assert(names[i as int] == metric_name@);
            match metrics.by_name(metric_name) {
                None => {
                    proof {
                        lemma_found_before_missing(metrics@, names, i as int);
                    }
                    return Err(MetricNotFound { position: i });
                },
                Some((_raw_metric_id, metric)) => {
                    proof {
                        reveal_strlit("-");
                    }
                    let mut name = String::from_str(metric_name);
                    name.append("-");
                    name.append(self.config.function.as_str());
                    let new_metric = Metric {
                        name,
                        unit: metric.unit,
                        description: metric.description.clone(),
                        value_type: metric.value_type,
                    };
                    assert(new_metric@.name =~= metric@.name + seq!['-'] + self.config.function@);
                    assert(new_metric@ == derived_metric(metric@, self.config.function@));
                    new_metrics.push(new_metric);
                },
            }
            i += 1;
        }
        proof {
            lemma_found_before_missing(metrics@, names, names.len() as int);
        }
        Ok(new_metrics)
    }

    /// Stops the plugin.
    pub fn stop(&mut self)
        ensures
            *final(self) == *old(self),
    {
    }
}

} // verus!
