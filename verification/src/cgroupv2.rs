//! A source that reports the processor time and the memory of one control
//! group, from readings of its `cpu.stat` and `memory.stat` files.

use vstd::prelude::*;
use vstd::string::*;
use crate::counter::{counter_update, CounterDiff};
use crate::measurement::{
    AttributeValue, AttributeValueView, AttributeView, MeasurementAccumulator, MeasurementPoint,
    MeasurementPointView, WrappedMeasurementValue,
};
use crate::measurement::WrappedMeasurementType;
use crate::metrics::{
    created_before_refusal, has_metric, lemma_all_created, lemma_refusal_is_duplicate,
    metric_names_distinct, valid_metric_name, Metric, MetricCreationError, MetricRegistry,
    MetricView, RawMetricId, TypedMetricId,
};
use crate::units::{PrefixedUnit, Unit, UnitPrefix};
use crate::pipeline::error::PollError;
use crate::resources::{Resource, ResourceConsumer, ResourceConsumerView, ResourceView};
use crate::text::{
    first_position, parse_u64, parsed_u64, split_at_first, split_once, str_eq, trim, trimmed,
};
use crate::time::Timestamp;

verus! {

/// The files of one control group that a probe reads.
#[derive(Debug)]
pub struct CgroupV2MetricFile {
    /// Name of the control group.
    pub name: String,
    /// Path of the file that holds the processor statistics.
    pub path_cpu: String,
    /// Path of the file that holds the memory statistics.
    pub path_memory: String,
}

/// One reading of the statistics of a control group.
#[derive(Debug)]
pub struct CgroupMeasurements {
    /// Name of the pod that the control group belongs to.
    pub pod_name: String,
    /// Processor time used so far, in total.
    pub cpu_time_total: u64,
    /// Processor time used so far in user mode.
    pub cpu_time_user_mode: u64,
    /// Processor time used so far in system mode.
    pub cpu_time_system_mode: u64,
    /// Memory of the running processes that no file backs.
    pub memory_anonymous: u64,
    /// Memory that caches files.
    pub memory_file: u64,
    /// Memory of the kernel's own data.
    pub memory_kernel: u64,
    /// Memory of the page tables.
    pub memory_pagetables: u64,
}

/// The metrics that a probe of a control group reports.
#[derive(Clone, Copy, Debug)]
pub struct Metrics {
    pub cpu_time_total: TypedMetricId<u64>,
    pub cpu_time_user_mode: TypedMetricId<u64>,
    pub cpu_time_system_mode: TypedMetricId<u64>,
    pub memory_anonymous: TypedMetricId<u64>,
    pub memory_file: TypedMetricId<u64>,
    pub memory_kernel: TypedMetricId<u64>,
    pub memory_pagetables: TypedMetricId<u64>,
    pub memory_total: TypedMetricId<u64>,
}

/// The definition of a metric of control groups: values of type `u64` in
/// the unit `unit`.
pub open spec fn cgroup_metric(name: Seq<char>, description: Seq<char>, unit: PrefixedUnit) -> MetricView {
    MetricView { name, description, value_type: WrappedMeasurementType::U64, unit }
}

/// The eight metrics of control groups, in the order of their creation.
pub open spec fn cgroup_metrics() -> Seq<MetricView> {
    let micro = PrefixedUnit { base_unit: Unit::Second, prefix: UnitPrefix::Micro };
    let byte = PrefixedUnit { base_unit: Unit::Byte, prefix: UnitPrefix::Plain };
    seq![
        cgroup_metric("cgroup_cpu_usage_total"@, "Total CPU usage time by the cgroup"@, micro),
        cgroup_metric("cgroup_cpu_usage_user"@, "CPU in user mode usage time by the cgroup"@, micro),
        cgroup_metric(
            "cgroup_cpu_usage_system"@,
            "CPU in system mode usage time by the cgroup"@,
            micro,
        ),
        cgroup_metric(
            "cgroup_memory_anonymous"@,
            "Anonymous used memory by the cgroup"@,
            byte,
        ),
        cgroup_metric("cgroup_memory_file"@, "Files memory for the cgroup"@, byte),
        cgroup_metric("cgroup_memory_kernel"@, "Memory reserved for kernel stack"@, byte),
        cgroup_metric(
            "cgroup_memory_pagetables"@,
            "Memory used to manage correspondence between virtual and physical addresses"@,
            byte,
        ),
        cgroup_metric("cgroup_memory_total"@, "Total memory used by the cgroup"@, byte),
    ]
}

/// The names of the eight metrics are names that a metric can have, and no
/// two of them are the same.
pub proof fn lemma_cgroup_metric_names()
    ensures
        cgroup_metrics().len() == 8,
        metric_names_distinct(cgroup_metrics()),
        forall|k: int| 0 <= k < 8 ==> valid_metric_name((#[trigger] cgroup_metrics()[k]).name),
{
    reveal_strlit("cgroup_cpu_usage_total");
    reveal_strlit("cgroup_cpu_usage_user");
    reveal_strlit("cgroup_cpu_usage_system");
    reveal_strlit("cgroup_memory_anonymous");
    reveal_strlit("cgroup_memory_file");
    reveal_strlit("cgroup_memory_kernel");
    reveal_strlit("cgroup_memory_pagetables");
    reveal_strlit("cgroup_memory_total");
    let names = cgroup_metrics();
    assert(names[0].name.len() == 22);
    assert(names[1].name.len() == 21);
    assert(names[2].name.len() == 23 && names[2].name[7] == 'c');
    assert(names[3].name.len() == 23 && names[3].name[7] == 'm');
    assert(names[4].name.len() == 18);
    assert(names[5].name.len() == 20);
    assert(names[6].name.len() == 24);
    assert(names[7].name.len() == 19);
    assert(valid_metric_name(names[0].name));
    assert(valid_metric_name(names[1].name));
    assert(valid_metric_name(names[2].name));
    assert(valid_metric_name(names[3].name));
    assert(valid_metric_name(names[4].name));
    assert(valid_metric_name(names[5].name));
    assert(valid_metric_name(names[6].name));
    assert(valid_metric_name(names[7].name));
}

fn definition(name: &str, description: &str, unit: PrefixedUnit) -> (m: Metric)
    ensures
        m@ == cgroup_metric(name@, description@, unit),
{
    Metric {
        name: String::from_str(name),
        description: String::from_str(description),
        value_type: WrappedMeasurementType::U64,
        unit,
    }
}

fn typed(raw: RawMetricId) -> (id: TypedMetricId<u64>)
    ensures
        id.raw == raw,
{
    TypedMetricId { raw, value_type: core::marker::PhantomData }
}

impl Metrics {
    /// Creates the eight metrics of control groups in `registry`, one after
    /// the other. If none of their names is taken, all are created: the
    /// registry has them at its end, and the identifiers are theirs. The
    /// first name that is taken ends the creation with the error of a
    /// duplicate; the metrics before it stay.
    pub fn new(registry: &mut MetricRegistry) -> (r: Result<Metrics, MetricCreationError>)
        ensures
            ({
                let created = created_before_refusal(old(registry)@, cgroup_metrics());
                &&& 0 <= created <= 8
                &&& final(registry)@ == old(registry)@ + cgroup_metrics().take(created)
                &&& r is Ok == (created == 8)
                &&& r is Err ==> r == Err::<Metrics, MetricCreationError>(
                    MetricCreationError::Duplicate,
                )
            }),
            (forall|k: int| 0 <= k < 8 ==> !has_metric(old(registry)@, cgroup_metrics()[k].name))
                ==> r is Ok,
            r matches Ok(m) ==> {
                let n = old(registry)@.len();
                &&& final(registry)@ == old(registry)@ + cgroup_metrics()
                &&& m.cpu_time_total.raw.index == n
                &&& m.cpu_time_user_mode.raw.index == n + 1
                &&& m.cpu_time_system_mode.raw.index == n + 2
                &&& m.memory_anonymous.raw.index == n + 3
                &&& m.memory_file.raw.index == n + 4
                &&& m.memory_kernel.raw.index == n + 5
                &&& m.memory_pagetables.raw.index == n + 6
                &&& m.memory_total.raw.index == n + 7
            },
    {
        let micro = PrefixedUnit::micro(Unit::Second);
        let byte = PrefixedUnit::plain(Unit::Byte);
        let mut requests: Vec<Metric> = Vec::new();
        requests.push(
            definition("cgroup_cpu_usage_total", "Total CPU usage time by the cgroup", micro),
        );
        requests.push(
            definition("cgroup_cpu_usage_user", "CPU in user mode usage time by the cgroup", micro),
        );
        requests.push(
            definition(
                "cgroup_cpu_usage_system",
                "CPU in system mode usage time by the cgroup",
                micro,
            ),
        );
        requests.push(
            definition("cgroup_memory_anonymous", "Anonymous used memory by the cgroup", byte),
        );
        requests.push(definition("cgroup_memory_file", "Files memory for the cgroup", byte));
        requests.push(definition("cgroup_memory_kernel", "Memory reserved for kernel stack", byte));
        requests.push(
            definition(
                "cgroup_memory_pagetables",
                "Memory used to manage correspondence between virtual and physical addresses",
                byte,
            ),
        );
        requests.push(definition("cgroup_memory_total", "Total memory used by the cgroup", byte));
        proof {
            assert(crate::metrics::metrics_view(requests@) =~= cgroup_metrics());
            lemma_cgroup_metric_names();
            if forall|k: int| 0 <= k < 8 ==> !has_metric(registry@, cgroup_metrics()[k].name) {
                lemma_all_created(registry@, cgroup_metrics());
            }
            lemma_refusal_is_duplicate(registry@, cgroup_metrics());
        }
        match registry.create_in_order(requests) {
            Err(e) => Err(e),
            Ok(ids) => {
                assert(cgroup_metrics().take(8) =~= cgroup_metrics());
                Ok(
                    Metrics {
                        cpu_time_total: typed(ids[0]),
                        cpu_time_user_mode: typed(ids[1]),
                        cpu_time_system_mode: typed(ids[2]),
                        memory_anonymous: typed(ids[3]),
                        memory_file: typed(ids[4]),
                        memory_kernel: typed(ids[5]),
                        memory_pagetables: typed(ids[6]),
                        memory_total: typed(ids[7]),
                    },
                )
            },
        }
    }
}

/// Probe of one control group.
#[derive(Debug)]
pub struct CgroupV2prob {
    pub cgroup_v2_metric_file: CgroupV2MetricFile,
    pub time_tot: CounterDiff,
    pub time_usr: CounterDiff,
    pub time_sys: CounterDiff,
    pub time_used_tot: TypedMetricId<u64>,
    pub time_used_user_mode: TypedMetricId<u64>,
    pub time_used_system_mode: TypedMetricId<u64>,
    pub anon_used_mem: TypedMetricId<u64>,
    pub file_mem: TypedMetricId<u64>,
    pub kernel_mem: TypedMetricId<u64>,
    pub pagetables_mem: TypedMetricId<u64>,
    pub total_mem: TypedMetricId<u64>,
}

/// The point that a probe reports for one metric of a control group: a
/// value for the local machine, consumed by the control group at `path`, with
/// the name of the pod as the attribute `name`.
pub open spec fn cgroup_point(
    timestamp: Timestamp,
    metric: RawMetricId,
    path: Seq<char>,
    value: u64,
    pod_name: Seq<char>,
) -> MeasurementPointView {
    MeasurementPointView {
        metric,
        timestamp,
        value: WrappedMeasurementValue::U64(value),
        resource: ResourceView::LocalMachine,
        consumer: ResourceConsumerView::ControlGroup { path },
        attributes: seq![
            AttributeView { key: "name"@, value: AttributeValueView::String(pod_name) },
        ],
    }
}

/// The point for a counter, if the counter gave a difference.
pub open spec fn counter_points(
    timestamp: Timestamp,
    metric: RawMetricId,
    path: Seq<char>,
    difference: Option<u64>,
    pod_name: Seq<char>,
) -> Seq<MeasurementPointView> {
    match difference {
        Some(value) => seq![cgroup_point(timestamp, metric, path, value, pod_name)],
        None => Seq::empty(),
    }
}

/// The sum of the four kinds of memory of a reading.
pub open spec fn memory_total(readings: CgroupMeasurements) -> int {
    readings.memory_anonymous + readings.memory_file + readings.memory_kernel
        + readings.memory_pagetables
}

impl CgroupV2prob {
    /// A probe of the control group whose files are `metric_file`, which
    /// reports under the identifiers of `metric` and follows the three time
    /// counters with `counter_tot`, `counter_sys` and `counter_usr`.
    pub fn new(
        metric: Metrics,
        metric_file: CgroupV2MetricFile,
        counter_tot: CounterDiff,
        counter_sys: CounterDiff,
        counter_usr: CounterDiff,
    ) -> (p: CgroupV2prob)
        ensures
            p.cgroup_v2_metric_file == metric_file,
            p.time_tot == counter_tot,
            p.time_usr == counter_usr,
            p.time_sys == counter_sys,
            p.time_used_tot == metric.cpu_time_total,
            p.time_used_system_mode == metric.cpu_time_user_mode,
            p.time_used_user_mode == metric.cpu_time_system_mode,
            p.anon_used_mem == metric.memory_anonymous,
            p.file_mem == metric.memory_file,
            p.kernel_mem == metric.memory_kernel,
            p.pagetables_mem == metric.memory_pagetables,
            p.total_mem == metric.memory_total,
    {
        CgroupV2prob {
            cgroup_v2_metric_file: metric_file,
            time_tot: counter_tot,
            time_usr: counter_usr,
            time_sys: counter_sys,
            time_used_tot: metric.cpu_time_total,
            time_used_system_mode: metric.cpu_time_user_mode,
            time_used_user_mode: metric.cpu_time_system_mode,
            anon_used_mem: metric.memory_anonymous,
            file_mem: metric.memory_file,
            kernel_mem: metric.memory_kernel,
            pagetables_mem: metric.memory_pagetables,
            total_mem: metric.memory_total,
        }
    }

    /// Whether the probe can take `readings`: no counter reads above its
    /// maximum, and the total memory can be held.
    pub open spec fn accepts(&self, readings: CgroupMeasurements) -> bool {
        &&& readings.cpu_time_total <= self.time_tot.spec_max_value()
        &&& readings.cpu_time_user_mode <= self.time_usr.spec_max_value()
        &&& readings.cpu_time_system_mode <= self.time_sys.spec_max_value()
        &&& memory_total(readings) <= u64::MAX
    }

    /// The points that the probe reports at `timestamp` for `readings`: one
    /// point for each time counter that gives a difference (total, user mode,
    /// system mode), then the four kinds of memory and their sum.
    pub open spec fn polled_points(
        &self,
        timestamp: Timestamp,
        readings: CgroupMeasurements,
    ) -> Seq<MeasurementPointView> {
        let cpu = self.cgroup_v2_metric_file.path_cpu@;
        let memory = self.cgroup_v2_metric_file.path_memory@;
        let pod = readings.pod_name@;
        let diff_tot = counter_update(
            self.time_tot.spec_max_value(),
            self.time_tot.spec_previous(),
            readings.cpu_time_total,
        ).spec_difference();
        let diff_usr = counter_update(
            self.time_usr.spec_max_value(),
            self.time_usr.spec_previous(),
            readings.cpu_time_user_mode,
        ).spec_difference();
        let diff_sys = counter_update(
            self.time_sys.spec_max_value(),
            self.time_sys.spec_previous(),
            readings.cpu_time_system_mode,
        ).spec_difference();
        counter_points(timestamp, self.time_used_tot.raw, cpu, diff_tot, pod) + counter_points(
            timestamp,
            self.time_used_user_mode.raw,
            cpu,
            diff_usr,
            pod,
        ) + counter_points(timestamp, self.time_used_system_mode.raw, cpu, diff_sys, pod)
            + seq![
            cgroup_point(timestamp, self.anon_used_mem.raw, memory, readings.memory_anonymous, pod),
            cgroup_point(timestamp, self.file_mem.raw, memory, readings.memory_file, pod),
            cgroup_point(timestamp, self.kernel_mem.raw, memory, readings.memory_kernel, pod),
            cgroup_point(
                timestamp,
                self.pagetables_mem.raw,
                memory,
                readings.memory_pagetables,
                pod,
            ),
            cgroup_point(
                timestamp,
                self.total_mem.raw,
                memory,
                memory_total(readings) as u64,
                pod,
            ),
        ]
    }

    /// A point with the given value for the local machine, and the name of
    /// the pod as the attribute `name`.
    pub fn create_measurement_point(
        &self,
        timestamp: Timestamp,
        metric_id: TypedMetricId<u64>,
        resource_consumer: ResourceConsumer,
        value_measured: u64,
        metrics_param: &CgroupMeasurements,
    ) -> (p: MeasurementPoint)
        ensures
            p@ == (MeasurementPointView {
                metric: metric_id.raw,
                timestamp,
                value: WrappedMeasurementValue::U64(value_measured),
                resource: ResourceView::LocalMachine,
                consumer: resource_consumer@,
                attributes: seq![
                    AttributeView {
                        key: "name"@,
                        value: AttributeValueView::String(metrics_param.pod_name@),
                    },
                ],
            }),
    {
        let p = MeasurementPoint::new(
            timestamp,
            metric_id,
            Resource::LocalMachine,
            resource_consumer,
            value_measured,
        ).with_attr("name", AttributeValue::String(metrics_param.pod_name.clone()));
        assert(p@.attributes =~= seq![
            AttributeView {
                key: "name"@,
                value: AttributeValueView::String(metrics_param.pod_name@),
            },
        ]);
        p
    }

    /// Takes one reading of the control group's statistics and reports it at
    /// `timestamp`: the time used since the reading before, in total, in user
    /// mode and in system mode (nothing for a first reading), and the memory
    /// in use, by kind and in total. The three counters record the reading.
    pub fn poll(
        &mut self,
        measurements: &mut MeasurementAccumulator,
        timestamp: Timestamp,
        metrics: &CgroupMeasurements,
    ) -> (r: Result<(), PollError>)
        requires
            old(self).accepts(*metrics),
        ensures
            r is Ok,
            final(measurements)@ == old(measurements)@ + old(self).polled_points(
                timestamp,
                *metrics,
            ),
            final(self).time_tot.spec_previous() == Some(metrics.cpu_time_total),
            final(self).time_usr.spec_previous() == Some(metrics.cpu_time_user_mode),
            final(self).time_sys.spec_previous() == Some(metrics.cpu_time_system_mode),
            final(self).time_tot.spec_max_value() == old(self).time_tot.spec_max_value(),
            final(self).time_usr.spec_max_value() == old(self).time_usr.spec_max_value(),
            final(self).time_sys.spec_max_value() == old(self).time_sys.spec_max_value(),
            final(self).cgroup_v2_metric_file == old(self).cgroup_v2_metric_file,
            final(self).time_used_tot == old(self).time_used_tot,
            final(self).time_used_user_mode == old(self).time_used_user_mode,
            final(self).time_used_system_mode == old(self).time_used_system_mode,
            final(self).anon_used_mem == old(self).anon_used_mem,
            final(self).file_mem == old(self).file_mem,
            final(self).kernel_mem == old(self).kernel_mem,
            final(self).pagetables_mem == old(self).pagetables_mem,
            final(self).total_mem == old(self).total_mem,
    {
        let ghost before = measurements@;
        let diff_tot = self.time_tot.update(metrics.cpu_time_total).difference();
        let diff_usr = self.time_usr.update(metrics.cpu_time_user_mode).difference();
        let diff_sys = self.time_sys.update(metrics.cpu_time_system_mode).difference();

        let consumer_cpu = ResourceConsumer::ControlGroup {
            path: self.cgroup_v2_metric_file.path_cpu.clone(),
        };
        let consumer_memory = ResourceConsumer::ControlGroup {
            path: self.cgroup_v2_metric_file.path_memory.clone(),
        };
        let ghost cpu = self.cgroup_v2_metric_file.path_cpu@;
        let ghost pod = metrics.pod_name@;

        // Total processor time.
        if let Some(value_tot) = diff_tot {
            let p_tot = self.create_measurement_point(
                timestamp,
                self.time_used_tot,
                consumer_cpu.clone(),
                value_tot,
                metrics,
            );
            measurements.push(p_tot);
        }
        let ghost after_tot = before + counter_points(
            timestamp,
            self.time_used_tot.raw,
            cpu,
            diff_tot,
            pod,
        );
        assert(measurements@ =~= after_tot);

        // Processor time in user mode.
        if let Some(value_usr) = diff_usr {
            let p_usr = self.create_measurement_point(
                timestamp,
                self.time_used_user_mode,
                consumer_cpu.clone(),
                value_usr,
                metrics,
            );
            measurements.push(p_usr);
        }
        let ghost after_usr = after_tot + counter_points(
            timestamp,
            self.time_used_user_mode.raw,
            cpu,
            diff_usr,
            pod,
        );
        assert(measurements@ =~= after_usr);

        // Processor time in system mode.
        if let Some(value_sys) = diff_sys {
            let p_sys = self.create_measurement_point(
                timestamp,
                self.time_used_system_mode,
                consumer_cpu.clone(),
                value_sys,
                metrics,
            );
            measurements.push(p_sys);
        }
        let ghost after_sys = after_usr + counter_points(
            timestamp,
            self.time_used_system_mode.raw,
            cpu,
            diff_sys,
            pod,
        );
        assert(measurements@ =~= after_sys);

        // Memory of the running processes that no file backs.
        let mem_anon_value = metrics.memory_anonymous;
        let m_anon = self.create_measurement_point(
            timestamp,
            self.anon_used_mem,
            consumer_memory.clone(),
            mem_anon_value,
            metrics,
        );
        measurements.push(m_anon);

        // Memory that caches files.
        let mem_file_value = metrics.memory_file;
        let m_file = self.create_measurement_point(
            timestamp,
            self.file_mem,
            consumer_memory.clone(),
            mem_file_value,
            metrics,
        );
        measurements.push(m_file);

        // Memory of the kernel.
        let mem_kernel_value = metrics.memory_kernel;
        let m_ker = self.create_measurement_point(
            timestamp,
            self.kernel_mem,
            consumer_memory.clone(),
            mem_kernel_value,
            metrics,
        );
        measurements.push(m_ker);

        // Memory of the page tables.
        let mem_pagetables_value = metrics.memory_pagetables;
        let m_pgt = self.create_measurement_point(
            timestamp,
            self.pagetables_mem,
            consumer_memory.clone(),
            mem_pagetables_value,
            metrics,
        );
        measurements.push(m_pgt);

        // All the memory that the control group uses.
        let mem_total_value = mem_anon_value + mem_file_value + mem_kernel_value
            + mem_pagetables_value;
        let m_tot = self.create_measurement_point(
            timestamp,
            self.total_mem,
            consumer_memory.clone(),
            mem_total_value,
            metrics,
        );
        measurements.push(m_tot);

        assert(measurements@ =~= before + old(self).polled_points(timestamp, *metrics));
        Ok(())
    }
}

/// The number that the line `line` of a statistics file gives to `key`: the
/// line has to be the key, a space, and the number.
pub open spec fn line_value(line: Seq<char>, key: Seq<char>) -> Option<u64> {
    match split_at_first(line, ' ') {
        Some((word, rest)) => if word == key {
            parsed_u64(trimmed(rest))
        } else {
            None
        },
        None => None,
    }
}

/// Whether the line `line` of a statistics file is about `key`.
pub open spec fn line_is_about(line: Seq<char>, key: Seq<char>) -> bool {
    split_at_first(line, ' ') matches Some((word, _)) && word == key
}

/// The number that the statistics file with the contents `text` gives to
/// `key`: that of the first line about the key, if that line holds a number.
pub open spec fn stat_value(text: Seq<char>, key: Seq<char>) -> Option<u64>
    decreases text.len(),
{
    let at = first_position(text, '\n');
    if at < 0 || at >= text.len() {
        line_value(text, key)
    } else if line_is_about(text.subrange(0, at), key) {
        line_value(text.subrange(0, at), key)
    } else {
        stat_value(text.subrange(at + 1, text.len() as int), key)
    }
}

fn read_line(line: &str, key: &str) -> (r: (bool, Option<u64>))
    ensures
        r.0 == line_is_about(line@, key@),
        r.1 == line_value(line@, key@),
{
    match split_once(line, ' ') {
        Some((word, rest)) => {
            if str_eq(word.as_str(), key) {
                let number = trim(rest.as_str());
                (true, parse_u64(number.as_str()))
            } else {
                (false, None)
            }
        },
        None => (false, None),
    }
}

/// The number that the statistics file with the contents `text` gives to
/// `key`.
pub fn read_stat(text: &str, key: &str) -> (r: Option<u64>)
    ensures
        r == stat_value(text@, key@),
    decreases text@.len(),
{
    match split_once(text, '\n') {
        None => {
            proof {
                crate::text::lemma_first_position_bounds(text@, '\n');
            }
            read_line(text, key).1
        },
        Some((line, rest)) => {
            proof {
                crate::text::lemma_first_position_bounds(text@, '\n');
            }
            let (about, value) = read_line(line.as_str(), key);
            if about {
                value
            } else {
                read_stat(rest.as_str(), key)
            }
        },
    }
}

/// `value`, or 0 if there is none.
pub open spec fn or_zero(value: Option<u64>) -> u64 {
    match value {
        Some(v) => v,
        None => 0,
    }
}

fn zero_if_missing(value: Option<u64>) -> (r: u64)
    ensures
        r == or_zero(value),
{
    match value {
        Some(v) => v,
        None => 0,
    }
}

impl CgroupMeasurements {
    /// The reading that the two statistics files of a control group hold:
    /// `cpu_stat` gives the times under `usage_usec`, `user_usec` and
    /// `system_usec`, and `memory_stat` the memory under `anon`, `file`,
    /// `kernel_stack` and `pagetables`. What a file does not give counts
    /// as 0.
    pub fn from_stats(pod_name: &str, cpu_stat: &str, memory_stat: &str) -> (r: CgroupMeasurements)
        ensures
            r.pod_name@ == pod_name@,
            r.cpu_time_total == or_zero(stat_value(cpu_stat@, "usage_usec"@)),
            r.cpu_time_user_mode == or_zero(stat_value(cpu_stat@, "user_usec"@)),
            r.cpu_time_system_mode == or_zero(stat_value(cpu_stat@, "system_usec"@)),
            r.memory_anonymous == or_zero(stat_value(memory_stat@, "anon"@)),
            r.memory_file == or_zero(stat_value(memory_stat@, "file"@)),
            r.memory_kernel == or_zero(stat_value(memory_stat@, "kernel_stack"@)),
            r.memory_pagetables == or_zero(stat_value(memory_stat@, "pagetables"@)),
    {
        CgroupMeasurements {
            pod_name: String::from_str(pod_name),
            cpu_time_total: zero_if_missing(read_stat(cpu_stat, "usage_usec")),
            cpu_time_user_mode: zero_if_missing(read_stat(cpu_stat, "user_usec")),
            cpu_time_system_mode: zero_if_missing(read_stat(cpu_stat, "system_usec")),
            memory_anonymous: zero_if_missing(read_stat(memory_stat, "anon")),
            memory_file: zero_if_missing(read_stat(memory_stat, "file")),
            memory_kernel: zero_if_missing(read_stat(memory_stat, "kernel_stack")),
            memory_pagetables: zero_if_missing(read_stat(memory_stat, "pagetables")),
        }
    }
}

impl CgroupV2prob {
    /// Whether the probe can take `readings`.
    pub fn can_take(&self, readings: &CgroupMeasurements) -> (ok: bool)
        ensures
            ok == self.accepts(*readings),
    {
        let partial = match readings.memory_anonymous.checked_add(readings.memory_file) {
            Some(p) => p,
            None => {
                return false;
            },
        };
        let partial = match partial.checked_add(readings.memory_kernel) {
            Some(p) => p,
            None => {
                return false;
            },
        };
        if partial.checked_add(readings.memory_pagetables).is_none() {
            return false;
        }
        readings.cpu_time_total <= self.time_tot.max_value() && readings.cpu_time_user_mode
            <= self.time_usr.max_value() && readings.cpu_time_system_mode
            <= self.time_sys.max_value()
    }
}

} // verus!
