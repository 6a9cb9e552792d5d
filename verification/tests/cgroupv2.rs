use alumet::cgroupv2::{read_stat, CgroupMeasurements, CgroupV2MetricFile, CgroupV2prob, Metrics};
use alumet::counter::CounterDiff;
use alumet::measurement::{AttributeValue, MeasurementAccumulator, WrappedMeasurementValue};
use alumet::metrics::{MetricCreationError, MetricRegistry};
use alumet::oar::{OARPlugin, CGROUP_MAX_TIME_COUNTER};
use alumet::pipeline::trigger::{TickOutcome, TickTimer};
use alumet::resources::{Resource, ResourceConsumer};
use alumet::time::{Duration, Timestamp};
use alumet::units::{PrefixedUnit, Unit};

fn probe(registry: &mut MetricRegistry) -> (Metrics, CgroupV2prob) {
    let metrics = Metrics::new(registry).unwrap();
    let file = CgroupV2MetricFile {
        name: "pod1".to_string(),
        path_cpu: "/cg/pod1/cpu.stat".to_string(),
        path_memory: "/cg/pod1/memory.stat".to_string(),
    };
    (metrics, OARPlugin::make_source(metrics, file))
}

fn readings(total: u64, user: u64, system: u64) -> CgroupMeasurements {
    CgroupMeasurements {
        pod_name: "pod1".to_string(),
        cpu_time_total: total,
        cpu_time_user_mode: user,
        cpu_time_system_mode: system,
        memory_anonymous: 10,
        memory_file: 20,
        memory_kernel: 30,
        memory_pagetables: 40,
    }
}

#[test]
fn the_eight_metrics_are_created_in_order() {
    let mut registry = MetricRegistry::new();
    registry.create_metric::<u64>("other", PrefixedUnit::plain(Unit::Unity), "").unwrap();
    let metrics = Metrics::new(&mut registry).unwrap();
    assert_eq!(registry.len(), 9);
    assert_eq!(metrics.cpu_time_total.raw.index, 1);
    assert_eq!(metrics.memory_total.raw.index, 8);
    let (id, metric) = registry.by_name("cgroup_memory_kernel").unwrap();
    assert_eq!(id, metrics.memory_kernel.raw);
    assert_eq!(metric.unit, PrefixedUnit::plain(Unit::Byte));
    assert_eq!(registry.by_name("cgroup_cpu_usage_user").unwrap().1.unit, PrefixedUnit::micro(Unit::Second));
    // A second creation meets the names of the first.
    assert_eq!(Metrics::new(&mut registry).err(), Some(MetricCreationError::Duplicate));
    assert_eq!(registry.len(), 9);
}

#[test]
fn single_cgroup_source_at_one_hertz() {
    let mut registry = MetricRegistry::new();
    let (metrics, mut source) = probe(&mut registry);
    let epoch = 1_000 * 1_000_000_000u64;
    let poll_interval = alumet::config::parse_duration("1s").unwrap();
    assert_eq!(poll_interval, Duration::from_secs(1));
    let mut timer = TickTimer::new(Timestamp::from_nanos(epoch), poll_interval).unwrap();
    let mut deltas = Vec::new();
    let mut timestamps = Vec::new();
    for (i, usage) in [1000u64, 2000, 3000].iter().enumerate() {
        let now = Timestamp::from_nanos(epoch + (i as u64 + 1) * 1_000_000_000 + 1234);
        let timestamp = match timer.fire(now) {
            TickOutcome::Tick { timestamp, .. } => timestamp,
            other => panic!("no tick: {:?}", other),
        };
        timestamps.push(timestamp.nanos - epoch);
        let mut accumulator = MeasurementAccumulator::new();
        source.poll(&mut accumulator, timestamp, &readings(*usage, 0, 0)).unwrap();
        let buffer = accumulator.into_buffer();
        let total: Vec<u64> = (0..buffer.len())
            .filter(|&k| buffer.get(k).metric == metrics.cpu_time_total.raw)
            .map(|k| match buffer.get(k).value {
                WrappedMeasurementValue::U64(v) => v,
                _ => unreachable!(),
            })
            .collect();
        deltas.push(total);
        assert!((0..buffer.len()).all(|k| buffer.get(k).timestamp == timestamp));
    }
    assert_eq!(deltas, vec![vec![], vec![1000], vec![1000]]);
    assert_eq!(timestamps, vec![1_000_000_000, 2_000_000_000, 3_000_000_000]);
}

#[test]
fn a_poll_reports_time_and_memory() {
    let mut registry = MetricRegistry::new();
    let (metrics, mut source) = probe(&mut registry);
    let mut first = MeasurementAccumulator::new();
    source.poll(&mut first, Timestamp::from_nanos(1), &readings(100, 60, 40)).unwrap();
    let first = first.into_buffer();
    // No difference yet: the five memory points only.
    assert_eq!(first.len(), 5);
    let mut second = MeasurementAccumulator::new();
    source.poll(&mut second, Timestamp::from_nanos(2), &readings(150, 90, 45)).unwrap();
    let buffer = second.into_buffer();
    let seen: Vec<(usize, u64)> = (0..buffer.len())
        .map(|k| match buffer.get(k).value {
            WrappedMeasurementValue::U64(v) => (buffer.get(k).metric.index, v),
            _ => unreachable!(),
        })
        .collect();
    assert_eq!(
        seen,
        vec![
            (metrics.cpu_time_total.raw.index, 50),
            (source.time_used_user_mode.raw.index, 30),
            (source.time_used_system_mode.raw.index, 5),
            (metrics.memory_anonymous.raw.index, 10),
            (metrics.memory_file.raw.index, 20),
            (metrics.memory_kernel.raw.index, 30),
            (metrics.memory_pagetables.raw.index, 40),
            (metrics.memory_total.raw.index, 100),
        ]
    );
    let cpu = buffer.get(0);
    assert!(matches!(cpu.resource, Resource::LocalMachine));
    assert!(matches!(&cpu.consumer, ResourceConsumer::ControlGroup { path } if path == "/cg/pod1/cpu.stat"));
    assert!(matches!(cpu.attr("name"), Some(AttributeValue::String(n)) if n == "pod1"));
    let memory = buffer.get(7);
    assert!(matches!(&memory.consumer, ResourceConsumer::ControlGroup { path } if path == "/cg/pod1/memory.stat"));
    assert_eq!(source.time_tot.previous(), Some(150));
    assert_eq!(source.time_usr.previous(), Some(90));
    assert_eq!(source.time_sys.previous(), Some(45));
}

#[test]
fn a_wrapped_counter_gives_a_corrected_point() {
    let mut registry = MetricRegistry::new();
    let (metrics, mut source) = probe(&mut registry);
    assert_eq!(source.time_tot.max_value(), CGROUP_MAX_TIME_COUNTER);
    let mut accumulator = MeasurementAccumulator::new();
    source.poll(&mut accumulator, Timestamp::from_nanos(1), &readings(u64::MAX - 1, 0, 0)).unwrap();
    source.poll(&mut accumulator, Timestamp::from_nanos(2), &readings(3, 0, 0)).unwrap();
    let buffer = accumulator.into_buffer();
    let total: Vec<WrappedMeasurementValue> = (0..buffer.len())
        .filter(|&k| buffer.get(k).metric == metrics.cpu_time_total.raw)
        .map(|k| buffer.get(k).value)
        .collect();
    assert_eq!(total, vec![WrappedMeasurementValue::U64(5)]);
}

#[test]
fn a_probe_is_made_of_its_parts() {
    let mut registry = MetricRegistry::new();
    let metrics = Metrics::new(&mut registry).unwrap();
    let file = CgroupV2MetricFile { name: "n".to_string(), path_cpu: "c".to_string(), path_memory: "m".to_string() };
    let mut tot = CounterDiff::with_max_value(100);
    tot.update(5);
    let p = CgroupV2prob::new(metrics, file, tot, CounterDiff::with_max_value(200), CounterDiff::with_max_value(300));
    assert_eq!(p.time_tot.previous(), Some(5));
    assert_eq!(p.time_tot.max_value(), 100);
    assert_eq!(p.time_sys.max_value(), 200);
    assert_eq!(p.time_usr.max_value(), 300);
    assert_eq!(p.time_used_tot.raw, metrics.cpu_time_total.raw);
    assert_eq!(p.total_mem.raw, metrics.memory_total.raw);
    assert_eq!(p.cgroup_v2_metric_file.path_memory, "m");
    let point = p.create_measurement_point(
        Timestamp::from_nanos(3),
        metrics.memory_file,
        ResourceConsumer::Process { pid: 1 },
        77,
        &readings(0, 0, 0),
    );
    assert_eq!(point.value, WrappedMeasurementValue::U64(77));
    assert_eq!(point.metric, metrics.memory_file.raw);
    assert!(matches!(point.attr("name"), Some(AttributeValue::String(n)) if n == "pod1"));
}

#[test]
fn the_statistics_files_are_read_by_key() {
    let cpu = "usage_usec 1000\nuser_usec 600\nsystem_usec 400\nnr_periods 0\n";
    let memory = "anon 4096\nfile 8192\nkernel_stack 16384\npagetables 1024\nsock 0\n";
    let readings = CgroupMeasurements::from_stats("pod7", cpu, memory);
    assert_eq!(readings.pod_name, "pod7");
    assert_eq!(readings.cpu_time_total, 1000);
    assert_eq!(readings.cpu_time_user_mode, 600);
    assert_eq!(readings.cpu_time_system_mode, 400);
    assert_eq!(readings.memory_anonymous, 4096);
    assert_eq!(readings.memory_file, 8192);
    assert_eq!(readings.memory_kernel, 16384);
    assert_eq!(readings.memory_pagetables, 1024);
}

#[test]
fn the_first_line_about_a_key_counts() {
    assert_eq!(read_stat("a 1\nb 2\na 3", "a"), Some(1));
    assert_eq!(read_stat("a 1\nb 2\na 3", "b"), Some(2));
    assert_eq!(read_stat("a 1\nb 2", "c"), None);
    assert_eq!(read_stat("", "a"), None);
    assert_eq!(read_stat("a", "a"), None);
    assert_eq!(read_stat("ab 1\na 2", "a"), Some(2));
    assert_eq!(read_stat("a x\na 2", "a"), None);
    assert_eq!(read_stat("a  7 \n", "a"), Some(7));
    assert_eq!(read_stat("\n\nfile 5\n", "file"), Some(5));
    let missing = CgroupMeasurements::from_stats("p", "usage_usec 5\n", "");
    assert_eq!(missing.cpu_time_total, 5);
    assert_eq!(missing.cpu_time_user_mode, 0);
    assert_eq!(missing.memory_file, 0);
}

#[test]
fn a_probe_refuses_what_it_cannot_hold() {
    let mut registry = MetricRegistry::new();
    let metrics = Metrics::new(&mut registry).unwrap();
    let file = CgroupV2MetricFile { name: "n".to_string(), path_cpu: "c".to_string(), path_memory: "m".to_string() };
    let small = CgroupV2prob::new(
        metrics,
        file,
        CounterDiff::with_max_value(100),
        CounterDiff::with_max_value(100),
        CounterDiff::with_max_value(100),
    );
    assert!(small.can_take(&readings(100, 100, 100)));
    assert!(!small.can_take(&readings(101, 0, 0)));
    assert!(!small.can_take(&readings(0, 101, 0)));
    assert!(!small.can_take(&readings(0, 0, 101)));
    let mut heavy = readings(0, 0, 0);
    // The other three kinds of memory make 90 together.
    heavy.memory_anonymous = u64::MAX - 90;
    assert!(small.can_take(&heavy));
    heavy.memory_anonymous = u64::MAX - 89;
    assert!(!small.can_take(&heavy));
}

#[test]
fn a_taken_name_ends_the_creation_of_the_metrics() {
    let mut registry = MetricRegistry::new();
    registry.create_metric::<u64>("cgroup_cpu_usage_system", PrefixedUnit::plain(Unit::Unity), "").unwrap();
    assert_eq!(Metrics::new(&mut registry).err(), Some(MetricCreationError::Duplicate));
    // The two metrics before the taken name were created.
    assert_eq!(registry.len(), 3);
    assert!(registry.by_name("cgroup_cpu_usage_total").is_some());
    assert!(registry.by_name("cgroup_cpu_usage_user").is_some());
    assert!(registry.by_name("cgroup_memory_anonymous").is_none());
}
