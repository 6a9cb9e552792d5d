use alumet::measurement::{AttributeValue, MeasurementAccumulator, WrappedMeasurementType, WrappedMeasurementValue};
use alumet::metrics::{MetricCreationError, MetricRegistry};
use alumet::oar2::{job_id_of, plan_job, plan_jobs, Config, JobNameError, Oar2Plugin, OarJobSource, ProbedJob};
use alumet::pipeline::control::SourceControl;
use alumet::pipeline::elements::SourceClass;
use alumet::pipeline::error::PollError;
use alumet::pipeline::trigger::TriggerSpec;
use alumet::resources::{Resource, ResourceConsumer};
use alumet::time::{Duration, Timestamp};
use alumet::units::{PrefixedUnit, Unit};
use alumet::watch::{CreateKind, RemoveKind, WatchEvent, WatchEventKind};

fn started() -> (Oar2Plugin, MetricRegistry) {
    let mut registry = MetricRegistry::new();
    let mut plugin = Oar2Plugin::init(Config { path: "/sys/fs/cgroup".to_string(), poll_interval: Duration::from_secs(2) });
    plugin.start(&mut registry).unwrap();
    (plugin, registry)
}

#[test]
fn the_job_plugin_has_a_name_and_settings() {
    assert_eq!(Oar2Plugin::name(), "oar2-plugin");
    assert_eq!(Oar2Plugin::version(), "0.1.0");
    let config = Oar2Plugin::default_config();
    assert_eq!(config.path, "/sys/fs/cgroup");
    assert_eq!(config.poll_interval, Duration::from_secs(1));
    let mut plugin = Oar2Plugin::init(config);
    assert!(plugin.post_pipeline_start().is_none());
    assert_eq!(plugin.trigger(), TriggerSpec::at_interval(Duration::from_secs(1)));
    plugin.stop();
}

#[test]
fn the_start_creates_two_metrics() {
    let (plugin, registry) = started();
    let metrics = plugin.metrics.unwrap();
    assert_eq!(registry.len(), 2);
    let (cpu, cpu_metric) = registry.by_name("cpu_time").unwrap();
    assert_eq!(cpu, metrics.cpu_metric.raw);
    assert_eq!(cpu_metric.unit, PrefixedUnit::nano(Unit::Second));
    assert_eq!(cpu_metric.value_type, WrappedMeasurementType::U64);
    assert_eq!(cpu_metric.description, "Total CPU time consumed by the cgroup (in nanoseconds).");
    let (memory, memory_metric) = registry.by_name("memory_usage").unwrap();
    assert_eq!(memory, metrics.memory_metric.raw);
    assert_eq!(memory_metric.unit, PrefixedUnit::plain(Unit::Unity));
}

#[test]
fn a_start_that_fails_keeps_what_it_created() {
    let mut registry = MetricRegistry::new();
    registry.create_metric::<u64>("memory_usage", PrefixedUnit::plain(Unit::Unity), "taken").unwrap();
    let mut plugin = Oar2Plugin::init(Config::default());
    assert_eq!(plugin.start(&mut registry), Err(MetricCreationError::Duplicate));
    assert!(plugin.metrics.is_none());
    assert_eq!(registry.len(), 2);
    assert!(registry.by_name("cpu_time").is_some());
}

#[test]
fn the_job_is_the_number_after_the_first_underscore() {
    assert_eq!(job_id_of("user_42"), Ok(Some(42)));
    assert_eq!(job_id_of("oar_0"), Ok(Some(0)));
    assert_eq!(job_id_of("_7"), Ok(Some(7)));
    assert_eq!(job_id_of("u2_18446744073709551615"), Ok(Some(u64::MAX)));
    assert_eq!(job_id_of("system"), Ok(None));
    assert_eq!(job_id_of("no_number"), Ok(None));
    assert_eq!(job_id_of(""), Ok(None));
    assert_eq!(job_id_of("job42"), Err(JobNameError::NoSeparator));
    assert_eq!(job_id_of("a_b_3"), Err(JobNameError::InvalidNumber));
    assert_eq!(job_id_of("user_42x"), Err(JobNameError::InvalidNumber));
    assert_eq!(job_id_of("user7_"), Err(JobNameError::InvalidNumber));
    assert_eq!(job_id_of("u_18446744073709551616"), Err(JobNameError::InvalidNumber));
}

#[test]
fn the_files_of_a_job_are_under_the_two_hierarchies() {
    let plan = plan_job("/sys/fs/cgroup", "alice_12").unwrap().unwrap();
    assert_eq!(plan.job_name, "alice_12");
    assert_eq!(plan.job_id, 12);
    assert_eq!(plan.cpu_file_path, "/sys/fs/cgroup/cpuacct/oar/alice_12/cpuacct.usage");
    assert_eq!(plan.memory_file_path, "/sys/fs/cgroup/memory/oar/alice_12/memory.usage_in_bytes");
    assert!(plan_job("/sys/fs/cgroup", "tasks").unwrap().is_none());
    assert_eq!(plan_job("/sys/fs/cgroup", "x9").err(), Some(JobNameError::NoSeparator));
}

#[test]
fn the_first_bad_name_ends_the_planning() {
    let names: Vec<String> = ["a_1", "tasks", "b_2"].iter().map(|s| s.to_string()).collect();
    let plans = plan_jobs("/r", &names).unwrap();
    assert_eq!(plans.iter().map(|p| p.job_id).collect::<Vec<_>>(), vec![1, 2]);
    let bad: Vec<String> = ["a_1", "b2", "c_x3"].iter().map(|s| s.to_string()).collect();
    assert_eq!(plan_jobs("/r", &bad).err(), Some(JobNameError::NoSeparator));
    assert!(plan_jobs("/r", &Vec::new()).unwrap().is_empty());
}

#[test]
fn created_control_groups_become_sources() {
    let (plugin, _) = started();
    let detector = plugin.post_pipeline_start().unwrap();
    assert_eq!(detector.plugin_name, "oar2-plugin");
    assert_eq!(detector.config_path, "/sys/fs/cgroup");
    let event = WatchEvent {
        kind: WatchEventKind::Create(CreateKind::Any),
        paths: vec![
            "/sys/fs/cgroup/cpuacct/oar/bob_3".to_string(),
            "/".to_string(),
            "/sys/fs/cgroup/cpuacct/oar/tasks".to_string(),
            "/sys/fs/cgroup/memory/oar/eve_4".to_string(),
        ],
    };
    assert_eq!(detector.created_names(&event), vec!["bob_3", "tasks", "eve_4"]);
    let plans = detector.plans(&event).unwrap();
    assert_eq!(plans.len(), 2);
    let found: Vec<ProbedJob> =
        plans.into_iter().zip([false, true]).map(|(plan, opened)| ProbedJob { plan, opened }).collect();
    let messages = detector.handle_event(&found);
    assert_eq!(messages.len(), 1);
    match &messages[0] {
        SourceControl::Add { plugin, name, source, trigger, class } => {
            assert_eq!(plugin, "oar2-plugin");
            assert_eq!(name, "eve_4");
            assert_eq!(source.job_id, 4);
            assert_eq!(source.cpu_file_path, "/sys/fs/cgroup/cpuacct/oar/eve_4/cpuacct.usage");
            assert_eq!(source.memory_file_path, "/sys/fs/cgroup/memory/oar/eve_4/memory.usage_in_bytes");
            assert_eq!(*trigger, TriggerSpec::at_interval(Duration::from_secs(2)));
            assert_eq!(*class, SourceClass::Normal);
        }
        _ => panic!("not an addition"),
    }
    let all: Vec<ProbedJob> =
        detector.plans(&event).unwrap().into_iter().map(|plan| ProbedJob { plan, opened: true }).collect();
    assert_eq!(detector.handle_event(&all).len(), 2);
    let removed = WatchEvent { kind: WatchEventKind::Remove(RemoveKind::Folder), paths: event.paths.clone() };
    assert!(detector.created_names(&removed).is_empty());
    assert!(detector.plans(&removed).unwrap().is_empty());
    let bad = WatchEvent { kind: WatchEventKind::Create(CreateKind::Folder), paths: vec!["/x/job9".to_string()] };
    assert_eq!(detector.plans(&bad).err(), Some(JobNameError::NoSeparator));
}

fn source() -> OarJobSource {
    let (plugin, _) = started();
    let detector = plugin.post_pipeline_start().unwrap();
    let plan = plan_job("/cg", "u_5").unwrap().unwrap();
    detector.source_for(&plan)
}

#[test]
fn a_poll_reads_the_two_numbers() {
    let source = source();
    let mut accumulator = MeasurementAccumulator::new();
    let r = source.poll(&mut accumulator, Timestamp::from_nanos(9), "123456789\n", " 4096 \n");
    assert!(r.is_ok());
    let buffer = accumulator.into_buffer();
    assert_eq!(buffer.len(), 2);
    let cpu = buffer.get(0);
    assert_eq!(cpu.metric, source.cpu_metric.raw);
    assert_eq!(cpu.value, WrappedMeasurementValue::U64(123456789));
    assert_eq!(cpu.timestamp, Timestamp::from_nanos(9));
    assert!(matches!(cpu.resource, Resource::LocalMachine));
    assert!(matches!(&cpu.consumer, ResourceConsumer::ControlGroup { path } if path == "/cg/cpuacct/oar/u_5/cpuacct.usage"));
    assert!(matches!(cpu.attr("oar_job_id"), Some(AttributeValue::U64(5))));
    let memory = buffer.get(1);
    assert_eq!(memory.metric, source.memory_metric.raw);
    assert_eq!(memory.value, WrappedMeasurementValue::U64(4096));
    assert!(matches!(&memory.consumer, ResourceConsumer::ControlGroup { path } if path == "/cg/memory/oar/u_5/memory.usage_in_bytes"));
    assert!(matches!(memory.attr("oar_job_id"), Some(AttributeValue::U64(5))));
}

#[test]
fn a_poll_that_cannot_read_a_number_is_fatal() {
    let source = source();
    for (cpu, memory) in [("", "1"), ("1", "x"), ("1 2", "3"), ("-1", "3"), ("1", "18446744073709551616")] {
        let mut accumulator = MeasurementAccumulator::new();
        let r = source.poll(&mut accumulator, Timestamp::from_nanos(9), cpu, memory);
        assert!(matches!(r, Err(PollError::Fatal(_))), "{:?} {:?}", cpu, memory);
        assert_eq!(accumulator.into_buffer().len(), 0);
    }
}
