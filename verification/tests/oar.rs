use alumet::cgroupv2::CgroupV2prob;
use alumet::measurement::MeasurementAccumulator;
use alumet::cgroupv2::CgroupMeasurements;
use alumet::metrics::MetricRegistry;
use alumet::oar::{Config, OARPlugin, PodCandidate, PodDetector, PodProbe, ProbedPod, StartError};
use alumet::pipeline::control::{add_source, remove_source, AddSourceError, SourceControl};
use alumet::pipeline::elements::{SourceClass, SourceRegistry};
use alumet::pipeline::registry::ElementRegistry;
use alumet::pipeline::trigger::{TickOutcome, TickTimer, TriggerSpec};
use alumet::time::{Duration, Timestamp};
use alumet::watch::{CreateKind, RemoveKind, WatchEvent, WatchEventKind};

fn started() -> (OARPlugin, MetricRegistry) {
    let mut registry = MetricRegistry::new();
    let mut plugin = OARPlugin::init(OARPlugin::default_config());
    plugin.start(&mut registry, true).unwrap();
    (plugin, registry)
}

fn created(paths: &[&str]) -> WatchEvent {
    WatchEvent {
        kind: WatchEventKind::Create(CreateKind::Folder),
        paths: paths.iter().map(|p| p.to_string()).collect(),
    }
}

fn probed(detector: &PodDetector, paths: &[&str], probes: Vec<PodProbe>) -> Vec<ProbedPod> {
    let candidates = detector.candidates(&created(paths));
    assert_eq!(candidates.len(), probes.len());
    candidates.into_iter().zip(probes).map(|(candidate, probe)| ProbedPod { candidate, probe }).collect()
}

fn apply(sources: &mut SourceRegistry<CgroupV2prob>, message: SourceControl<CgroupV2prob>) -> Result<u64, AddSourceError> {
    match message {
        SourceControl::Add { plugin, name, source, trigger, class } => add_source(sources, plugin, name, source, trigger, class),
        _ => panic!("not an addition"),
    }
}

#[test]
fn the_plugin_has_a_name_and_settings() {
    assert_eq!(OARPlugin::name(), "OAR3");
    assert_eq!(OARPlugin::version(), "0.1.0");
    let config = Config::default();
    assert_eq!(config.path, "/sys/fs/cgroup/kubepods.slice/");
    assert_eq!(config.poll_interval, Duration::from_secs(1));
    let plugin = OARPlugin::init(config);
    assert!(plugin.metrics.is_none());
    assert!(plugin.post_pipeline_start().is_none());
    assert_eq!(plugin.trigger(), TriggerSpec::at_interval(Duration::from_secs(1)));
}

#[test]
fn the_plugin_needs_control_groups_of_the_second_version() {
    let mut registry = MetricRegistry::new();
    let mut plugin = OARPlugin::init(OARPlugin::default_config());
    assert_eq!(plugin.start(&mut registry, false), Err(StartError::CgroupsV2NotUsed));
    assert!(registry.is_empty());
    assert!(plugin.metrics.is_none());
    assert_eq!(plugin.start(&mut registry, true), Ok(()));
    assert_eq!(registry.len(), 8);
    assert!(plugin.metrics.is_some());
    assert!(matches!(plugin.start(&mut registry, true), Err(StartError::Metric(_))));
    plugin.stop();
}

#[test]
fn a_candidate_is_named_after_its_folder() {
    let c = PodCandidate::for_path("/cg/job_42").unwrap();
    assert_eq!(c.name, "job_42");
    assert_eq!(c.path, "/cg/job_42");
    assert_eq!(c.cpu_path, "/cg/job_42/cpu.stat");
    assert_eq!(c.memory_path, "/cg/job_42/memory.stat");
    let trailing = PodCandidate::for_path("/cg/pod.slice/").unwrap();
    assert_eq!(trailing.name, "pod.slice");
    assert_eq!(trailing.cpu_path, "/cg/pod.slice/cpu.stat");
    assert!(PodCandidate::for_path("/").is_none());
    assert!(PodCandidate::for_path("/cg/..").is_none());
    assert!(PodCandidate::from_parts("x", None, "a".to_string(), "b".to_string()).is_none());
}

#[test]
fn only_created_folders_give_candidates() {
    let (plugin, _) = started();
    let detector = plugin.post_pipeline_start().unwrap();
    assert_eq!(detector.plugin_name, "OAR3");
    let event = created(&["/cg/a", "/", "/cg/b"]);
    let names: Vec<String> = detector.candidates(&event).into_iter().map(|c| c.name).collect();
    assert_eq!(names, vec!["a", "b"]);
    for kind in [
        WatchEventKind::Create(CreateKind::File),
        WatchEventKind::Create(CreateKind::Any),
        WatchEventKind::Remove(RemoveKind::Folder),
        WatchEventKind::Modify,
        WatchEventKind::Any,
    ] {
        let other = WatchEvent { kind, paths: vec!["/cg/a".to_string()] };
        assert!(detector.candidates(&other).is_empty());
    }
}

#[test]
fn the_first_file_that_cannot_be_opened_ends_the_handling() {
    let (plugin, _) = started();
    let detector = plugin.post_pipeline_start().unwrap();
    let paths = ["/cg/a", "/cg/b", "/cg/c", "/cg/d", "/cg/e"];
    let probes = vec![PodProbe::Opened, PodProbe::NotADirectory, PodProbe::Opened, PodProbe::OpenFailed, PodProbe::Opened];
    let messages = detector.handle_event(&probed(&detector, &paths, probes));
    let names: Vec<String> = messages
        .iter()
        .map(|m| match m {
            SourceControl::Add { name, .. } => name.clone(),
            _ => panic!("not an addition"),
        })
        .collect();
    assert_eq!(names, vec!["a", "c"]);
    assert!(detector.handle_event(&probed(&detector, &paths, vec![PodProbe::OpenFailed; 5])).is_empty());
    assert_eq!(detector.handle_event(&probed(&detector, &paths, vec![PodProbe::Opened; 5])).len(), 5);
    assert!(detector.handle_event(&Vec::new()).is_empty());
}

#[test]
fn dynamic_add() {
    let (plugin, _) = started();
    let detector = plugin.post_pipeline_start().unwrap();
    let mut sources: SourceRegistry<CgroupV2prob> = ElementRegistry::new();
    assert!(sources.is_empty());
    // One event of the watcher: the folder of the job has appeared.
    let mut messages = detector.handle_event(&probed(&detector, &["/cg/job_42"], vec![PodProbe::Opened]));
    assert_eq!(messages.len(), 1);
    let message = messages.remove(0);
    match &message {
        SourceControl::Add { plugin, name, source, trigger, class } => {
            assert_eq!(plugin, "OAR3");
            assert_eq!(name, "job_42");
            assert_eq!(*trigger, TriggerSpec::at_interval(Duration::from_secs(1)));
            assert_eq!(*class, SourceClass::Normal);
            assert_eq!(source.cgroup_v2_metric_file.name, "job_42");
            assert_eq!(source.cgroup_v2_metric_file.path_cpu, "/cg/job_42/cpu.stat");
            assert_eq!(source.time_tot.previous(), None);
        }
        _ => panic!("not an addition"),
    }
    assert_eq!(apply(&mut sources, message), Ok(0));
    assert!(sources.contains("OAR3", "job_42"));
    // The source gives its first points at the next tick.
    let registered_at = Timestamp::from_nanos(7_000_000_000);
    let period = sources.get(0).settings.trigger.period().unwrap();
    let mut timer = TickTimer::new(registered_at, period).unwrap();
    assert!(matches!(timer.fire(Timestamp::from_nanos(7_500_000_000)), TickOutcome::NotDue { .. }));
    let tick = match timer.fire(Timestamp::from_nanos(8_000_000_100)) {
        TickOutcome::Tick { timestamp, .. } => timestamp,
        other => panic!("no tick: {:?}", other),
    };
    assert_eq!(tick, Timestamp::from_nanos(8_000_000_000));
    let mut entry = sources.remove("OAR3", "job_42").unwrap();
    let mut accumulator = MeasurementAccumulator::new();
    let readings = CgroupMeasurements {
        pod_name: "job_42".to_string(),
        cpu_time_total: 1,
        cpu_time_user_mode: 1,
        cpu_time_system_mode: 0,
        memory_anonymous: 1,
        memory_file: 1,
        memory_kernel: 1,
        memory_pagetables: 1,
    };
    entry.element.poll(&mut accumulator, tick, &readings).unwrap();
    let buffer = accumulator.into_buffer();
    assert_eq!(buffer.len(), 5);
    assert_eq!(buffer.get(0).timestamp, tick);
}

#[test]
fn a_folder_that_is_created_twice_gives_one_source() {
    let (plugin, _) = started();
    let detector = plugin.post_pipeline_start().unwrap();
    let mut sources: SourceRegistry<CgroupV2prob> = ElementRegistry::new();
    for expected in [Ok(0), Err(AddSourceError::Duplicate)] {
        let mut messages = detector.handle_event(&probed(&detector, &["/cg/pod"], vec![PodProbe::Opened]));
        assert_eq!(apply(&mut sources, messages.remove(0)), expected);
    }
    assert_eq!(sources.len(), 1);
    let removed = WatchEvent { kind: WatchEventKind::Remove(RemoveKind::Folder), paths: vec!["/cg/pod".to_string()] };
    let names = detector.removals(&removed);
    assert_eq!(names, vec!["pod"]);
    assert!(remove_source(&mut sources, &detector.plugin_name, &names[0]));
    assert!(!remove_source(&mut sources, &detector.plugin_name, &names[0]));
    assert!(detector.removals(&created(&["/cg/pod"])).is_empty());
    let mut messages = detector.handle_event(&probed(&detector, &["/cg/pod"], vec![PodProbe::Opened]));
    assert_eq!(apply(&mut sources, messages.remove(0)), Ok(1));
}
