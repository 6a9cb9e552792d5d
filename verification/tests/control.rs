use alumet::exec_process::{trigger_measurement_now, TriggerError};
use alumet::measurement::{MeasurementAccumulator, MeasurementBuffer, MeasurementPoint, WrappedMeasurementValue};
use alumet::metrics::RawMetricId;
use alumet::pipeline::control::{
    shutdown_deadline, AddSourceError, ControlMessage, ControlOutcome, MeasurementPipeline,
    OutputControl, PipelineState, SourceControl, TransformControl,
};
use alumet::pipeline::elements::{
    Output, OutputContext, OutputSettings, Source, SourceClass, Transform, TransformContext,
    TransformSettings,
};
use alumet::pipeline::error::{PollError, TransformError, WriteError};
use alumet::pipeline::registry::ElementSelector;
use alumet::pipeline::trigger::TriggerSpec;
use alumet::resources::{Resource, ResourceConsumer};
use alumet::time::{Duration, Timestamp};

struct Counting {
    polls: Vec<Timestamp>,
}

impl Source for Counting {
    fn poll(&mut self, measurements: &mut MeasurementAccumulator, timestamp: Timestamp) -> Result<(), PollError> {
        self.polls.push(timestamp);
        measurements.push(MeasurementPoint::new_untyped(
            timestamp,
            RawMetricId { index: 0 },
            Resource::LocalMachine,
            ResourceConsumer::LocalMachine,
            WrappedMeasurementValue::U64(self.polls.len() as u64),
        ));
        Ok(())
    }
}

struct Double;

impl Transform for Double {
    fn apply(&mut self, measurements: &mut MeasurementBuffer, _ctx: &TransformContext) -> Result<(), TransformError> {
        for p in measurements.points.iter_mut() {
            if let WrappedMeasurementValue::U64(v) = p.value {
                p.value = WrappedMeasurementValue::U64(2 * v);
            }
        }
        Ok(())
    }
}

struct Keep {
    values: Vec<u64>,
}

impl Output for Keep {
    fn write(&mut self, measurements: &MeasurementBuffer, _ctx: &OutputContext) -> Result<(), WriteError> {
        for i in 0..measurements.len() {
            if let WrappedMeasurementValue::U64(v) = measurements.get(i).value {
                self.values.push(v);
            }
        }
        Ok(())
    }
}

type Pipeline = MeasurementPipeline<Counting, Double, Keep>;

fn add(name: &str) -> ControlMessage<Counting> {
    ControlMessage::Source(SourceControl::Add {
        plugin: "test".to_string(),
        name: name.to_string(),
        source: Counting { polls: Vec::new() },
        trigger: TriggerSpec::at_interval(Duration::from_secs(1)),
        class: SourceClass::Normal,
    })
}

fn pipeline_with(names: &[&str]) -> Pipeline {
    let mut pipeline = Pipeline::new();
    for name in names {
        let outcome = pipeline.apply(add(name), Timestamp::from_nanos(0));
        assert!(matches!(outcome, ControlOutcome::SourceAdded(Ok(_))));
    }
    pipeline
}

fn polls(pipeline: &Pipeline) -> Vec<Vec<Timestamp>> {
    (0..pipeline.sources.len()).map(|i| pipeline.sources.get(i).element.polls.clone()).collect()
}

#[test]
fn manual_trigger_selector() {
    let mut pipeline = pipeline_with(&["A", "B"]);
    let sent = Timestamp::from_nanos(1_000);
    let now = Timestamp::from_nanos(1_500);
    let message = ControlMessage::Source(SourceControl::TriggerManually {
        selector: ElementSelector::ByElementName("A".to_string()),
    });
    let outcome = pipeline.apply(message, now);
    let report = match outcome {
        ControlOutcome::Triggered(report) => report,
        other => panic!("unexpected outcome {:?}", other),
    };
    assert_eq!(report.records.len(), 1);
    assert_eq!(report.records[0].id, 0);
    assert!(report.records[0].timestamp.nanos >= sent.nanos);
    assert_eq!(report.records[0].points.len(), 1);
    assert_eq!(polls(&pipeline), vec![vec![now], vec![]]);
}

#[test]
fn every_chosen_source_is_polled_exactly_once() {
    let mut pipeline = pipeline_with(&["A", "B", "C"]);
    let now = Timestamp::from_nanos(9);
    let report = pipeline.trigger_manually(&ElementSelector::all(), now);
    assert_eq!(report.records.iter().map(|r| r.id).collect::<Vec<_>>(), vec![0, 1, 2]);
    assert_eq!(polls(&pipeline), vec![vec![now], vec![now], vec![now]]);
    let report = trigger_measurement_now(&mut pipeline, Timestamp::from_nanos(10)).unwrap();
    assert_eq!(report.records.len(), 3);
    assert!(polls(&pipeline).iter().all(|p| p.len() == 2));
}

#[test]
fn a_duplicate_source_is_refused_by_the_pipeline() {
    let mut pipeline = pipeline_with(&["A"]);
    let outcome = pipeline.apply(add("A"), Timestamp::from_nanos(1));
    assert!(matches!(outcome, ControlOutcome::SourceAdded(Err(AddSourceError::Duplicate))));
    assert_eq!(pipeline.sources.len(), 1);
}

#[test]
fn sources_are_stopped_and_periods_are_set() {
    let mut pipeline = pipeline_with(&["A", "B", "C"]);
    let outcome = pipeline.apply(
        ControlMessage::Source(SourceControl::SetPeriod {
            selector: ElementSelector::ByTypedId(1),
            period: Duration::from_secs(3),
        }),
        Timestamp::from_nanos(1),
    );
    assert!(matches!(outcome, ControlOutcome::PeriodSet(ids) if ids == vec![1]));
    assert_eq!(pipeline.sources.get(1).settings.trigger, TriggerSpec::at_interval(Duration::from_secs(3)));
    let outcome = pipeline.apply(
        ControlMessage::Source(SourceControl::Stop { selector: ElementSelector::ByElementName("B".to_string()) }),
        Timestamp::from_nanos(2),
    );
    assert!(matches!(outcome, ControlOutcome::SourcesStopped(ids) if ids == vec![1]));
    let names: Vec<String> = (0..pipeline.sources.len()).map(|i| pipeline.sources.get(i).name.clone()).collect();
    assert_eq!(names, vec!["A", "C"]);
}

#[test]
fn transforms_and_outputs_are_addressed() {
    let mut pipeline = pipeline_with(&["A"]);
    pipeline.transforms.add("p".to_string(), "double".to_string(), TransformSettings { enabled: true }, Double).unwrap();
    pipeline.outputs.add("p".to_string(), "keep".to_string(), OutputSettings {}, Keep { values: vec![] }).unwrap();
    let outcome = pipeline.apply(
        ControlMessage::Transform(TransformControl::Disable { selector: ElementSelector::all() }),
        Timestamp::from_nanos(1),
    );
    assert!(matches!(outcome, ControlOutcome::TransformsSet(ids) if ids == vec![0]));
    assert!(!pipeline.transforms.get(0).settings.enabled);
    let outcome = pipeline.apply(
        ControlMessage::Transform(TransformControl::Enable { selector: ElementSelector::ByPluginName("p".to_string()) }),
        Timestamp::from_nanos(1),
    );
    assert!(matches!(outcome, ControlOutcome::TransformsSet(ids) if ids == vec![0]));
    assert!(pipeline.transforms.get(0).settings.enabled);
    let outcome = pipeline.apply(
        ControlMessage::Output(OutputControl::Flush { selector: ElementSelector::all() }),
        Timestamp::from_nanos(1),
    );
    assert!(matches!(outcome, ControlOutcome::Flush(ids) if ids == vec![0]));
}

#[test]
fn a_tick_goes_from_the_sources_through_the_transforms_to_the_outputs() {
    let mut pipeline = pipeline_with(&["A", "B"]);
    pipeline.transforms.add("p".to_string(), "double".to_string(), TransformSettings { enabled: true }, Double).unwrap();
    pipeline.outputs.add("p".to_string(), "keep".to_string(), OutputSettings {}, Keep { values: vec![] }).unwrap();
    let report = pipeline.tick(&vec![0, 1], Timestamp::from_nanos(5)).unwrap();
    assert_eq!(report.polls.len(), 2);
    assert!(report.chain.delivered);
    assert_eq!(report.writes.len(), 1);
    pipeline.tick(&vec![1], Timestamp::from_nanos(6)).unwrap();
    assert_eq!(pipeline.outputs.get(0).element.values, vec![2, 2, 4]);
    // All the sources have the same settings, so they are one group.
    let key = pipeline.sources.get(0).settings;
    let report = pipeline.tick_group(key, Timestamp::from_nanos(7)).unwrap();
    assert_eq!(report.polls.iter().map(|r| r.id).collect::<Vec<_>>(), vec![0, 1]);
    assert_eq!(pipeline.outputs.get(0).element.values, vec![2, 2, 4, 4, 6]);
    let other = alumet::pipeline::elements::SourceSettings { trigger: TriggerSpec::Manual, class: SourceClass::Normal };
    assert!(pipeline.tick_group(other, Timestamp::from_nanos(8)).unwrap().polls.is_empty());
}

#[test]
fn graceful_shutdown() {
    let mut pipeline = pipeline_with(&["A"]);
    pipeline.outputs.add("p".to_string(), "keep".to_string(), OutputSettings {}, Keep { values: vec![] }).unwrap();
    pipeline.tick(&vec![0], Timestamp::from_nanos(1)).unwrap();
    let now = Timestamp::from_nanos(2_000_000_000);
    let outcome = pipeline.apply(ControlMessage::Shutdown, now);
    let deadline = Timestamp::from_nanos(12_000_000_000);
    assert!(matches!(outcome, ControlOutcome::ShuttingDown { deadline: d } if d == deadline));
    assert_eq!(pipeline.state, PipelineState::Stopping { deadline });
    // No poll starts any more, by tick or by hand.
    assert!(pipeline.tick(&vec![0], Timestamp::from_nanos(3_000_000_000)).is_none());
    let outcome = pipeline.apply(
        ControlMessage::Source(SourceControl::TriggerManually { selector: ElementSelector::all() }),
        Timestamp::from_nanos(3_000_000_000),
    );
    assert!(matches!(outcome, ControlOutcome::Ignored));
    assert_eq!(trigger_measurement_now(&mut pipeline, now).err(), Some(TriggerError::PipelineStopped));
    assert_eq!(polls(&pipeline), vec![vec![Timestamp::from_nanos(1)]]);
    assert!(pipeline.poll_group(pipeline.sources.get(0).settings, now).is_none());
    // What was measured before has reached the output, and what is still
    // on its way does so too.
    assert_eq!(pipeline.outputs.get(0).element.values, vec![1]);
    let mut waiting = MeasurementBuffer::new();
    waiting.push(MeasurementPoint::new_untyped(
        Timestamp::from_nanos(1),
        RawMetricId { index: 0 },
        Resource::LocalMachine,
        ResourceConsumer::LocalMachine,
        WrappedMeasurementValue::U64(9),
    ));
    let delivery = pipeline.deliver(waiting);
    assert!(delivery.chain.delivered);
    assert_eq!(delivery.writes.len(), 1);
    assert_eq!(pipeline.outputs.get(0).element.values, vec![1, 9]);
    assert_eq!(alumet::exec_process::exit_code(alumet::exec_process::AgentOutcome::CleanShutdown), 0);
}

#[test]
fn a_group_is_polled_and_its_points_are_delivered_later() {
    let mut pipeline = pipeline_with(&["A", "B"]);
    pipeline.transforms.add("p".to_string(), "double".to_string(), TransformSettings { enabled: true }, Double).unwrap();
    pipeline.outputs.add("p".to_string(), "keep".to_string(), OutputSettings {}, Keep { values: vec![] }).unwrap();
    let key = pipeline.sources.get(0).settings;
    let report = pipeline.poll_group(key, Timestamp::from_nanos(3)).unwrap();
    assert_eq!(report.records.len(), 2);
    assert!(pipeline.outputs.get(0).element.values.is_empty());
    let delivery = pipeline.deliver(report.into_buffer());
    assert_eq!(delivery.chain.records.len(), 1);
    assert_eq!(pipeline.outputs.get(0).element.values, vec![2, 2]);
}

#[test]
fn the_grace_of_a_shutdown_is_ten_seconds() {
    assert_eq!(shutdown_deadline(Timestamp::from_nanos(0)), Timestamp::from_nanos(10_000_000_000));
    assert_eq!(shutdown_deadline(Timestamp::from_nanos(u64::MAX - 5)), Timestamp::from_nanos(u64::MAX));
}
