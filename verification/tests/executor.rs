use alumet::measurement::{
    AttributeValue, MeasurementAccumulator, MeasurementBuffer, MeasurementPoint,
    WrappedMeasurementValue,
};
use alumet::metrics::{MetricRegistry, RawMetricId};
use alumet::pipeline::elements::{
    Output, OutputContext, OutputRegistry, OutputSettings, Source, SourceClass, SourceRegistry,
    SourceSettings, Transform, TransformContext, TransformRegistry, TransformSettings,
};
use alumet::pipeline::error::{PollError, TransformError, WriteError};
use alumet::pipeline::executor::{
    after_transform, keeps_source, mark_degraded, poll_sources, retries_write, run_transforms,
    write_outputs, ChainStep, WriteFate,
};
use alumet::pipeline::registry::ElementRegistry;
use alumet::pipeline::trigger::TriggerSpec;
use alumet::resources::{Resource, ResourceConsumer};
use alumet::time::Timestamp;

fn point(metric: usize, timestamp: Timestamp, value: u64) -> MeasurementPoint {
    MeasurementPoint::new_untyped(
        timestamp,
        RawMetricId { index: metric },
        Resource::LocalMachine,
        ResourceConsumer::LocalMachine,
        WrappedMeasurementValue::U64(value),
    )
}

/// Reports its number of polls, and fails as its script says.
struct Scripted {
    metric: usize,
    polls: u64,
    script: Vec<u8>,
}

impl Source for Scripted {
    fn poll(&mut self, measurements: &mut MeasurementAccumulator, timestamp: Timestamp) -> Result<(), PollError> {
        let step = self.script.get(self.polls as usize).copied().unwrap_or(0);
        self.polls += 1;
        measurements.push(point(self.metric, timestamp, self.polls));
        match step {
            0 => Ok(()),
            1 => Err(PollError::CanRetry("busy".to_string())),
            _ => Err(PollError::Fatal("gone".to_string())),
        }
    }
}

fn sources(scripts: Vec<(SourceClass, Vec<u8>)>) -> SourceRegistry<Scripted> {
    let mut registry: SourceRegistry<Scripted> = ElementRegistry::new();
    for (i, (class, script)) in scripts.into_iter().enumerate() {
        registry
            .add(
                "test".to_string(),
                format!("s{}", i),
                SourceSettings { trigger: TriggerSpec::Manual, class },
                Scripted { metric: i, polls: 0, script },
            )
            .unwrap();
    }
    registry
}

#[test]
fn a_fatal_error_removes_the_source_and_a_retry_keeps_it() {
    let mut registry = sources(vec![
        (SourceClass::Normal, vec![0]),
        (SourceClass::Normal, vec![1]),
        (SourceClass::Normal, vec![2]),
        (SourceClass::Normal, vec![0]),
    ]);
    let report = poll_sources(&mut registry, &vec![0, 1, 2, 3], Timestamp::from_nanos(77), false);
    let ids: Vec<u64> = report.records.iter().map(|r| r.id).collect();
    assert_eq!(ids, vec![0, 1, 2, 3]);
    assert!(report.records.iter().all(|r| r.timestamp == Timestamp::from_nanos(77)));
    assert!(report.records[0].result.is_ok());
    assert!(matches!(report.records[1].result, Err(PollError::CanRetry(_))));
    assert!(matches!(report.records[2].result, Err(PollError::Fatal(_))));
    assert!(!report.records[1].result.as_ref().unwrap_err().is_fatal());
    assert!(report.records[2].result.as_ref().unwrap_err().is_fatal());
    let left: Vec<u64> = (0..registry.len()).map(|i| registry.get(i).id).collect();
    assert_eq!(left, vec![0, 1, 3]);
    let polled: Vec<u64> = (0..registry.len()).map(|i| registry.get(i).element.polls).collect();
    assert_eq!(polled, vec![1, 1, 1]);
    let buffer = report.into_buffer();
    assert_eq!(buffer.len(), 4);
    assert_eq!(buffer.get(2).metric, RawMetricId { index: 2 });
}

#[test]
fn only_the_chosen_sources_are_polled() {
    let mut registry = sources(vec![
        (SourceClass::Normal, vec![]),
        (SourceClass::Normal, vec![]),
        (SourceClass::Normal, vec![]),
    ]);
    let report = poll_sources(&mut registry, &vec![0, 2], Timestamp::from_nanos(1), false);
    assert_eq!(report.records.len(), 2);
    let polled: Vec<u64> = (0..3).map(|i| registry.get(i).element.polls).collect();
    assert_eq!(polled, vec![1, 0, 1]);
}

#[test]
fn priority_sources_without_priority_are_marked() {
    let mut registry = sources(vec![(SourceClass::Priority, vec![]), (SourceClass::Normal, vec![])]);
    let report = poll_sources(&mut registry, &vec![0, 1], Timestamp::from_nanos(1), true);
    assert_eq!(registry.len(), 2);
    let priority = &report.records[0].points;
    assert_eq!(priority.len(), 1);
    assert!(matches!(priority.get(0).attr("priority_degraded"), Some(AttributeValue::Bool(true))));
    let normal = &report.records[1].points;
    assert!(normal.get(0).attr("priority_degraded").is_none());

    let mut healthy = sources(vec![(SourceClass::Priority, vec![])]);
    let report = poll_sources(&mut healthy, &vec![0], Timestamp::from_nanos(1), false);
    assert!(report.records[0].points.get(0).attr("priority_degraded").is_none());
}

#[test]
fn marking_sets_the_attribute_on_every_point() {
    let mut buffer = MeasurementBuffer::new();
    buffer.push(point(0, Timestamp::from_nanos(1), 1));
    buffer.push(point(1, Timestamp::from_nanos(2), 2).with_attr("priority_degraded", AttributeValue::Bool(false)));
    mark_degraded(&mut buffer);
    for i in 0..2 {
        assert!(matches!(buffer.get(i).attr("priority_degraded"), Some(AttributeValue::Bool(true))));
        assert_eq!(buffer.get(i).attributes.len(), 1);
    }
}

/// Writes its name into the value of each point, and fails as told.
struct Stamp {
    digit: u64,
    answer: u8,
    seen: Vec<Vec<u64>>,
}

impl Transform for Stamp {
    fn apply(&mut self, measurements: &mut MeasurementBuffer, _ctx: &TransformContext) -> Result<(), TransformError> {
        let mut values = Vec::new();
        for p in measurements.points.iter_mut() {
            if let WrappedMeasurementValue::U64(v) = p.value {
                values.push(v);
                p.value = WrappedMeasurementValue::U64(v * 10 + self.digit);
            }
        }
        self.seen.push(values);
        match self.answer {
            0 => Ok(()),
            1 => Err(TransformError::CanContinue("odd".to_string())),
            2 => Err(TransformError::UnexpectedInput("what".to_string())),
            _ => Err(TransformError::Fatal("broken".to_string())),
        }
    }
}

fn transforms(settings: Vec<(bool, u8)>) -> TransformRegistry<Stamp> {
    let mut registry: TransformRegistry<Stamp> = ElementRegistry::new();
    for (i, (enabled, answer)) in settings.into_iter().enumerate() {
        registry
            .add(
                "test".to_string(),
                format!("t{}", i),
                TransformSettings { enabled },
                Stamp { digit: i as u64 + 1, answer, seen: Vec::new() },
            )
            .unwrap();
    }
    registry
}

#[test]
fn transforms_run_in_the_order_of_their_registration() {
    let metrics = MetricRegistry::new();
    let ctx = TransformContext { metrics: &metrics };
    let mut registry = transforms(vec![(true, 0), (true, 1), (false, 0), (true, 0)]);
    let mut buffer = MeasurementBuffer::new();
    buffer.push(point(0, Timestamp::from_nanos(1), 9));
    let report = run_transforms(&mut registry, &mut buffer, &ctx);
    assert!(report.delivered);
    assert_eq!(report.examined, 4);
    let applied: Vec<u64> = report.records.iter().map(|r| r.id).collect();
    assert_eq!(applied, vec![0, 1, 3]);
    // 9, then the digits of the transforms 1, 2 and 4 in that order.
    assert_eq!(buffer.get(0).value, WrappedMeasurementValue::U64(9124));
    assert_eq!(registry.len(), 4);
    assert!(registry.get(2).element.seen.is_empty());
}

#[test]
fn an_unexpected_input_drops_the_buffer() {
    let metrics = MetricRegistry::new();
    let ctx = TransformContext { metrics: &metrics };
    let mut registry = transforms(vec![(true, 0), (true, 2), (true, 0)]);
    let mut buffer = MeasurementBuffer::new();
    buffer.push(point(0, Timestamp::from_nanos(1), 9));
    let report = run_transforms(&mut registry, &mut buffer, &ctx);
    assert!(!report.delivered);
    assert_eq!(report.examined, 2);
    assert_eq!(report.records.len(), 2);
    assert!(buffer.is_empty());
    assert!(registry.get(2).element.seen.is_empty());
    assert_eq!(registry.len(), 3);
}

#[test]
fn a_fatal_transform_is_removed_and_the_buffer_goes_on() {
    let metrics = MetricRegistry::new();
    let ctx = TransformContext { metrics: &metrics };
    let mut registry = transforms(vec![(true, 3), (true, 0)]);
    let mut buffer = MeasurementBuffer::new();
    buffer.push(point(0, Timestamp::from_nanos(1), 9));
    let report = run_transforms(&mut registry, &mut buffer, &ctx);
    assert!(report.delivered);
    assert_eq!(buffer.get(0).value, WrappedMeasurementValue::U64(912));
    assert_eq!(registry.len(), 1);
    assert_eq!(registry.get(0).id, 1);
}

#[test]
fn what_follows_each_answer_of_a_transform() {
    assert_eq!(after_transform(&Ok(())), ChainStep::Continue);
    assert_eq!(after_transform(&Err(TransformError::CanContinue(String::new()))), ChainStep::Continue);
    assert_eq!(after_transform(&Err(TransformError::UnexpectedInput(String::new()))), ChainStep::DropBuffer);
    assert_eq!(after_transform(&Err(TransformError::Fatal(String::new()))), ChainStep::RemoveTransform);
    assert!(keeps_source(&Ok(())));
    assert!(keeps_source(&Err(PollError::CanRetry(String::new()))));
    assert!(!keeps_source(&Err(PollError::Fatal(String::new()))));
    assert!(retries_write(&Err(WriteError::CanRetry(String::new()))));
    assert!(!retries_write(&Err(WriteError::Fatal(String::new()))));
    assert!(!retries_write(&Ok(())));
}

/// Counts its writes, and answers as its script says.
struct Sink {
    writes: usize,
    script: Vec<u8>,
    points: usize,
}

impl Output for Sink {
    fn write(&mut self, measurements: &MeasurementBuffer, _ctx: &OutputContext) -> Result<(), WriteError> {
        let step = self.script.get(self.writes).copied().unwrap_or(0);
        self.writes += 1;
        match step {
            0 => {
                self.points += measurements.len();
                Ok(())
            }
            1 => Err(WriteError::CanRetry("later".to_string())),
            _ => Err(WriteError::Fatal("closed".to_string())),
        }
    }
}

#[test]
fn a_write_is_tried_twice_at_most() {
    let metrics = MetricRegistry::new();
    let ctx = OutputContext { metrics: &metrics };
    let mut outputs: OutputRegistry<Sink> = ElementRegistry::new();
    let scripts: Vec<Vec<u8>> = vec![vec![0], vec![1, 0], vec![1, 1, 0], vec![2], vec![1, 2]];
    for (i, script) in scripts.into_iter().enumerate() {
        outputs
            .add("test".to_string(), format!("o{}", i), OutputSettings {}, Sink { writes: 0, script, points: 0 })
            .unwrap();
    }
    let mut buffer = MeasurementBuffer::new();
    buffer.push(point(0, Timestamp::from_nanos(1), 1));
    buffer.push(point(0, Timestamp::from_nanos(1), 2));
    let records = write_outputs(&mut outputs, &buffer, &ctx);
    let fates: Vec<WriteFate> = records.iter().map(|r| r.fate()).collect();
    assert_eq!(
        fates,
        vec![
            WriteFate::Written,
            WriteFate::Written,
            WriteFate::BufferDropped,
            WriteFate::OutputRemoved,
            WriteFate::OutputRemoved
        ]
    );
    let retried: Vec<bool> = records.iter().map(|r| r.retry.is_some()).collect();
    assert_eq!(retried, vec![false, true, true, false, true]);
    let left: Vec<(u64, usize, usize)> =
        (0..outputs.len()).map(|i| (outputs.get(i).id, outputs.get(i).element.writes, outputs.get(i).element.points)).collect();
    assert_eq!(left, vec![(0, 1, 2), (1, 2, 2), (2, 2, 0)]);
    assert_eq!(buffer.len(), 2);
}

#[test]
fn a_cancelled_poll_may_be_tried_again() {
    let record = alumet::pipeline::executor::cancelled_poll(4, Timestamp::from_nanos(8));
    assert_eq!(record.id, 4);
    assert_eq!(record.timestamp, Timestamp::from_nanos(8));
    assert!(matches!(record.result, Err(PollError::CanRetry(_))));
    assert!(keeps_source(&record.result));
    assert!(record.points.is_empty());
}
