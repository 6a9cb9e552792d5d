use alumet::measurement::{
    AttributeValue, FloatBits, MeasurementAccumulator, MeasurementBuffer, MeasurementPoint,
    WrappedMeasurementValue,
};
use alumet::metrics::RawMetricId;
use alumet::resources::{Resource, ResourceConsumer};
use alumet::time::Timestamp;

fn point(value: u64) -> MeasurementPoint {
    MeasurementPoint::new_untyped(
        Timestamp::from_nanos(5),
        RawMetricId { index: 3 },
        Resource::Cpu { socket: 1, core: 12 },
        ResourceConsumer::Process { pid: 4242 },
        WrappedMeasurementValue::U64(value),
    )
}

fn keys(p: &MeasurementPoint) -> Vec<String> {
    p.attributes.iter().map(|a| a.key.clone()).collect()
}

#[test]
fn attributes_keep_the_order_of_insertion() {
    let p = point(1)
        .with_attr("b", AttributeValue::U64(1))
        .with_attr("a", AttributeValue::Bool(true))
        .with_attr("c", AttributeValue::String("x".to_string()));
    assert_eq!(keys(&p), vec!["b", "a", "c"]);
    assert!(matches!(p.attr("a"), Some(AttributeValue::Bool(true))));
    assert!(matches!(p.attr("b"), Some(AttributeValue::U64(1))));
    assert!(matches!(p.attr("c"), Some(AttributeValue::String(s)) if s == "x"));
    assert!(p.attr("d").is_none());
}

#[test]
fn setting_an_attribute_again_keeps_its_place() {
    let mut p = point(1)
        .with_attr("b", AttributeValue::U64(1))
        .with_attr("a", AttributeValue::U64(2));
    p.add_attr("b", AttributeValue::F64(FloatBits { bits: 7 }));
    assert_eq!(keys(&p), vec!["b", "a"]);
    assert!(matches!(p.attr("b"), Some(AttributeValue::F64(FloatBits { bits: 7 }))));
    assert!(matches!(p.attr("a"), Some(AttributeValue::U64(2))));
}

#[test]
fn identifiers_of_resources_and_consumers() {
    assert_eq!(Resource::LocalMachine.id_string(), None);
    assert_eq!(Resource::Cpu { socket: 1, core: 12 }.id_string(), Some("1/12".to_string()));
    assert_eq!(
        Resource::ControlGroup { path: "/sys/fs/cgroup/x".to_string() }.id_string(),
        Some("/sys/fs/cgroup/x".to_string())
    );
    assert_eq!(ResourceConsumer::LocalMachine.id_string(), None);
    assert_eq!(ResourceConsumer::Process { pid: 4242 }.id_string(), Some("4242".to_string()));
    assert_eq!(ResourceConsumer::Job { id: 17 }.id_string(), Some("17".to_string()));
    assert_eq!(
        ResourceConsumer::ControlGroup { path: "a/b".to_string() }.id_string(),
        Some("a/b".to_string())
    );
}

#[test]
fn buffers_keep_the_order_of_the_points() {
    let mut buffer = MeasurementBuffer::new();
    assert!(buffer.is_empty());
    buffer.push(point(1));
    buffer.push(point(2));
    let mut other = MeasurementBuffer::new();
    other.push(point(3));
    buffer.merge(other);
    assert_eq!(buffer.len(), 3);
    let values: Vec<WrappedMeasurementValue> = (0..3).map(|i| buffer.get(i).value).collect();
    assert_eq!(
        values,
        vec![
            WrappedMeasurementValue::U64(1),
            WrappedMeasurementValue::U64(2),
            WrappedMeasurementValue::U64(3)
        ]
    );
    let copy = buffer.clone();
    buffer.clear();
    assert!(buffer.is_empty());
    assert_eq!(copy.len(), 3);
    assert_eq!(copy.get(2).value, WrappedMeasurementValue::U64(3));
}

#[test]
fn an_accumulator_gives_back_what_was_pushed() {
    let mut accumulator = MeasurementAccumulator::new();
    accumulator.push(point(10));
    accumulator.push(point(20));
    let buffer = accumulator.into_buffer();
    assert_eq!(buffer.len(), 2);
    assert_eq!(buffer.get(0).value, WrappedMeasurementValue::U64(10));
    assert_eq!(buffer.get(1).value, WrappedMeasurementValue::U64(20));
    assert_eq!(buffer.get(1).timestamp, Timestamp::from_nanos(5));
    assert_eq!(buffer.get(1).metric, RawMetricId { index: 3 });
}
