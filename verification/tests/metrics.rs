use alumet::measurement::{FloatBits, MeasurementPoint, WrappedMeasurementType, WrappedMeasurementValue};
use alumet::metrics::{
    is_valid_metric_name, DuplicateStrategy, Metric, MetricCreationError, MetricRegistry,
    RawMetricId,
};
use alumet::resources::{Resource, ResourceConsumer};
use alumet::time::Timestamp;
use alumet::units::{PrefixedUnit, Unit, UnitPrefix};

fn metric(name: &str, value_type: WrappedMeasurementType, description: &str) -> Metric {
    Metric {
        name: name.to_string(),
        description: description.to_string(),
        value_type,
        unit: PrefixedUnit::plain(Unit::Unity),
    }
}

#[test]
fn a_name_is_created_at_most_once() {
    let mut registry = MetricRegistry::new();
    let first = registry.create_metric::<u64>("cpu_time", PrefixedUnit::nano(Unit::Second), "a");
    assert_eq!(first.unwrap().untyped_id(), RawMetricId { index: 0 });
    let second = registry.create_metric::<u64>("cpu_time", PrefixedUnit::nano(Unit::Second), "b");
    assert_eq!(second.err(), Some(MetricCreationError::Duplicate));
    let third = registry.create_metric::<FloatBits>("cpu_time", PrefixedUnit::plain(Unit::Watt), "c");
    assert_eq!(third.err(), Some(MetricCreationError::Duplicate));
    assert_eq!(registry.len(), 1);
    let (_, kept) = registry.by_name("cpu_time").unwrap();
    assert_eq!(kept.description, "a");
}

#[test]
fn names_are_case_sensitive() {
    let mut registry = MetricRegistry::new();
    assert!(registry.create_metric::<u64>("Energy", PrefixedUnit::plain(Unit::Joule), "").is_ok());
    assert!(registry.create_metric::<u64>("energy", PrefixedUnit::plain(Unit::Joule), "").is_ok());
    assert_eq!(registry.len(), 2);
}

#[test]
fn names_are_validated() {
    for name in ["a", "_", "A9", "cpu_time", "cpu-time", "_x-1", "cgroup_memory_total"] {
        assert!(is_valid_metric_name(name), "{:?}", name);
    }
    for name in ["", "9a", "-a", "a b", "a.b", "é", "a/b", "a\n"] {
        assert!(!is_valid_metric_name(name), "{:?}", name);
    }
    let mut registry = MetricRegistry::new();
    let refused = registry.create_metric::<u64>("9lives", PrefixedUnit::plain(Unit::Unity), "");
    assert_eq!(refused.err(), Some(MetricCreationError::InvalidName));
    assert!(registry.is_empty());
}

#[test]
fn identifiers_are_positions() {
    let mut registry = MetricRegistry::new();
    let a = registry.create_metric::<u64>("a", PrefixedUnit::plain(Unit::Unity), "first").unwrap();
    let b = registry.create_metric::<FloatBits>("b", PrefixedUnit::milli(Unit::Watt), "second").unwrap();
    assert_eq!(a.untyped_id().index, 0);
    assert_eq!(b.untyped_id().index, 1);
    assert_eq!(b.untyped_id().as_u64(), 1);
    let (id, found) = registry.by_name("b").unwrap();
    assert_eq!(id, b.untyped_id());
    assert_eq!(found.value_type, WrappedMeasurementType::F64);
    assert_eq!(found.unit, PrefixedUnit { base_unit: Unit::Watt, prefix: UnitPrefix::Milli });
    assert_eq!(registry.by_id(&a.untyped_id()).unwrap().name, "a");
    assert!(registry.by_id(&RawMetricId { index: 2 }).is_none());
    assert!(registry.by_name("c").is_none());
}

#[test]
fn a_typed_identifier_needs_the_type_of_the_metric() {
    let mut registry = MetricRegistry::new();
    let a = registry.create_metric::<u64>("a", PrefixedUnit::plain(Unit::Unity), "").unwrap();
    assert!(registry.typed::<u64>(a.untyped_id()).is_some());
    assert!(registry.typed::<FloatBits>(a.untyped_id()).is_none());
    assert!(registry.typed::<u64>(RawMetricId { index: 5 }).is_none());
}

#[test]
fn a_point_has_the_type_of_its_identifier() {
    let mut registry = MetricRegistry::new();
    let a = registry.create_metric::<u64>("a", PrefixedUnit::plain(Unit::Unity), "").unwrap();
    let f = registry.create_metric::<FloatBits>("f", PrefixedUnit::plain(Unit::Unity), "").unwrap();
    let p = MeasurementPoint::new(
        Timestamp::from_nanos(1),
        a,
        Resource::LocalMachine,
        ResourceConsumer::LocalMachine,
        42u64,
    );
    assert_eq!(p.value, WrappedMeasurementValue::U64(42));
    assert_eq!(p.value.measurement_type(), WrappedMeasurementType::U64);
    assert!(registry.accepts(&p));
    let q = MeasurementPoint::new(
        Timestamp::from_nanos(1),
        f,
        Resource::LocalMachine,
        ResourceConsumer::LocalMachine,
        FloatBits { bits: 1.5f64.to_bits() },
    );
    assert_eq!(q.value.measurement_type(), WrappedMeasurementType::F64);
    assert!(registry.accepts(&q));
    let wrong = MeasurementPoint::new_untyped(
        Timestamp::from_nanos(1),
        a.untyped_id(),
        Resource::LocalMachine,
        ResourceConsumer::LocalMachine,
        WrappedMeasurementValue::F64(FloatBits { bits: 0 }),
    );
    assert!(!registry.accepts(&wrong));
    let unknown = MeasurementPoint::new_untyped(
        Timestamp::from_nanos(1),
        RawMetricId { index: 9 },
        Resource::LocalMachine,
        ResourceConsumer::LocalMachine,
        WrappedMeasurementValue::U64(0),
    );
    assert!(!registry.accepts(&unknown));
}

#[test]
fn replace_keeps_the_identifier_and_the_type() {
    let mut registry = MetricRegistry::new();
    registry.register(metric("a", WrappedMeasurementType::U64, "old"), DuplicateStrategy::Error).unwrap();
    registry.register(metric("b", WrappedMeasurementType::U64, "b"), DuplicateStrategy::Error).unwrap();
    let replaced = registry.register(metric("a", WrappedMeasurementType::U64, "new"), DuplicateStrategy::Replace);
    assert_eq!(replaced, Ok(RawMetricId { index: 0 }));
    assert_eq!(registry.len(), 2);
    assert_eq!(registry.by_name("a").unwrap().1.description, "new");
    let mismatch = registry.register(metric("a", WrappedMeasurementType::F64, "x"), DuplicateStrategy::Replace);
    assert_eq!(mismatch, Err(MetricCreationError::TypeMismatch));
    assert_eq!(registry.by_name("a").unwrap().1.description, "new");
    assert_eq!(registry.by_name("a").unwrap().1.value_type, WrappedMeasurementType::U64);
    let fresh = registry.register(metric("c", WrappedMeasurementType::F64, "c"), DuplicateStrategy::Replace);
    assert_eq!(fresh, Ok(RawMetricId { index: 2 }));
}

#[test]
fn late_metrics_are_registered_one_after_the_other() {
    let mut registry = MetricRegistry::new();
    registry.register(metric("a", WrappedMeasurementType::U64, "a"), DuplicateStrategy::Error).unwrap();
    let results = registry.create_metrics(
        vec![
            metric("b", WrappedMeasurementType::U64, "b"),
            metric("a", WrappedMeasurementType::U64, "again"),
            metric("not valid", WrappedMeasurementType::U64, ""),
            metric("b", WrappedMeasurementType::U64, "again"),
            metric("c", WrappedMeasurementType::F64, "c"),
        ],
        DuplicateStrategy::Error,
    );
    assert_eq!(
        results,
        vec![
            Ok(RawMetricId { index: 1 }),
            Err(MetricCreationError::Duplicate),
            Err(MetricCreationError::InvalidName),
            Err(MetricCreationError::Duplicate),
            Ok(RawMetricId { index: 2 }),
        ]
    );
    assert_eq!(registry.len(), 3);
}

#[test]
fn metrics_are_created_in_order_until_one_is_refused() {
    let mut registry = MetricRegistry::new();
    registry.register(metric("taken", WrappedMeasurementType::U64, ""), DuplicateStrategy::Error).unwrap();
    let ids = registry
        .create_in_order(vec![metric("a", WrappedMeasurementType::U64, ""), metric("b", WrappedMeasurementType::F64, "")])
        .unwrap();
    assert_eq!(ids, vec![RawMetricId { index: 1 }, RawMetricId { index: 2 }]);
    let refused = registry.create_in_order(vec![
        metric("c", WrappedMeasurementType::U64, ""),
        metric("taken", WrappedMeasurementType::U64, ""),
        metric("d", WrappedMeasurementType::U64, ""),
    ]);
    assert_eq!(refused, Err(MetricCreationError::Duplicate));
    assert_eq!(registry.len(), 4);
    assert!(registry.by_name("c").is_some());
    assert!(registry.by_name("d").is_none());
    let invalid = registry.create_in_order(vec![metric("", WrappedMeasurementType::U64, "")]);
    assert_eq!(invalid, Err(MetricCreationError::InvalidName));
    let twice = registry.create_in_order(vec![
        metric("e", WrappedMeasurementType::U64, ""),
        metric("e", WrappedMeasurementType::U64, ""),
    ]);
    assert_eq!(twice, Err(MetricCreationError::Duplicate));
    assert_eq!(registry.create_in_order(Vec::new()), Ok(Vec::new()));
}
