//! Measurement points and the buffers that carry them through the pipeline.

use vstd::prelude::*;
use vstd::string::*;
use crate::metrics::{RawMetricId, TypedMetricId};
use crate::resources::{Resource, ResourceConsumer, ResourceConsumerView, ResourceView};
use crate::text::str_eq;
use crate::time::Timestamp;

verus! {

/// A 64-bit floating-point number, held as its IEEE 754 bit pattern.
#[derive(Clone, Copy, Debug, PartialEq, Eq, Hash, Structural)]
pub struct FloatBits {
    pub bits: u64,
}

/// The type of the values that a metric takes.
#[derive(Clone, Copy, Debug, PartialEq, Eq, Hash, Structural)]
pub enum WrappedMeasurementType {
    F64,
    U64,
}

/// A measured value together with its type.
#[derive(Clone, Copy, Debug, PartialEq, Eq, Hash, Structural)]
pub enum WrappedMeasurementValue {
    F64(FloatBits),
    U64(u64),
}

impl WrappedMeasurementValue {
    pub open spec fn spec_measurement_type(self) -> WrappedMeasurementType {
        match self {
            WrappedMeasurementValue::F64(_) => WrappedMeasurementType::F64,
            WrappedMeasurementValue::U64(_) => WrappedMeasurementType::U64,
        }
    }

    /// The type of this value.
    pub fn measurement_type(&self) -> (t: WrappedMeasurementType)
        ensures
            t == self.spec_measurement_type(),
    {
        match self {
            WrappedMeasurementValue::F64(_) => WrappedMeasurementType::F64,
            WrappedMeasurementValue::U64(_) => WrappedMeasurementType::U64,
        }
    }
}

/// A type of Rust values that can be measured.
pub trait MeasurementType: Sized {
    /// The measurement type that stands for `Self`.
    spec fn spec_wrapped_type() -> WrappedMeasurementType;

    /// The value `v`, tagged with its type.
    spec fn spec_wrap(v: Self) -> WrappedMeasurementValue;

    fn wrapped_type() -> (t: WrappedMeasurementType)
        ensures
            t == Self::spec_wrapped_type(),
    ;

    fn wrap(v: Self) -> (w: WrappedMeasurementValue)
        ensures
            w == Self::spec_wrap(v),
            w.spec_measurement_type() == Self::spec_wrapped_type(),
    ;
}

impl MeasurementType for u64 {
    open spec fn spec_wrapped_type() -> WrappedMeasurementType {
        WrappedMeasurementType::U64
    }

    open spec fn spec_wrap(v: u64) -> WrappedMeasurementValue {
        WrappedMeasurementValue::U64(v)
    }

    fn wrapped_type() -> (t: WrappedMeasurementType) {
        WrappedMeasurementType::U64
    }

    fn wrap(v: u64) -> (w: WrappedMeasurementValue) {
        WrappedMeasurementValue::U64(v)
    }
}

impl MeasurementType for FloatBits {
    open spec fn spec_wrapped_type() -> WrappedMeasurementType {
        WrappedMeasurementType::F64
    }

    open spec fn spec_wrap(v: FloatBits) -> WrappedMeasurementValue {
        WrappedMeasurementValue::F64(v)
    }

    fn wrapped_type() -> (t: WrappedMeasurementType) {
        WrappedMeasurementType::F64
    }

    fn wrap(v: FloatBits) -> (w: WrappedMeasurementValue) {
        WrappedMeasurementValue::F64(v)
    }
}

/// The value of an attribute attached to a measurement point.
#[derive(Debug)]
pub enum AttributeValue {
    F64(FloatBits),
    U64(u64),
    Bool(bool),
    String(String),
}

/// Mathematical value of an [`AttributeValue`].
pub enum AttributeValueView {
    F64(FloatBits),
    U64(u64),
    Bool(bool),
    String(Seq<char>),
}

impl View for AttributeValue {
    type V = AttributeValueView;

    open spec fn view(&self) -> AttributeValueView {
        match self {
            AttributeValue::F64(v) => AttributeValueView::F64(*v),
            AttributeValue::U64(v) => AttributeValueView::U64(*v),
            AttributeValue::Bool(v) => AttributeValueView::Bool(*v),
            AttributeValue::String(v) => AttributeValueView::String(v@),
        }
    }
}

impl Clone for AttributeValue {
    fn clone(&self) -> (r: Self)
        ensures
            r@ == self@,
    {
        match self {
            AttributeValue::F64(v) => AttributeValue::F64(*v),
            AttributeValue::U64(v) => AttributeValue::U64(*v),
            AttributeValue::Bool(v) => AttributeValue::Bool(*v),
            AttributeValue::String(v) => AttributeValue::String(v.clone()),
        }
    }
}

/// A named attribute of a measurement point.
#[derive(Debug)]
pub struct Attribute {
    pub key: String,
    pub value: AttributeValue,
}

/// Mathematical value of an [`Attribute`].
pub struct AttributeView {
    pub key: Seq<char>,
    pub value: AttributeValueView,
}

impl View for Attribute {
    type V = AttributeView;

    open spec fn view(&self) -> AttributeView {
        AttributeView { key: self.key@, value: self.value@ }
    }
}

impl Clone for Attribute {
    fn clone(&self) -> (r: Self)
        ensures
            r@ == self@,
    {
        Attribute { key: self.key.clone(), value: self.value.clone() }
    }
}

/// The attributes in `attrs`, each as its mathematical value.
pub open spec fn attributes_view(attrs: Seq<Attribute>) -> Seq<AttributeView> {
    attrs.map_values(|a: Attribute| a@)
}

/// Whether some attribute in `attrs` has the key `key`.
pub open spec fn has_key(attrs: Seq<AttributeView>, key: Seq<char>) -> bool {
    exists|i: int| 0 <= i < attrs.len() && (#[trigger] attrs[i]).key == key
}

/// Whether no two attributes in `attrs` share a key.
pub open spec fn keys_distinct(attrs: Seq<AttributeView>) -> bool {
    forall|i: int, j: int|
        0 <= i < j < attrs.len() ==> (#[trigger] attrs[i]).key != (#[trigger] attrs[j]).key
}

/// The position of the first attribute with key `key`, or the length of
/// `attrs` if there is none.
pub open spec fn key_position(attrs: Seq<AttributeView>, key: Seq<char>) -> int
    decreases attrs.len(),
{
    if attrs.len() == 0 {
        0
    } else if attrs[0].key == key {
        0
    } else {
        1 + key_position(attrs.skip(1), key)
    }
}

/// `attrs` after `key` has been set to `value`: the first attribute with
/// that key gets the new value in place; without one, the attribute is added
/// at the end.
pub open spec fn attributes_with(
    attrs: Seq<AttributeView>,
    key: Seq<char>,
    value: AttributeValueView,
) -> Seq<AttributeView> {
    let at = key_position(attrs, key);
    if at < attrs.len() {
        attrs.update(at, AttributeView { key, value })
    } else {
        attrs.push(AttributeView { key, value })
    }
}

/// The value that `attrs` gives to `key`, if any.
pub open spec fn attribute_lookup(attrs: Seq<AttributeView>, key: Seq<char>) -> Option<
    AttributeValueView,
> {
    let at = key_position(attrs, key);
    if at < attrs.len() {
        Some(attrs[at].value)
    } else {
        None
    }
}

/// `key_position` finds the first attribute with the key, and stays within
/// the sequence.
pub proof fn lemma_key_position(attrs: Seq<AttributeView>, key: Seq<char>)
    ensures
        0 <= key_position(attrs, key) <= attrs.len(),
        key_position(attrs, key) < attrs.len() ==> attrs[key_position(attrs, key)].key == key,
        forall|i: int| 0 <= i < key_position(attrs, key) ==> (#[trigger] attrs[i]).key != key,
    decreases attrs.len(),
{
    if attrs.len() != 0 && attrs[0].key != key {
        let rest = attrs.skip(1);
        lemma_key_position(rest, key);
        assert forall|i: int| 0 <= i < key_position(attrs, key) implies (#[trigger] attrs[i]).key
            != key by {
            if i > 0 {
                assert(rest[i - 1] == attrs[i]);
            }
        }
    }
}

/// A position that holds the key, with none before it, is the key's position.
pub proof fn lemma_key_position_is(attrs: Seq<AttributeView>, key: Seq<char>, at: int)
    requires
        0 <= at <= attrs.len(),
        at < attrs.len() ==> attrs[at].key == key,
        forall|i: int| 0 <= i < at ==> (#[trigger] attrs[i]).key != key,
    ensures
        key_position(attrs, key) == at,
{
    lemma_key_position(attrs, key);
    let found = key_position(attrs, key);
    if found < at {
        assert(attrs[found].key != key);
    }
}

/// An attribute that has been set can be read back, and the others keep
/// their values.
pub proof fn lemma_lookup_after_set(
    attrs: Seq<AttributeView>,
    key: Seq<char>,
    value: AttributeValueView,
    other: Seq<char>,
)
    ensures
        attribute_lookup(attributes_with(attrs, key, value), key) == Some(value),
        other != key ==> attribute_lookup(attributes_with(attrs, key, value), other)
            == attribute_lookup(attrs, other),
{
    let after = attributes_with(attrs, key, value);
    let at = key_position(attrs, key);
    lemma_key_position(attrs, key);
    assert forall|i: int| 0 <= i < at implies (#[trigger] after[i]).key != key by {
        assert(after[i] == attrs[i]);
    }
    lemma_key_position_is(after, key, at);
    if other != key {
        let o = key_position(attrs, other);
        lemma_key_position(attrs, other);
        assert forall|i: int| 0 <= i < o implies (#[trigger] after[i]).key != other by {
            if i != at {
                assert(after[i] == attrs[i]);
            }
        }
        if o < attrs.len() {
            assert(o != at);
            assert(after[o] == attrs[o]);
            lemma_key_position_is(after, other, o);
        } else {
            assert forall|i: int| 0 <= i < after.len() implies (#[trigger] after[i]).key
                != other by {
                if i != at {
                    assert(after[i] == attrs[i]);
                }
            }
            lemma_key_position_is(after, other, after.len() as int);
        }
    }
}

/// One measured value: what was measured, when, where and for whom.
#[derive(Debug)]
pub struct MeasurementPoint {
    /// The metric that the value belongs to.
    pub metric: RawMetricId,
    /// The time of the measurement.
    pub timestamp: Timestamp,
    /// The measured value.
    pub value: WrappedMeasurementValue,
    /// The resource that was observed.
    pub resource: Resource,
    /// The consumer of the resource.
    pub consumer: ResourceConsumer,
    /// Further information, in the order in which it was attached.
    pub attributes: Vec<Attribute>,
}

/// Mathematical value of a [`MeasurementPoint`].
pub struct MeasurementPointView {
    pub metric: RawMetricId,
    pub timestamp: Timestamp,
    pub value: WrappedMeasurementValue,
    pub resource: ResourceView,
    pub consumer: ResourceConsumerView,
    pub attributes: Seq<AttributeView>,
}

impl View for MeasurementPoint {
    type V = MeasurementPointView;

    open spec fn view(&self) -> MeasurementPointView {
        MeasurementPointView {
            metric: self.metric,
            timestamp: self.timestamp,
            value: self.value,
            resource: self.resource@,
            consumer: self.consumer@,
            attributes: attributes_view(self.attributes@),
        }
    }
}

impl MeasurementPointView {
    /// This point after `key` has been set to `value`.
    pub open spec fn with_attr(self, key: Seq<char>, value: AttributeValueView) -> Self {
        MeasurementPointView {
            attributes: attributes_with(self.attributes, key, value),
            ..self
        }
    }
}

fn clone_attributes(attrs: &Vec<Attribute>) -> (r: Vec<Attribute>)
    ensures
        attributes_view(r@) == attributes_view(attrs@),
{
    let mut out: Vec<Attribute> = Vec::new();
    let mut i: usize = 0;
    while i < attrs.len()
        invariant
            i <= attrs.len(),
            out.len() == i,
            forall|j: int| 0 <= j < i ==> out@[j]@ == attrs@[j]@,
        decreases attrs.len() - i,
    {
        out.push(attrs[i].clone());
        i += 1;
    }
    assert(attributes_view(out@) =~= attributes_view(attrs@));
    out
}

impl Clone for MeasurementPoint {
    fn clone(&self) -> (r: Self)
        ensures
            r@ == self@,
    {
        MeasurementPoint {
            metric: self.metric,
            timestamp: self.timestamp,
            value: self.value,
            resource: self.resource.clone(),
            consumer: self.consumer.clone(),
            attributes: clone_attributes(&self.attributes),
        }
    }
}

impl MeasurementPoint {
    /// A point for a metric of type `T`, without attributes. Its value has
    /// the type that the identifier was made for.
    pub fn new<T: MeasurementType>(
        timestamp: Timestamp,
        metric: TypedMetricId<T>,
        resource: Resource,
        consumer: ResourceConsumer,
        value: T,
    ) -> (p: MeasurementPoint)
        ensures
            p@ == (MeasurementPointView {
                metric: metric.raw,
                timestamp,
                value: T::spec_wrap(value),
                resource: resource@,
                consumer: consumer@,
                attributes: Seq::empty(),
            }),
            p.value.spec_measurement_type() == T::spec_wrapped_type(),
    {
        let p = MeasurementPoint {
            metric: metric.raw,
            timestamp,
            value: T::wrap(value),
            resource,
            consumer,
            attributes: Vec::new(),
        };
        assert(attributes_view(p.attributes@) =~= Seq::empty());
        p
    }

    /// A point whose metric and value are given without their type.
    pub fn new_untyped(
        timestamp: Timestamp,
        metric: RawMetricId,
        resource: Resource,
        consumer: ResourceConsumer,
        value: WrappedMeasurementValue,
    ) -> (p: MeasurementPoint)
        ensures
            p@ == (MeasurementPointView {
                metric,
                timestamp,
                value,
                resource: resource@,
                consumer: consumer@,
                attributes: Seq::empty(),
            }),
    {
        let p = MeasurementPoint {
            metric,
            timestamp,
            value,
            resource,
            consumer,
            attributes: Vec::new(),
        };
        assert(attributes_view(p.attributes@) =~= Seq::empty());
        p
    }

    /// Sets the attribute `key` to `value`. An attribute that the point has
    /// already keeps its place and gets the new value; a new one goes last.
    pub fn add_attr(&mut self, key: &str, value: AttributeValue)
        ensures
            final(self)@ == old(self)@.with_attr(key@, value@),
            keys_distinct(old(self)@.attributes) ==> keys_distinct(final(self)@.attributes),
    {
        let ghost before = attributes_view(self.attributes@);
        let mut i: usize = 0;
        while i < self.attributes.len()
            invariant
                i <= self.attributes.len(),
                *self == *old(self),
                forall|j: int| 0 <= j < i ==> (#[trigger] before[j]).key != key@,
                before == attributes_view(self.attributes@),
            decreases self.attributes.len() - i,
        {
            if str_eq(self.attributes[i].key.as_str(), key) {
                proof {
                    lemma_key_position_is(before, key@, i as int);
                }
                let attr = Attribute { key: String::from_str(key), value };
                self.attributes[i] = attr;
                assert(attributes_view(self.attributes@) =~= before.update(
                    i as int,
                    AttributeView { key: key@, value: value@ },
                ));
                return ;
            }
            i += 1;
        }
        proof {
            lemma_key_position_is(before, key@, before.len() as int);
        }
        self.attributes.push(Attribute { key: String::from_str(key), value });
        assert(attributes_view(self.attributes@) =~= before.push(
            AttributeView { key: key@, value: value@ },
        ));
    }

    /// This point with the attribute `key` set to `value`.
    pub fn with_attr(self, key: &str, value: AttributeValue) -> (p: MeasurementPoint)
        ensures
            p@ == self@.with_attr(key@, value@),
            keys_distinct(self@.attributes) ==> keys_distinct(p@.attributes),
    {
        let mut p = self;
        p.add_attr(key, value);
        p
    }

    /// The value of the attribute `key`, if the point has one.
    pub fn attr(&self, key: &str) -> (r: Option<&AttributeValue>)
        ensures
            r is Some == attribute_lookup(self@.attributes, key@) is Some,
            r matches Some(v) ==> attribute_lookup(self@.attributes, key@) == Some(v@),
    {
        let ghost attrs = attributes_view(self.attributes@);
        let mut i: usize = 0;
        while i < self.attributes.len()
            invariant
                i <= self.attributes.len(),
                attrs == attributes_view(self.attributes@),
                forall|j: int| 0 <= j < i ==> (#[trigger] attrs[j]).key != key@,
            decreases self.attributes.len() - i,
        {
            if str_eq(self.attributes[i].key.as_str(), key) {
                proof {
                    lemma_key_position_is(attrs, key@, i as int);
                }
                return Some(&self.attributes[i].value);
            }
            i += 1;
        }
        proof {
            lemma_key_position_is(attrs, key@, attrs.len() as int);
        }
        None
    }
}

/// The points in `points`, each as its mathematical value.
pub open spec fn points_view(points: Seq<MeasurementPoint>) -> Seq<MeasurementPointView> {
    points.map_values(|p: MeasurementPoint| p@)
}

/// An ordered sequence of measurement points, owned by one stage of the
/// pipeline at a time.
#[derive(Debug)]
pub struct MeasurementBuffer {
    pub points: Vec<MeasurementPoint>,
}

impl View for MeasurementBuffer {
    type V = Seq<MeasurementPointView>;

    open spec fn view(&self) -> Seq<MeasurementPointView> {
        points_view(self.points@)
    }
}

impl MeasurementBuffer {
    /// An empty buffer.
    pub fn new() -> (b: MeasurementBuffer)
        ensures
            b@ == Seq::<MeasurementPointView>::empty(),
    {
        let b = MeasurementBuffer { points: Vec::new() };
        assert(b@ =~= Seq::<MeasurementPointView>::empty());
        b
    }

    pub fn len(&self) -> (n: usize)
        ensures
            n == self@.len(),
    {
        self.points.len()
    }

    pub fn is_empty(&self) -> (e: bool)
        ensures
            e == (self@.len() == 0),
    {
        self.points.len() == 0
    }

    /// Adds `point` at the end.
    pub fn push(&mut self, point: MeasurementPoint)
        ensures
            final(self)@ == old(self)@.push(point@),
    {
        self.points.push(point);
        assert(self@ =~= old(self)@.push(point@));
    }

    /// The point at position `index`.
    pub fn get(&self, index: usize) -> (p: &MeasurementPoint)
        requires
            index < self@.len(),
        ensures
            p@ == self@[index as int],
    {
        &self.points[index]
    }

    /// Moves all the points of `other` to the end of this buffer.
    pub fn merge(&mut self, other: MeasurementBuffer)
        ensures
            final(self)@ == old(self)@ + other@,
    {
        let ghost added = other@;
        let mut other = other;
        self.points.append(&mut other.points);
        assert(self@ =~= old(self)@ + added);
    }

    /// Removes all the points.
    pub fn clear(&mut self)
        ensures
            final(self)@ == Seq::<MeasurementPointView>::empty(),
    {
        self.points.clear();
        assert(self@ =~= Seq::<MeasurementPointView>::empty());
    }
}

impl Clone for MeasurementBuffer {
    fn clone(&self) -> (r: Self)
        ensures
            r@ == self@,
    {
        let mut out: Vec<MeasurementPoint> = Vec::new();
        let mut i: usize = 0;
        while i < self.points.len()
            invariant
                i <= self.points.len(),
                out.len() == i,
                forall|j: int| 0 <= j < i ==> out@[j]@ == self.points@[j]@,
            decreases self.points.len() - i,
        {
            out.push(self.points[i].clone());
            i += 1;
        }
        let r = MeasurementBuffer { points: out };
        assert(r@ =~= self@);
        r
    }
}

/// What a source writes its points to during one poll. Points can be added
/// to an accumulator; nothing can be read from it or taken out of it.
#[derive(Debug)]
pub struct MeasurementAccumulator {
    buffer: MeasurementBuffer,
}

impl View for MeasurementAccumulator {
    type V = Seq<MeasurementPointView>;

    closed spec fn view(&self) -> Seq<MeasurementPointView> {
        self.buffer@
    }
}

impl MeasurementAccumulator {
    /// An accumulator that holds no point yet.
    pub fn new() -> (a: MeasurementAccumulator)
        ensures
            a@ == Seq::<MeasurementPointView>::empty(),
    {
        MeasurementAccumulator { buffer: MeasurementBuffer::new() }
    }

    /// Adds `point` at the end.
    pub fn push(&mut self, point: MeasurementPoint)
        ensures
            final(self)@ == old(self)@.push(point@),
    {
        self.buffer.push(point);
    }

    /// The points that were accumulated, in the order in which they came.
    pub fn into_buffer(self) -> (b: MeasurementBuffer)
        ensures
            b@ == self@,
    {
        self.buffer
    }
}

} // verus!
