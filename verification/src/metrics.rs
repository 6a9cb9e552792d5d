//! Metrics and the registry that names them.

use vstd::prelude::*;
use vstd::string::*;
use std::marker::PhantomData;
use crate::measurement::{MeasurementType, WrappedMeasurementType};
use crate::units::PrefixedUnit;

verus! {

/// Identifier of a metric in the registry, without the type of its values.
#[derive(Clone, Copy, Debug, PartialEq, Eq, Hash, Structural)]
pub struct RawMetricId {
    pub index: usize,
}

/// Identifier of a metric whose values have the type `T`.
#[derive(Debug)]
pub struct TypedMetricId<T> {
    pub raw: RawMetricId,
    pub value_type: PhantomData<T>,
}

impl<T> Clone for TypedMetricId<T> {
    fn clone(&self) -> (r: Self)
        ensures
            r.raw == self.raw,
    {
        TypedMetricId { raw: self.raw, value_type: PhantomData }
    }
}

impl<T> Copy for TypedMetricId<T> {

}

impl<T> TypedMetricId<T> {
    /// The identifier without its type.
    pub fn untyped_id(&self) -> (r: RawMetricId)
        ensures
            r == self.raw,
    {
        self.raw
    }
}

impl RawMetricId {
    pub fn as_u64(&self) -> (r: u64)
        ensures
            r == self.index,
    {
        self.index as u64
    }
}

} // verus!

verus! {

/// Definition of a metric: what its values mean.
#[derive(Debug)]
pub struct Metric {
    /// Name of the metric, by which it is known everywhere.
    pub name: String,
    /// What the metric measures, for a human reader.
    pub description: String,
    /// Type of the values of the metric.
    pub value_type: WrappedMeasurementType,
    /// Unit of the values of the metric.
    pub unit: PrefixedUnit,
}

/// Mathematical value of a [`Metric`].
pub struct MetricView {
    pub name: Seq<char>,
    pub description: Seq<char>,
    pub value_type: WrappedMeasurementType,
    pub unit: PrefixedUnit,
}

impl View for Metric {
    type V = MetricView;

    open spec fn view(&self) -> MetricView {
        MetricView {
            name: self.name@,
            description: self.description@,
            value_type: self.value_type,
            unit: self.unit,
        }
    }
}

impl Clone for Metric {
    fn clone(&self) -> (r: Self)
        ensures
            r@ == self@,
    {
        Metric {
            name: self.name.clone(),
            description: self.description.clone(),
            value_type: self.value_type,
            unit: self.unit,
        }
    }
}

/// What to do when a metric is registered under a name that is taken.
#[derive(Clone, Copy, Debug, PartialEq, Eq, Structural)]
pub enum DuplicateStrategy {
    /// Refuse the new metric.
    Error,
    /// Put the new definition in place of the old one, under the same
    /// identifier. The type of the values cannot change.
    Replace,
}

/// Why a metric could not be registered.
#[derive(Clone, Copy, Debug, PartialEq, Eq, Structural)]
pub enum MetricCreationError {
    /// The name is empty or holds a character that a name cannot have.
    InvalidName,
    /// A metric of that name exists.
    Duplicate,
    /// A metric of that name exists, with values of another type.
    TypeMismatch,
}

/// Whether `c` can start the name of a metric: an ASCII letter or `_`.
pub open spec fn is_name_start(c: char) -> bool {
    ('a' <= c && c <= 'z') || ('A' <= c && c <= 'Z') || c == '_'
}

/// Whether `c` can stand inside the name of a metric: an ASCII letter or
/// digit, `_` or `-`.
pub open spec fn is_name_part(c: char) -> bool {
    is_name_start(c) || ('0' <= c && c <= '9') || c == '-'
}

/// Whether `name` can be the name of a metric: a letter or `_`, then any
/// number of letters, digits, `_` and `-`.
pub open spec fn valid_metric_name(name: Seq<char>) -> bool {
    &&& name.len() > 0
    &&& is_name_start(name[0])
    &&& forall|i: int| 1 <= i < name.len() ==> is_name_part(#[trigger] name[i])
}

/// The position of the first metric named `name`, or the length of
/// `metrics` if there is none.
pub open spec fn metric_position(metrics: Seq<MetricView>, name: Seq<char>) -> int
    decreases metrics.len(),
{
    if metrics.len() == 0 {
        0
    } else if metrics[0].name == name {
        0
    } else {
        1 + metric_position(metrics.skip(1), name)
    }
}

/// Whether a metric named `name` is among `metrics`.
pub open spec fn has_metric(metrics: Seq<MetricView>, name: Seq<char>) -> bool {
    metric_position(metrics, name) < metrics.len()
}

/// Whether no two metrics have the same name.
pub open spec fn metric_names_distinct(metrics: Seq<MetricView>) -> bool {
    forall|i: int, j: int|
        0 <= i < j < metrics.len() ==> (#[trigger] metrics[i]).name != (#[trigger] metrics[j]).name
}

/// What registering `metric` gives, when the metrics so far are `metrics`.
pub open spec fn registration_result(
    metrics: Seq<MetricView>,
    metric: MetricView,
    strategy: DuplicateStrategy,
) -> Result<RawMetricId, MetricCreationError> {
    let at = metric_position(metrics, metric.name);
    if !valid_metric_name(metric.name) {
        Err(MetricCreationError::InvalidName)
    } else if at == metrics.len() {
        Ok(RawMetricId { index: at as usize })
    } else if strategy == DuplicateStrategy::Error {
        Err(MetricCreationError::Duplicate)
    } else if metrics[at].value_type != metric.value_type {
        Err(MetricCreationError::TypeMismatch)
    } else {
        Ok(RawMetricId { index: at as usize })
    }
}

/// The metrics after `metric` has been registered, or after the attempt.
pub open spec fn registration_effect(
    metrics: Seq<MetricView>,
    metric: MetricView,
    strategy: DuplicateStrategy,
) -> Seq<MetricView> {
    let at = metric_position(metrics, metric.name);
    if registration_result(metrics, metric, strategy) is Err {
        metrics
    } else if at == metrics.len() {
        metrics.push(metric)
    } else {
        metrics.update(at, metric)
    }
}

/// The metrics after the `requests` have been registered one after the
/// other, starting from `metrics`.
pub open spec fn registered_after(
    metrics: Seq<MetricView>,
    requests: Seq<MetricView>,
    strategy: DuplicateStrategy,
) -> Seq<MetricView>
    decreases requests.len(),
{
    if requests.len() == 0 {
        metrics
    } else {
        registration_effect(
            registered_after(metrics, requests.drop_last(), strategy),
            requests.last(),
            strategy,
        )
    }
}

/// What the registration of `requests[k]` gives, when the requests are
/// registered one after the other starting from `metrics`.
pub open spec fn registration_outcome(
    metrics: Seq<MetricView>,
    requests: Seq<MetricView>,
    strategy: DuplicateStrategy,
    k: int,
) -> Result<RawMetricId, MetricCreationError>
    recommends
        0 <= k < requests.len(),
{
    registration_result(registered_after(metrics, requests.take(k), strategy), requests[k], strategy)
}

/// The number of `requests` that are registered before one is refused,
/// when they are registered one after the other, starting from `metrics`,
/// and a name that is taken is an error.
pub open spec fn created_before_refusal(metrics: Seq<MetricView>, requests: Seq<MetricView>) -> int
    decreases requests.len(),
{
    if requests.len() == 0 {
        0
    } else if registration_result(metrics, requests[0], DuplicateStrategy::Error) is Err {
        0
    } else {
        1 + created_before_refusal(metrics.push(requests[0]), requests.skip(1))
    }
}

/// Requests with valid names that differ from each other and from the
/// names that are taken are all created.
pub proof fn lemma_all_created(metrics: Seq<MetricView>, requests: Seq<MetricView>)
    requires
        metric_names_distinct(requests),
        forall|k: int|
            0 <= k < requests.len() ==> valid_metric_name((#[trigger] requests[k]).name)
                && !has_metric(metrics, requests[k].name),
    ensures
        created_before_refusal(metrics, requests) == requests.len(),
    decreases requests.len(),
{
    if requests.len() > 0 {
        let first = requests[0];
        let rest = requests.skip(1);
        lemma_metric_position(metrics, first.name);
        assert forall|k: int| 0 <= k < rest.len() implies valid_metric_name(
            (#[trigger] rest[k]).name,
        ) && !has_metric(metrics.push(first), rest[k].name) by {
            assert(rest[k] == requests[k + 1]);
            assert(requests[0].name != requests[k + 1].name);
            lemma_has_metric_after_push(metrics, first, rest[k].name);
        }
        assert forall|i: int, j: int| 0 <= i < j < rest.len() implies (#[trigger] rest[i]).name != (
        #[trigger] rest[j]).name by {
            assert(rest[i] == requests[i + 1] && rest[j] == requests[j + 1]);
        }
        lemma_all_created(metrics.push(first), rest);
    }
}

/// Where the names of the requests are valid, the request that is refused
/// is refused as a duplicate.
pub proof fn lemma_refusal_is_duplicate(metrics: Seq<MetricView>, requests: Seq<MetricView>)
    requires
        forall|k: int| 0 <= k < requests.len() ==> valid_metric_name((#[trigger] requests[k]).name),
    ensures
        ({
            let created = created_before_refusal(metrics, requests);
            &&& 0 <= created <= requests.len()
            &&& created < requests.len() ==> registration_result(
                metrics + requests.take(created),
                requests[created],
                DuplicateStrategy::Error,
            ) == Err::<RawMetricId, MetricCreationError>(MetricCreationError::Duplicate)
        }),
    decreases requests.len(),
{
    if requests.len() > 0 {
        let first = requests[0];
        let rest = requests.skip(1);
        if registration_result(metrics, first, DuplicateStrategy::Error) is Err {
            assert(requests.take(0) =~= Seq::empty());
            assert(metrics + requests.take(0) =~= metrics);
            lemma_metric_position(metrics, first.name);
        } else {
            assert forall|k: int| 0 <= k < rest.len() implies valid_metric_name(
                (#[trigger] rest[k]).name,
            ) by {
                assert(rest[k] == requests[k + 1]);
            }
            lemma_refusal_is_duplicate(metrics.push(first), rest);
            let created = created_before_refusal(metrics.push(first), rest);
            assert(metrics.push(first) + rest.take(created) =~= metrics + requests.take(
                created + 1,
            ));
            if created < rest.len() {
                assert(rest[created] == requests[created + 1]);
            }
        }
    }
}

/// `metric_position` finds the first metric with the name, and stays within
/// the sequence.
pub proof fn lemma_metric_position(metrics: Seq<MetricView>, name: Seq<char>)
    ensures
        0 <= metric_position(metrics, name) <= metrics.len(),
        has_metric(metrics, name) ==> metrics[metric_position(metrics, name)].name == name,
        forall|i: int| 0 <= i < metric_position(metrics, name) ==> (#[trigger] metrics[i]).name != name,
    decreases metrics.len(),
{
    if metrics.len() != 0 && metrics[0].name != name {
        let rest = metrics.skip(1);
        lemma_metric_position(rest, name);
        assert forall|i: int| 0 <= i < metric_position(metrics, name) implies (
        #[trigger] metrics[i]).name != name by {
            if i > 0 {
                assert(rest[i - 1] == metrics[i]);
            }
        }
    }
}

/// A position that holds the name, with none before it, is the name's position.
pub proof fn lemma_metric_position_is(metrics: Seq<MetricView>, name: Seq<char>, at: int)
    requires
        0 <= at <= metrics.len(),
        at < metrics.len() ==> metrics[at].name == name,
        forall|i: int| 0 <= i < at ==> (#[trigger] metrics[i]).name != name,
    ensures
        metric_position(metrics, name) == at,
{
    lemma_metric_position(metrics, name);
    let found = metric_position(metrics, name);
    if found < at {
        assert(metrics[found].name != name);
    }
}

/// A metric that is added at the end brings its own name, and no other.
pub proof fn lemma_has_metric_after_push(metrics: Seq<MetricView>, added: MetricView, name: Seq<char>)
    ensures
        has_metric(metrics.push(added), name) == (has_metric(metrics, name) || added.name == name),
{
    let after = metrics.push(added);
    lemma_metric_position(metrics, name);
    lemma_metric_position(after, name);
    let p = metric_position(metrics, name);
    let q = metric_position(after, name);
    if p < metrics.len() {
        assert(after[p] == metrics[p]);
        if q == after.len() {
            assert(after[p].name != name);
        }
    } else if added.name == name {
        assert(after[metrics.len() as int].name == name);
        if q == after.len() {
            assert(after[metrics.len() as int].name != name);
        }
    } else {
        if q < after.len() {
            if q < metrics.len() {
                assert(after[q] == metrics[q]);
                assert(metrics[q].name != name);
            }
        }
    }
}

/// One registration keeps what a registry must keep: every metric stays at
/// its place with its name and the type of its values, names stay distinct,
/// and a name that was registered stays registered.
pub proof fn lemma_registration_preserves(
    metrics: Seq<MetricView>,
    metric: MetricView,
    strategy: DuplicateStrategy,
)
    requires
        metric_names_distinct(metrics),
    ensures
        ({
            let after = registration_effect(metrics, metric, strategy);
            &&& metric_names_distinct(after)
            &&& after.len() >= metrics.len()
            &&& forall|i: int|
                0 <= i < metrics.len() ==> (#[trigger] after[i]).name == metrics[i].name
                    && after[i].value_type == metrics[i].value_type
            &&& forall|name: Seq<char>|
                has_metric(metrics, name) ==> #[trigger] has_metric(after, name)
            &&& registration_result(metrics, metric, strategy) is Ok ==> has_metric(
                after,
                metric.name,
            )
            &&& registration_result(metrics, metric, strategy) is Ok ==> {
                let at = metric_position(metrics, metric.name);
                at < after.len() && after[at] == metric
            }
        }),
{
    let after = registration_effect(metrics, metric, strategy);
    let at = metric_position(metrics, metric.name);
    lemma_metric_position(metrics, metric.name);
    assert forall|i: int, j: int| 0 <= i < j < after.len() implies (#[trigger] after[i]).name != (
    #[trigger] after[j]).name by {
        if j < metrics.len() {
            assert(after[i].name == metrics[i].name);
            assert(after[j].name == metrics[j].name);
        } else {
            assert(after[i].name == metrics[i].name);
        }
    }
    assert forall|name: Seq<char>| has_metric(metrics, name) implies #[trigger] has_metric(
        after,
        name,
    ) by {
        lemma_metric_position(metrics, name);
        let p = metric_position(metrics, name);
        assert(after[p].name == name);
        lemma_metric_position(after, name);
        if metric_position(after, name) == after.len() {
            assert(after[p].name != name);
        }
    }
    if registration_result(metrics, metric, strategy) is Ok {
        lemma_metric_position(after, metric.name);
        if at == metrics.len() {
            assert(after[at].name == metric.name);
        } else {
            assert(after[at].name == metric.name);
        }
        if metric_position(after, metric.name) == after.len() {
            assert(after[at].name != metric.name);
        }
    }
}

/// Registering several requests keeps names distinct, and a name that was
/// registered at some point stays registered.
pub proof fn lemma_registered_after(
    metrics: Seq<MetricView>,
    requests: Seq<MetricView>,
    strategy: DuplicateStrategy,
    k: int,
)
    requires
        metric_names_distinct(metrics),
        0 <= k <= requests.len(),
    ensures
        metric_names_distinct(registered_after(metrics, requests, strategy)),
        forall|name: Seq<char>|
            has_metric(registered_after(metrics, requests.take(k), strategy), name)
                ==> #[trigger] has_metric(registered_after(metrics, requests, strategy), name),
    decreases requests.len(),
{
    if requests.len() == 0 {
        assert(requests.take(k) =~= requests);
    } else if k == requests.len() {
        assert(requests.take(k) =~= requests);
        lemma_registered_after(metrics, requests.drop_last(), strategy, 0);
        lemma_registration_preserves(
            registered_after(metrics, requests.drop_last(), strategy),
            requests.last(),
            strategy,
        );
    } else {
        let earlier = requests.drop_last();
        lemma_registered_after(metrics, earlier, strategy, k);
        assert(earlier.take(k) =~= requests.take(k));
        lemma_registration_preserves(
            registered_after(metrics, earlier, strategy),
            requests.last(),
            strategy,
        );
    }
}

/// A name is created at most once. Where metrics are registered one after
/// the other and a name that is taken is an error, two requests for the same
/// name do not both succeed: once the first has, the second is refused as a
/// duplicate.
pub proof fn lemma_created_at_most_once(
    metrics: Seq<MetricView>,
    requests: Seq<MetricView>,
    first: int,
    second: int,
)
    requires
        metric_names_distinct(metrics),
        0 <= first < second < requests.len(),
        requests[first].name == requests[second].name,
        registration_outcome(metrics, requests, DuplicateStrategy::Error, first) is Ok,
    ensures
        registration_outcome(metrics, requests, DuplicateStrategy::Error, second) == Err::<
            RawMetricId,
            MetricCreationError,
        >(MetricCreationError::Duplicate),
{
    let strategy = DuplicateStrategy::Error;
    let name = requests[first].name;
    let until_first = registered_after(metrics, requests.take(first), strategy);
    let with_first = registered_after(metrics, requests.take(first + 1), strategy);
    let until_second = registered_after(metrics, requests.take(second), strategy);
    lemma_registered_after(metrics, requests.take(first), strategy, 0);
    lemma_registration_preserves(until_first, requests[first], strategy);
    assert(requests.take(first + 1).drop_last() =~= requests.take(first));
    assert(requests.take(first + 1).last() == requests[first]);
    assert(has_metric(with_first, name));
    lemma_registered_after(metrics, requests.take(second), strategy, first + 1);
    assert(requests.take(second).take(first + 1) =~= requests.take(first + 1));
    assert(has_metric(until_second, name));
    lemma_metric_position(until_second, name);
}

/// The metrics that the plugins have registered. A metric is known by its
/// name; its identifier is its position in the registry.
#[derive(Debug)]
pub struct MetricRegistry {
    metrics: Vec<Metric>,
}

/// The metrics in `metrics`, each as its mathematical value.
pub open spec fn metrics_view(metrics: Seq<Metric>) -> Seq<MetricView> {
    metrics.map_values(|m: Metric| m@)
}

impl View for MetricRegistry {
    type V = Seq<MetricView>;

    closed spec fn view(&self) -> Seq<MetricView> {
        metrics_view(self.metrics@)
    }
}

/// Whether `name` can be the name of a metric.
pub fn is_valid_metric_name(name: &str) -> (r: bool)
    ensures
        r == valid_metric_name(name@),
{
    let chars = crate::text::chars_of(name);
    if chars.len() == 0 {
        return false;
    }
    let first = chars[0];
    if !((first >= 'a' && first <= 'z') || (first >= 'A' && first <= 'Z') || first == '_') {
        return false;
    }
    let mut i: usize = 1;
    while i < chars.len()
        invariant
            1 <= i <= chars.len(),
            chars@ == name@,
            forall|j: int| 1 <= j < i ==> is_name_part(#[trigger] name@[j]),
        decreases chars.len() - i,
    {
        let c = chars[i];
        if !((c >= 'a' && c <= 'z') || (c >= 'A' && c <= 'Z') || c == '_' || (c >= '0' && c
            <= '9') || c == '-') {
            assert(!is_name_part(name@[i as int]));
            return false;
        }
        i += 1;
    }
    true
}

impl MetricRegistry {
    #[verifier::type_invariant]
    spec fn well_formed(self) -> bool {
        metric_names_distinct(metrics_view(self.metrics@))
    }

    /// Moves the metrics out of the registry, which is left without any.
    fn take_metrics(&mut self) -> (v: Vec<Metric>)
        ensures
            v == old(self).metrics,
            final(self).metrics@.len() == 0,
    {
        let mut v: Vec<Metric> = Vec::new();
        core::mem::swap(&mut self.metrics, &mut v);
        v
    }

    /// A registry without metrics.
    pub fn new() -> (r: MetricRegistry)
        ensures
            r@ == Seq::<MetricView>::empty(),
    {
        let r = MetricRegistry { metrics: Vec::new() };
        assert(r@ =~= Seq::<MetricView>::empty());
        r
    }

    /// States what holds of every registry: no two metrics have the same
    /// name. It does nothing when run.
    pub fn well_formedness(&self)
        ensures
            metric_names_distinct(self@),
    {
        proof {
            use_type_invariant(self);
        }
    }

    /// The number of metrics.
    pub fn len(&self) -> (n: usize)
        ensures
            n == self@.len(),
    {
        self.metrics.len()
    }

    pub fn is_empty(&self) -> (e: bool)
        ensures
            e == (self@.len() == 0),
    {
        self.metrics.len() == 0
    }

    fn position(&self, name: &str) -> (at: usize)
        ensures
            at == metric_position(self@, name@),
            at <= self@.len(),
    {
        let ghost metrics = self@;
        let mut i: usize = 0;
        while i < self.metrics.len()
            invariant
                i <= self.metrics.len(),
                metrics == metrics_view(self.metrics@),
                forall|j: int| 0 <= j < i ==> (#[trigger] metrics[j]).name != name@,
            decreases self.metrics.len() - i,
        {
            if crate::text::str_eq(self.metrics[i].name.as_str(), name) {
                proof {
                    lemma_metric_position_is(metrics, name@, i as int);
                }
                return i;
            }
            i += 1;
        }
        proof {
            lemma_metric_position_is(metrics, name@, metrics.len() as int);
        }
        i
    }

    /// The metric named `name` and its identifier.
    pub fn by_name(&self, name: &str) -> (r: Option<(RawMetricId, &Metric)>)
        ensures
            r is Some == has_metric(self@, name@),
            r matches Some((id, metric)) ==> id.index == metric_position(self@, name@)
                && metric@ == self@[id.index as int] && metric@.name == name@,
    {
        let at = self.position(name);
        proof {
            lemma_metric_position(self@, name@);
        }
        if at < self.metrics.len() {
            Some((RawMetricId { index: at }, &self.metrics[at]))
        } else {
            None
        }
    }

    /// The metric with the identifier `id`.
    pub fn by_id(&self, id: &RawMetricId) -> (r: Option<&Metric>)
        ensures
            r is Some == (id.index < self@.len()),
            r matches Some(metric) ==> metric@ == self@[id.index as int],
    {
        if id.index < self.metrics.len() {
            Some(&self.metrics[id.index])
        } else {
            None
        }
    }

    /// Whether the registry knows the metric of `point` and the value of the
    /// point has the type of the metric.
    pub fn accepts(&self, point: &crate::measurement::MeasurementPoint) -> (ok: bool)
        ensures
            ok == (point.metric.index < self@.len() && self@[point.metric.index as int].value_type
                == point.value.spec_measurement_type()),
    {
        point.metric.index < self.metrics.len() && self.metrics[point.metric.index].value_type
            == point.value.measurement_type()
    }

    /// The identifier `id` with the type `T`, if `id` is the identifier of a
    /// metric whose values have that type.
    pub fn typed<T: MeasurementType>(&self, id: RawMetricId) -> (r: Option<TypedMetricId<T>>)
        ensures
            r is Some == (id.index < self@.len() && self@[id.index as int].value_type
                == T::spec_wrapped_type()),
            r matches Some(typed) ==> typed.raw == id,
    {
        if id.index < self.metrics.len() && self.metrics[id.index].value_type
            == T::wrapped_type() {
            Some(TypedMetricId { raw: id, value_type: PhantomData })
        } else {
            None
        }
    }

    /// Registers `metric`. A valid name that is free gets the next
    /// identifier. A name that is taken is an error under
    /// [`DuplicateStrategy::Error`]; under [`DuplicateStrategy::Replace`] the
    /// new definition takes the place and the identifier of the old one,
    /// unless the type of the values differs. On an error the registry stays
    /// as it is.
    pub fn register(&mut self, metric: Metric, strategy: DuplicateStrategy) -> (r: Result<
        RawMetricId,
        MetricCreationError,
    >)
        ensures
            r == registration_result(old(self)@, metric@, strategy),
            final(self)@ == registration_effect(old(self)@, metric@, strategy),
    {
        proof {
            use_type_invariant(&*self);
            lemma_registration_preserves(self@, metric@, strategy);
        }
        let ghost before = self@;
        if !is_valid_metric_name(metric.name.as_str()) {
            return Err(MetricCreationError::InvalidName);
        }
        let at = self.position(metric.name.as_str());
        if at == self.metrics.len() {
            let mut metrics = self.take_metrics();
            metrics.push(metric);
            assert(metrics_view(metrics@) =~= before.push(metric@));
            *self = MetricRegistry { metrics };
            return Ok(RawMetricId { index: at });
        }
        match strategy {
            DuplicateStrategy::Error => Err(MetricCreationError::Duplicate),
            DuplicateStrategy::Replace => {
                if self.metrics[at].value_type != metric.value_type {
                    Err(MetricCreationError::TypeMismatch)
                } else {
                    let mut metrics = self.take_metrics();
                    metrics[at] = metric;
                    assert(metrics_view(metrics@) =~= before.update(at as int, metric@));
                    *self = MetricRegistry { metrics };
                    Ok(RawMetricId { index: at })
                }
            },
        }
    }

    /// Creates the metric `name` with values of type `T`. The name must be
    /// valid and free. The identifier that comes back is that of a metric
    /// whose values have the type `T`.
    pub fn create_metric<T: MeasurementType>(
        &mut self,
        name: &str,
        unit: PrefixedUnit,
        description: &str,
    ) -> (r: Result<TypedMetricId<T>, MetricCreationError>)
        ensures
            !valid_metric_name(name@) ==> r == Err::<TypedMetricId<T>, MetricCreationError>(
                MetricCreationError::InvalidName,
            ),
            valid_metric_name(name@) && has_metric(old(self)@, name@) ==> r == Err::<
                TypedMetricId<T>,
                MetricCreationError,
            >(MetricCreationError::Duplicate),
            valid_metric_name(name@) && !has_metric(old(self)@, name@) ==> r is Ok,
            r is Err ==> final(self)@ == old(self)@,
            r matches Ok(id) ==> {
                &&& id.raw.index == old(self)@.len()
                &&& final(self)@ == old(self)@.push(
                    MetricView {
                        name: name@,
                        description: description@,
                        value_type: T::spec_wrapped_type(),
                        unit,
                    },
                )
                &&& final(self)@[id.raw.index as int].value_type == T::spec_wrapped_type()
            },
    {
        let metric = Metric {
            name: String::from_str(name),
            description: String::from_str(description),
            value_type: T::wrapped_type(),
            unit,
        };
        let count = self.metrics.len();
        proof {
            lemma_metric_position(self@, name@);
            assert(self@.len() == count);
        }
        assert(metric@ == (MetricView {
            name: name@,
            description: description@,
            value_type: T::spec_wrapped_type(),
            unit,
        }));
        match self.register(metric, DuplicateStrategy::Error) {
            Ok(raw) => Ok(TypedMetricId { raw, value_type: PhantomData }),
            Err(e) => Err(e),
        }
    }

    /// Creates the metrics `requests` one after the other, until one is
    /// refused: a name that is taken is an error. The metrics that were
    /// created before the refusal stay. On success the identifiers of the
    /// metrics come back, in the order of the requests.
    pub fn create_in_order(&mut self, requests: Vec<Metric>) -> (r: Result<
        Vec<RawMetricId>,
        MetricCreationError,
    >)
        ensures
            ({
                let wanted = metrics_view(requests@);
                let created = created_before_refusal(old(self)@, wanted);
                &&& 0 <= created <= wanted.len()
                &&& final(self)@ == old(self)@ + wanted.take(created)
                &&& r is Ok == (created == wanted.len())
                &&& r matches Ok(ids) ==> ids@.len() == wanted.len() && forall|k: int|
                    0 <= k < ids@.len() ==> (#[trigger] ids@[k]).index == old(self)@.len() + k
                &&& r matches Err(e) ==> Err::<RawMetricId, MetricCreationError>(e)
                    == registration_result(
                    old(self)@ + wanted.take(created),
                    wanted[created],
                    DuplicateStrategy::Error,
                )
            }),
    {
        let ghost wanted = metrics_view(requests@);
        let ghost before = self@;
        let mut ids: Vec<RawMetricId> = Vec::new();
        let mut i: usize = 0;
        let count = self.metrics.len();
        assert(wanted.take(0) =~= Seq::empty());
        assert(before + wanted.take(0) =~= before);
        assert(wanted.skip(0) =~= wanted);
        while i < requests.len()
            invariant
                i <= requests@.len(),
                wanted == metrics_view(requests@),
                before == old(self)@,
                before.len() == count,
                self@ == before + wanted.take(i as int),
                ids@.len() == i,
                forall|k: int| 0 <= k < i ==> (#[trigger] ids@[k]).index == before.len() + k,
                created_before_refusal(before, wanted) == i + created_before_refusal(
                    self@,
                    wanted.skip(i as int),
                ),
            decreases requests@.len() - i,
        {
            let ghost current = self@;
            let ghost rest = wanted.skip(i as int);
            let held = self.metrics.len();
            proof {
                assert(current.len() == held);
                assert(rest.len() > 0);
                assert(requests@[i as int]@ == wanted[i as int]);
                assert(rest[0] == wanted[i as int]);
                assert(rest.skip(1) =~= wanted.skip(i + 1));
                assert(wanted.take(i + 1) =~= wanted.take(i as int).push(wanted[i as int]));
                lemma_metric_position(current, wanted[i as int].name);
                assert(self@.len() == self.metrics@.len());
            }
            match self.register(requests[i].clone(), DuplicateStrategy::Error) {
                Ok(id) => {
                    assert(id.index == held);
                    assert(created_before_refusal(current, rest) == 1 + created_before_refusal(
                        current.push(rest[0]),
                        rest.skip(1),
                    ));
                    assert(self@ =~= before + wanted.take(i + 1));
                    ids.push(id);
                },
                Err(e) => {
                    assert(created_before_refusal(current, rest) == 0);
                    assert(self@ == current);
                    return Err(e);
                },
            }
            i += 1;
        }
        assert(wanted.skip(i as int) =~= Seq::empty());
        assert(wanted.take(i as int) =~= wanted);
        Ok(ids)
    }

    /// Registers the `metrics` one after the other and says what became of
    /// each.
    pub fn create_metrics(&mut self, metrics: Vec<Metric>, strategy: DuplicateStrategy) -> (r: Vec<
        Result<RawMetricId, MetricCreationError>,
    >)
        ensures
            final(self)@ == registered_after(old(self)@, metrics_view(metrics@), strategy),
            r@.len() == metrics@.len(),
            forall|k: int|
                0 <= k < metrics@.len() ==> #[trigger] r@[k] == registration_outcome(
                    old(self)@,
                    metrics_view(metrics@),
                    strategy,
                    k,
                ),
    {
        let ghost requests = metrics_view(metrics@);
        let mut out: Vec<Result<RawMetricId, MetricCreationError>> = Vec::new();
        let mut i: usize = 0;
        assert(requests.take(0) =~= Seq::empty());
        while i < metrics.len()
            invariant
                i <= metrics.len(),
                requests == metrics_view(metrics@),
                out@.len() == i,
                self@ == registered_after(old(self)@, requests.take(i as int), strategy),
                forall|k: int|
                    0 <= k < i ==> #[trigger] out@[k] == registration_outcome(
                        old(self)@,
                        requests,
                        strategy,
                        k,
                    ),
            decreases metrics.len() - i,
        {
            let result = self.register(metrics[i].clone(), strategy);
            proof {
                assert(requests.take(i + 1).drop_last() =~= requests.take(i as int));
                assert(requests.take(i + 1).last() == requests[i as int]);
            }
            out.push(result);
            i += 1;
        }
        assert(requests.take(i as int) =~= requests);
        out
    }
}

} // verus!
