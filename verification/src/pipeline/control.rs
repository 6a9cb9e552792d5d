//! The control plane: the messages that reconfigure a running pipeline, and
//! what each of them does to the registries.

use vstd::prelude::*;
use vstd::string::*;
use crate::metrics::MetricRegistry;
use crate::pipeline::elements::{
    OutputRegistry, Source, SourceClass, SourceRegistry, SourceSettings, TransformRegistry,
    TransformSettings,
};
use crate::measurement::MeasurementBuffer;
use crate::pipeline::elements::{Output, OutputContext, Transform, TransformContext};
use crate::pipeline::executor::{
    applied_transforms, enabled_transforms, poll_sources, removed_outputs,
    removed_sources, removed_transforms, run_transforms, write_outputs, ChainReport, PollRecord,
    PollReport, WriteRecord,
};
use crate::pipeline::groups::{members_of, positions_with};
use crate::pipeline::registry::{selected_ids, surviving};
use crate::time::Timestamp;
use crate::pipeline::registry::{
    has_entry, ids_at, lemma_selected_positions, selected_positions, ElementSelector, EntryView,
    RegistryError, SelectorView,
};
use crate::pipeline::trigger::TriggerSpec;
use crate::time::Duration;

verus! {

/// Why a source could not be added to a running pipeline.
#[derive(Clone, Copy, Debug, PartialEq, Eq, Structural)]
pub enum AddSourceError {
    /// The plugin has a source of that name already.
    Duplicate,
    /// The trigger has a period of zero.
    InvalidTrigger,
    /// The registry has given out all its numbers.
    Exhausted,
}

/// Whether a timer can be made for `trigger`.
pub open spec fn valid_trigger(trigger: TriggerSpec) -> bool {
    match trigger {
        TriggerSpec::Interval { period } => period.nanos > 0,
        TriggerSpec::Manual => true,
    }
}

/// Adds `source` to the registry for `plugin` under `name`. A source that
/// the plugin has registered under that name before is refused as a
/// duplicate, and so is a periodic trigger without a period; the registry
/// then stays as it is.
pub fn add_source<S>(
    sources: &mut SourceRegistry<S>,
    plugin: String,
    name: String,
    source: S,
    trigger: TriggerSpec,
    class: SourceClass,
) -> (r: Result<u64, AddSourceError>)
    ensures
        !valid_trigger(trigger) ==> r == Err::<u64, AddSourceError>(
            AddSourceError::InvalidTrigger,
        ),
        valid_trigger(trigger) && has_entry(old(sources)@, plugin@, name@) ==> r == Err::<
            u64,
            AddSourceError,
        >(AddSourceError::Duplicate),
        valid_trigger(trigger) && !has_entry(old(sources)@, plugin@, name@) && old(sources).spec_next_id() == u64::MAX ==> r == Err::<u64, AddSourceError>(
            AddSourceError::Exhausted,
        ),
        valid_trigger(trigger) && !has_entry(old(sources)@, plugin@, name@) && old(sources).spec_next_id() < u64::MAX ==> r == Ok::<u64, AddSourceError>(
            old(sources).spec_next_id(),
        ),
        r is Err ==> final(sources)@ == old(sources)@ && final(sources).spec_next_id() == old(sources).spec_next_id(),
        r matches Ok(id) ==> final(sources)@ == old(sources)@.push(
            EntryView {
                id,
                plugin: plugin@,
                name: name@,
                settings: SourceSettings { trigger, class },
            },
        ) && final(sources).spec_next_id() == id + 1,
{
    if !trigger.is_valid() {
        return Err(AddSourceError::InvalidTrigger);
    }
    match sources.add(plugin, name, SourceSettings { trigger, class }, source) {
        Ok(id) => Ok(id),
        Err(RegistryError::Duplicate) => Err(AddSourceError::Duplicate),
        Err(RegistryError::Exhausted) => Err(AddSourceError::Exhausted),
    }
}

/// Takes the source that `plugin` registered as `name` out of the registry.
/// Where there is none, nothing changes. Says whether there was one.
pub fn remove_source<S>(sources: &mut SourceRegistry<S>, plugin: &str, name: &str) -> (removed:
    bool)
    ensures
        removed == has_entry(old(sources)@, plugin@, name@),
        removed ==> final(sources)@ == old(sources)@.remove(
            crate::pipeline::registry::entry_position(old(sources)@, plugin@, name@),
        ),
        !removed ==> final(sources)@ == old(sources)@,
        final(sources).spec_next_id() == old(sources).spec_next_id(),
{
    sources.remove(plugin, name).is_some()
}

/// `entries` with the trigger of every source that `selector` chooses set
/// to `trigger`.
pub open spec fn with_trigger(
    entries: Seq<EntryView<SourceSettings>>,
    selector: SelectorView,
    trigger: TriggerSpec,
) -> Seq<EntryView<SourceSettings>> {
    entries.map_values(
        |e: EntryView<SourceSettings>|
            if selector.selects(e) {
                EntryView { settings: SourceSettings { trigger, class: e.settings.class }, ..e }
            } else {
                e
            },
    )
}

/// `entries` with every transform that `selector` chooses enabled or
/// disabled, as `enabled` says.
pub open spec fn with_enabled(
    entries: Seq<EntryView<TransformSettings>>,
    selector: SelectorView,
    enabled: bool,
) -> Seq<EntryView<TransformSettings>> {
    entries.map_values(
        |e: EntryView<TransformSettings>|
            if selector.selects(e) {
                EntryView { settings: TransformSettings { enabled }, ..e }
            } else {
                e
            },
    )
}

/// Gives every source that `selector` chooses the period `period`, and says
/// which sources these are. A period of zero is refused: nothing changes
/// and no source is named.
pub fn set_period<S>(sources: &mut SourceRegistry<S>, selector: &ElementSelector, period: Duration) -> (changed:
    Vec<u64>)
    ensures
        period.nanos == 0 ==> changed@.len() == 0 && final(sources)@ == old(sources)@,
        period.nanos > 0 ==> changed@ == ids_at(
            old(sources)@,
            selected_positions(old(sources)@, selector@, old(sources)@.len() as int),
        ) && final(sources)@ == with_trigger(
            old(sources)@,
            selector@,
            TriggerSpec::Interval { period },
        ),
        final(sources).spec_next_id() == old(sources).spec_next_id(),
{
    if period.nanos == 0 {
        return Vec::new();
    }
    let ghost before = sources@;
    let trigger = TriggerSpec::Interval { period };
    let positions = sources.select(selector);
    let count = sources.len();
    proof {
        lemma_selected_positions(before, selector@, count as int);
    }
    let changed = sources.ids_of(&positions);
    let mut k: usize = 0;
    while k < positions.len()
        invariant
            k <= positions@.len(),
            count == before.len(),
            sources@.len() == count,
            sources.spec_next_id() == old(sources).spec_next_id(),
            positions@ == selected_positions(before, selector@, count as int),
            forall|j: int| 0 <= j < positions@.len() ==> #[trigger] positions@[j] < count,
            forall|j: int, l: int| 0 <= j < l < positions@.len() ==> positions@[j] < positions@[l],
            forall|i: int|
                0 <= i < count ==> #[trigger] sources@[i] == if exists|j: int|
                    0 <= j < k && positions@[j] == i {
                    EntryView {
                        settings: SourceSettings { trigger, class: before[i].settings.class },
                        ..before[i]
                    }
                } else {
                    before[i]
                },
        decreases positions@.len() - k,
    {
        let at = positions[k];
        let ghost current = sources@;
        let class = sources.get(at).settings.class;
        assert(!exists|j: int| 0 <= j < k && positions@[j] == at) by {
            if exists|j: int| 0 <= j < k && positions@[j] == at {
                let j = choose|j: int| 0 <= j < k && positions@[j] == at;
                assert(positions@[j] < positions@[k as int]);
            }
        }
        sources.set_settings(at, SourceSettings { trigger, class });
        assert forall|i: int| 0 <= i < count implies #[trigger] sources@[i] == if exists|j: int|
            0 <= j < k + 1 && positions@[j] == i {
            EntryView {
                settings: SourceSettings { trigger, class: before[i].settings.class },
                ..before[i]
            }
        } else {
            before[i]
        } by {
            if i == at {
                assert(positions@[k as int] == i);
            } else {
                assert(sources@[i] == current[i]);
                if exists|j: int| 0 <= j < k + 1 && positions@[j] == i {
                    let j = choose|j: int| 0 <= j < k + 1 && positions@[j] == i;
                    assert(j < k);
                }
            }
        }
        k += 1;
    }
    proof {
        let target = with_trigger(before, selector@, trigger);
        assert forall|i: int| 0 <= i < count implies sources@[i] == target[i] by {
            if selector@.selects(before[i]) {
                let j = choose|j: int| 0 <= j < positions@.len() && #[trigger] positions@[j] == i;
                assert(positions@[j] == i);
            } else {
                if exists|j: int| 0 <= j < k && positions@[j] == i {
                    let j = choose|j: int| 0 <= j < k && positions@[j] == i;
                    assert(selector@.selects(before[positions@[j] as int]));
                }
            }
        }
        assert(sources@ =~= target);
    }
    changed
}

/// Enables or disables every transform that `selector` chooses, and says
/// which transforms these are.
pub fn set_enabled<T>(
    transforms: &mut TransformRegistry<T>,
    selector: &ElementSelector,
    enabled: bool,
) -> (changed: Vec<u64>)
    ensures
        changed@ == ids_at(
            old(transforms)@,
            selected_positions(old(transforms)@, selector@, old(transforms)@.len() as int),
        ),
        final(transforms)@ == with_enabled(old(transforms)@, selector@, enabled),
        final(transforms).spec_next_id() == old(transforms).spec_next_id(),
{
    let ghost before = transforms@;
    let positions = transforms.select(selector);
    let count = transforms.len();
    proof {
        lemma_selected_positions(before, selector@, count as int);
    }
    let changed = transforms.ids_of(&positions);
    let mut k: usize = 0;
    while k < positions.len()
        invariant
            k <= positions@.len(),
            count == before.len(),
            transforms@.len() == count,
            transforms.spec_next_id() == old(transforms).spec_next_id(),
            positions@ == selected_positions(before, selector@, count as int),
            forall|j: int| 0 <= j < positions@.len() ==> #[trigger] positions@[j] < count,
            forall|j: int, l: int| 0 <= j < l < positions@.len() ==> positions@[j] < positions@[l],
            forall|i: int|
                0 <= i < count ==> #[trigger] transforms@[i] == if exists|j: int|
                    0 <= j < k && positions@[j] == i {
                    EntryView { settings: TransformSettings { enabled }, ..before[i] }
                } else {
                    before[i]
                },
        decreases positions@.len() - k,
    {
        let at = positions[k];
        let ghost current = transforms@;
        assert(!exists|j: int| 0 <= j < k && positions@[j] == at) by {
            if exists|j: int| 0 <= j < k && positions@[j] == at {
                let j = choose|j: int| 0 <= j < k && positions@[j] == at;
                assert(positions@[j] < positions@[k as int]);
            }
        }
        transforms.set_settings(at, TransformSettings { enabled });
        assert forall|i: int| 0 <= i < count implies #[trigger] transforms@[i] == if exists|j: int|
            0 <= j < k + 1 && positions@[j] == i {
            EntryView { settings: TransformSettings { enabled }, ..before[i] }
        } else {
            before[i]
        } by {
            if i == at {
                assert(positions@[k as int] == i);
            } else {
                assert(transforms@[i] == current[i]);
                if exists|j: int| 0 <= j < k + 1 && positions@[j] == i {
                    let j = choose|j: int| 0 <= j < k + 1 && positions@[j] == i;
                    assert(j < k);
                }
            }
        }
        k += 1;
    }
    proof {
        let target = with_enabled(before, selector@, enabled);
        assert forall|i: int| 0 <= i < count implies transforms@[i] == target[i] by {
            if selector@.selects(before[i]) {
                let j = choose|j: int| 0 <= j < positions@.len() && #[trigger] positions@[j] == i;
                assert(positions@[j] == i);
            } else {
                if exists|j: int| 0 <= j < k && positions@[j] == i {
                    let j = choose|j: int| 0 <= j < k && positions@[j] == i;
                    assert(selector@.selects(before[positions@[j] as int]));
                }
            }
        }
        assert(transforms@ =~= target);
    }
    changed
}

/// Time that a pipeline gives its outputs to flush after a shutdown was
/// asked for, in nanoseconds: ten seconds.
pub const SHUTDOWN_GRACE_NANOS: u64 = 10_000_000_000;

/// A message to the sources of a pipeline.
#[derive(Debug)]
pub enum SourceControl<S> {
    /// Polls the chosen sources once, now.
    TriggerManually { selector: ElementSelector },
    /// Removes the chosen sources.
    Stop { selector: ElementSelector },
    /// Adds a source.
    Add { plugin: String, name: String, source: S, trigger: TriggerSpec, class: SourceClass },
    /// Gives the chosen sources a new period.
    SetPeriod { selector: ElementSelector, period: Duration },
}

/// A message to the transforms of a pipeline.
#[derive(Debug)]
pub enum TransformControl {
    Enable { selector: ElementSelector },
    Disable { selector: ElementSelector },
}

/// A message to the outputs of a pipeline.
#[derive(Debug)]
pub enum OutputControl {
    /// Asks the chosen outputs to write out what they hold back.
    Flush { selector: ElementSelector },
}

/// A message that reconfigures a running pipeline.
#[derive(Debug)]
pub enum ControlMessage<S> {
    Source(SourceControl<S>),
    Transform(TransformControl),
    Output(OutputControl),
    /// Ends the pipeline.
    Shutdown,
}

/// Where a pipeline stands between its start and its end.
#[derive(Clone, Copy, Debug, PartialEq, Eq, Structural)]
pub enum PipelineState {
    /// Sources are polled and messages are applied.
    Running,
    /// A shutdown was asked for: no poll starts any more, and what is on
    /// its way has until `deadline` to reach the outputs.
    Stopping { deadline: Timestamp },
}

/// What a control message did.
#[derive(Debug)]
pub enum ControlOutcome {
    /// The chosen sources were polled; the report says what they answered.
    Triggered(PollReport),
    /// The sources with these numbers were removed.
    SourcesStopped(Vec<u64>),
    /// A source was added under this number, or refused.
    SourceAdded(Result<u64, AddSourceError>),
    /// The sources with these numbers have a new period.
    PeriodSet(Vec<u64>),
    /// The transforms with these numbers were enabled or disabled.
    TransformsSet(Vec<u64>),
    /// The outputs with these numbers are to be flushed.
    Flush(Vec<u64>),
    /// The pipeline stops; outputs have until `deadline` to flush.
    ShuttingDown { deadline: Timestamp },
    /// The pipeline is stopping and did not apply the message.
    Ignored,
}

/// The registries of a pipeline and its state.
pub struct MeasurementPipeline<S, T, O> {
    pub sources: SourceRegistry<S>,
    pub transforms: TransformRegistry<T>,
    pub outputs: OutputRegistry<O>,
    pub metrics: MetricRegistry,
    pub state: PipelineState,
    /// Whether the priority scheduler could not be had, so that the sources
    /// that asked for it run on the normal one.
    pub priority_degraded: bool,
}

/// The time until which a pipeline that is asked to stop at `now` lets its
/// outputs flush: ten seconds later, or the last time that can be held.
pub fn shutdown_deadline(now: Timestamp) -> (deadline: Timestamp)
    ensures
        deadline.nanos == if now.nanos + SHUTDOWN_GRACE_NANOS <= u64::MAX {
            (now.nanos + SHUTDOWN_GRACE_NANOS) as u64
        } else {
            u64::MAX
        },
{
    match now.nanos.checked_add(SHUTDOWN_GRACE_NANOS) {
        Some(nanos) => Timestamp { nanos },
        None => Timestamp { nanos: u64::MAX },
    }
}

impl<S: Source, T, O> MeasurementPipeline<S, T, O> {
    /// A running pipeline without elements or metrics.
    pub fn new() -> (p: Self)
        ensures
            p.sources@.len() == 0,
            p.transforms@.len() == 0,
            p.outputs@.len() == 0,
            p.metrics@.len() == 0,
            p.state == PipelineState::Running,
            !p.priority_degraded,
    {
        MeasurementPipeline {
            sources: SourceRegistry::new(),
            transforms: TransformRegistry::new(),
            outputs: OutputRegistry::new(),
            metrics: MetricRegistry::new(),
            state: PipelineState::Running,
            priority_degraded: false,
        }
    }

    /// Polls once every source that `selector` chooses, and no other, with
    /// `now` as the logical time. The timers of the sources are not touched.
    pub fn trigger_manually(&mut self, selector: &ElementSelector, now: Timestamp) -> (report:
        PollReport)
        ensures
            ({
                let chosen = selected_positions(
                    old(self).sources@,
                    selector@,
                    old(self).sources@.len() as int,
                );
                &&& report.records@.len() == chosen.len()
                &&& forall|k: int|
                    0 <= k < chosen.len() ==> (#[trigger] report.records@[k]).id == old(self).sources@[chosen[k] as int].id && report.records@[k].timestamp == now
            }),
            final(self).sources@ == surviving(
                old(self).sources@,
                removed_sources(report.records@),
            ),
            final(self).sources.spec_next_id() == old(self).sources.spec_next_id(),
            final(self).transforms == old(self).transforms,
            final(self).outputs == old(self).outputs,
            final(self).metrics == old(self).metrics,
            final(self).state == old(self).state,
            final(self).priority_degraded == old(self).priority_degraded,
    {
        let positions = self.sources.select(selector);
        let count = self.sources.len();
        proof {
            lemma_selected_positions(self.sources@, selector@, count as int);
        }
        poll_sources(&mut self.sources, &positions, now, self.priority_degraded)
    }

    /// Applies `message` at the time `now`. A pipeline that is stopping
    /// applies nothing.
    pub fn apply(&mut self, message: ControlMessage<S>, now: Timestamp) -> (outcome:
        ControlOutcome)
        ensures
            final(self).metrics == old(self).metrics,
            final(self).priority_degraded == old(self).priority_degraded,
            old(self).state is Stopping ==> outcome is Ignored && *final(self) == *old(self),
            old(self).state is Running ==> match message {
                ControlMessage::Source(SourceControl::TriggerManually { selector }) => {
                    let chosen = selected_positions(
                        old(self).sources@,
                        selector@,
                        old(self).sources@.len() as int,
                    );
                    &&& outcome matches ControlOutcome::Triggered(report)
                    &&& report.records@.len() == chosen.len()
                    &&& forall|k: int|
                        0 <= k < chosen.len() ==> (#[trigger] report.records@[k]).id == old(self).sources@[chosen[k] as int].id && report.records@[k].timestamp == now
                    &&& final(self).sources@ == surviving(
                        old(self).sources@,
                        removed_sources(report.records@),
                    )
                    &&& final(self).transforms == old(self).transforms
                    &&& final(self).outputs == old(self).outputs
                    &&& final(self).state == old(self).state
                },
                ControlMessage::Source(SourceControl::Stop { selector }) => {
                    &&& outcome matches ControlOutcome::SourcesStopped(ids)
                    &&& ids@ == ids_at(
                        old(self).sources@,
                        selected_positions(
                            old(self).sources@,
                            selector@,
                            old(self).sources@.len() as int,
                        ),
                    )
                    &&& final(self).sources@ == surviving(
                        old(self).sources@,
                        selected_ids(old(self).sources@, selector@),
                    )
                    &&& final(self).transforms == old(self).transforms
                    &&& final(self).outputs == old(self).outputs
                    &&& final(self).state == old(self).state
                },
                ControlMessage::Source(SourceControl::Add { plugin, name, source, trigger, class }) => {
                    &&& outcome matches ControlOutcome::SourceAdded(r)
                    &&& r == if !valid_trigger(trigger) {
                        Err::<u64, AddSourceError>(AddSourceError::InvalidTrigger)
                    } else if has_entry(old(self).sources@, plugin@, name@) {
                        Err(AddSourceError::Duplicate)
                    } else if old(self).sources.spec_next_id() == u64::MAX {
                        Err(AddSourceError::Exhausted)
                    } else {
                        Ok(old(self).sources.spec_next_id())
                    }
                    &&& r is Err ==> final(self).sources@ == old(self).sources@
                    &&& r matches Ok(id) ==> final(self).sources@ == old(self).sources@.push(
                        EntryView {
                            id,
                            plugin: plugin@,
                            name: name@,
                            settings: SourceSettings { trigger, class },
                        },
                    )
                    &&& final(self).transforms == old(self).transforms
                    &&& final(self).outputs == old(self).outputs
                    &&& final(self).state == old(self).state
                },
                ControlMessage::Source(SourceControl::SetPeriod { selector, period }) => {
                    &&& outcome matches ControlOutcome::PeriodSet(ids)
                    &&& period.nanos == 0 ==> ids@.len() == 0 && final(self).sources@ == old(self).sources@
                    &&& period.nanos > 0 ==> ids@ == ids_at(
                        old(self).sources@,
                        selected_positions(
                            old(self).sources@,
                            selector@,
                            old(self).sources@.len() as int,
                        ),
                    ) && final(self).sources@ == with_trigger(
                        old(self).sources@,
                        selector@,
                        TriggerSpec::Interval { period },
                    )
                    &&& final(self).transforms == old(self).transforms
                    &&& final(self).outputs == old(self).outputs
                    &&& final(self).state == old(self).state
                },
                ControlMessage::Transform(TransformControl::Enable { selector }) => {
                    &&& outcome matches ControlOutcome::TransformsSet(ids)
                    &&& ids@ == ids_at(
                        old(self).transforms@,
                        selected_positions(
                            old(self).transforms@,
                            selector@,
                            old(self).transforms@.len() as int,
                        ),
                    )
                    &&& final(self).transforms@ == with_enabled(
                        old(self).transforms@,
                        selector@,
                        true,
                    )
                    &&& final(self).sources == old(self).sources
                    &&& final(self).outputs == old(self).outputs
                    &&& final(self).state == old(self).state
                },
                ControlMessage::Transform(TransformControl::Disable { selector }) => {
                    &&& outcome matches ControlOutcome::TransformsSet(ids)
                    &&& ids@ == ids_at(
                        old(self).transforms@,
                        selected_positions(
                            old(self).transforms@,
                            selector@,
                            old(self).transforms@.len() as int,
                        ),
                    )
                    &&& final(self).transforms@ == with_enabled(
                        old(self).transforms@,
                        selector@,
                        false,
                    )
                    &&& final(self).sources == old(self).sources
                    &&& final(self).outputs == old(self).outputs
                    &&& final(self).state == old(self).state
                },
                ControlMessage::Output(OutputControl::Flush { selector }) => {
                    &&& outcome matches ControlOutcome::Flush(ids)
                    &&& ids@ == ids_at(
                        old(self).outputs@,
                        selected_positions(
                            old(self).outputs@,
                            selector@,
                            old(self).outputs@.len() as int,
                        ),
                    )
                    &&& *final(self) == *old(self)
                },
                ControlMessage::Shutdown => {
                    &&& outcome == (ControlOutcome::ShuttingDown {
                        deadline: Timestamp {
                            nanos: if now.nanos + SHUTDOWN_GRACE_NANOS <= u64::MAX {
                                (now.nanos + SHUTDOWN_GRACE_NANOS) as u64
                            } else {
                                u64::MAX
                            },
                        },
                    })
                    &&& outcome matches ControlOutcome::ShuttingDown { deadline } && final(self).state == (PipelineState::Stopping { deadline })
                    &&& final(self).sources == old(self).sources
                    &&& final(self).transforms == old(self).transforms
                    &&& final(self).outputs == old(self).outputs
                },
            },
    {
        match self.state {
            PipelineState::Stopping { .. } => {
                return ControlOutcome::Ignored;
            },
            PipelineState::Running => {},
        }
        match message {
            ControlMessage::Source(SourceControl::TriggerManually { selector }) => {
                ControlOutcome::Triggered(self.trigger_manually(&selector, now))
            },
            ControlMessage::Source(SourceControl::Stop { selector }) => {
                ControlOutcome::SourcesStopped(self.sources.remove_selected(&selector))
            },
            ControlMessage::Source(SourceControl::Add { plugin, name, source, trigger, class }) => {
                ControlOutcome::SourceAdded(
                    add_source(&mut self.sources, plugin, name, source, trigger, class),
                )
            },
            ControlMessage::Source(SourceControl::SetPeriod { selector, period }) => {
                ControlOutcome::PeriodSet(set_period(&mut self.sources, &selector, period))
            },
            ControlMessage::Transform(TransformControl::Enable { selector }) => {
                ControlOutcome::TransformsSet(set_enabled(&mut self.transforms, &selector, true))
            },
            ControlMessage::Transform(TransformControl::Disable { selector }) => {
                ControlOutcome::TransformsSet(set_enabled(&mut self.transforms, &selector, false))
            },
            ControlMessage::Output(OutputControl::Flush { selector }) => {
                let positions = self.outputs.select(&selector);
                let count = self.outputs.len();
                proof {
                    lemma_selected_positions(self.outputs@, selector@, count as int);
                }
                ControlOutcome::Flush(self.outputs.ids_of(&positions))
            },
            ControlMessage::Shutdown => {
                let deadline = shutdown_deadline(now);
                self.state = PipelineState::Stopping { deadline };
                ControlOutcome::ShuttingDown { deadline }
            },
        }
    }
}

/// What became of a buffer on its way to the outputs.
#[derive(Debug)]
pub struct DeliveryReport {
    /// What became of the buffer on its way through the transforms.
    pub chain: ChainReport,
    /// What the outputs answered, in the order of the writes; empty if the
    /// buffer was not delivered.
    pub writes: Vec<WriteRecord>,
}

/// What one tick of a group of sources came to.
#[derive(Debug)]
pub struct TickReport {
    /// What the sources answered, in the order of the polls. The records
    /// come without the points, which went on together as one buffer.
    pub polls: Vec<PollRecord>,
    /// What became of the buffer on its way through the transforms.
    pub chain: ChainReport,
    /// What the outputs answered, in the order of the writes; empty if the
    /// buffer was not delivered.
    pub writes: Vec<WriteRecord>,
}

/// The records of `records` without their points, and the points together
/// in one buffer.
fn split_points(records: Vec<PollRecord>) -> (r: (Vec<PollRecord>, MeasurementBuffer))
    ensures
        r.0@.len() == records@.len(),
        forall|j: int|
            0 <= j < records@.len() ==> (#[trigger] r.0@[j]).id == records@[j].id
                && r.0@[j].timestamp == records@[j].timestamp && r.0@[j].result
                == records@[j].result,
        removed_sources(r.0@) == removed_sources(records@),
{
    let mut buffer = MeasurementBuffer::new();
    let mut kept: Vec<PollRecord> = Vec::new();
    let ghost all = records@;
    for record in it: records
        invariant
            it.seq() == all,
            kept@.len() == it.index(),
            forall|j: int|
                0 <= j < kept@.len() ==> (#[trigger] kept@[j]).id == all[j].id && kept@[j].timestamp
                    == all[j].timestamp && kept@[j].result == all[j].result,
    {
        let PollRecord { id, timestamp: at, result, points } = record;
        buffer.merge(points);
        kept.push(PollRecord { id, timestamp: at, result, points: MeasurementBuffer::new() });
    }
    assert(removed_sources(kept@) =~= removed_sources(all)) by {
        assert forall|id: u64| removed_sources(kept@).contains(id) == removed_sources(
            all,
        ).contains(id) by {
            if removed_sources(kept@).contains(id) {
                let j = choose|j: int|
                    0 <= j < kept@.len() && (#[trigger] kept@[j]).id == id && kept@[j].removed();
                assert(all[j].id == id && all[j].removed());
            }
            if removed_sources(all).contains(id) {
                let j = choose|j: int|
                    0 <= j < all.len() && (#[trigger] all[j]).id == id && all[j].removed();
                assert(kept@[j].id == id && kept@[j].removed());
            }
        }
    }
    (kept, buffer)
}

impl<S: Source, T: Transform, O: Output> MeasurementPipeline<S, T, O> {
    /// Polls the group of sources whose settings are `key`: the sources of
    /// the group, and no other, are polled once with the logical time
    /// `timestamp`. A pipeline that is stopping starts no poll.
    pub fn poll_group(&mut self, key: SourceSettings, timestamp: Timestamp) -> (r: Option<
        PollReport,
    >)
        ensures
            r is Some == old(self).state is Running,
            r is None ==> *final(self) == *old(self),
            final(self).transforms == old(self).transforms,
            final(self).outputs == old(self).outputs,
            final(self).metrics == old(self).metrics,
            final(self).state == old(self).state,
            final(self).priority_degraded == old(self).priority_degraded,
            r matches Some(report) ==> {
                let members = positions_with(
                    old(self).sources@,
                    key,
                    old(self).sources@.len() as int,
                );
                &&& report.records@.len() == members.len()
                &&& forall|k: int|
                    0 <= k < members.len() ==> (#[trigger] report.records@[k]).id == old(self).sources@[members[k] as int].id && report.records@[k].timestamp == timestamp
                &&& final(self).sources@ == surviving(
                    old(self).sources@,
                    removed_sources(report.records@),
                )
            },
    {
        match self.state {
            PipelineState::Stopping { .. } => {
                return None;
            },
            PipelineState::Running => {},
        }
        let members = members_of(&self.sources, key);
        Some(poll_sources(&mut self.sources, &members, timestamp, self.priority_degraded))
    }

    /// Passes `buffer` through the transforms and, unless a transform
    /// refused it, writes it to every output. This is done for a pipeline
    /// that is stopping too, so that what was measured before the shutdown
    /// still reaches the outputs.
    pub fn deliver(&mut self, buffer: MeasurementBuffer) -> (report: DeliveryReport)
        ensures
            final(self).sources == old(self).sources,
            final(self).metrics == old(self).metrics,
            final(self).state == old(self).state,
            final(self).priority_degraded == old(self).priority_degraded,
            report.chain.examined <= old(self).transforms@.len(),
            applied_transforms(report.chain.records@) == enabled_transforms(
                old(self).transforms@.take(report.chain.examined as int),
            ),
            report.chain.delivered ==> report.chain.examined == old(self).transforms@.len(),
            report.chain.delivered == (report.chain.records@.len() == 0
                || !report.chain.records@.last().refused()),
            final(self).transforms@ == surviving(
                old(self).transforms@,
                removed_transforms(report.chain.records@),
            ),
            report.chain.delivered ==> report.writes@.len() == old(self).outputs@.len() && final(self).outputs@ == surviving(old(self).outputs@, removed_outputs(report.writes@))
                && forall|k: int|
                0 <= k < report.writes@.len() ==> (#[trigger] report.writes@[k]).id == old(self).outputs@[k].id,
            !report.chain.delivered ==> report.writes@.len() == 0 && final(self).outputs == old(self).outputs,
    {
        let mut buffer = buffer;
        let chain = {
            let ctx = TransformContext { metrics: &self.metrics };
            run_transforms(&mut self.transforms, &mut buffer, &ctx)
        };
        let writes = if chain.delivered {
            let ctx = OutputContext { metrics: &self.metrics };
            write_outputs(&mut self.outputs, &buffer, &ctx)
        } else {
            Vec::new()
        };
        DeliveryReport { chain, writes }
    }

    /// Runs one tick: polls the sources at `positions` with the logical
    /// time `timestamp`, passes their points through the transforms as one
    /// buffer, and writes the buffer to every output, unless a transform
    /// refused it. A pipeline that is stopping starts no poll: there is no
    /// tick, and nothing changes.
    pub fn tick(&mut self, positions: &Vec<usize>, timestamp: Timestamp) -> (r: Option<TickReport>)
        requires
            forall|k: int|
                0 <= k < positions@.len() ==> #[trigger] positions@[k] < old(self).sources@.len(),
            forall|k: int, l: int| 0 <= k < l < positions@.len() ==> positions@[k] < positions@[l],
        ensures
            r is Some == old(self).state is Running,
            r is None ==> *final(self) == *old(self),
            final(self).metrics == old(self).metrics,
            final(self).state == old(self).state,
            final(self).priority_degraded == old(self).priority_degraded,
            r matches Some(report) ==> {
                &&& report.polls@.len() == positions@.len()
                &&& forall|k: int|
                    0 <= k < positions@.len() ==> (#[trigger] report.polls@[k]).id == old(self).sources@[positions@[k] as int].id && report.polls@[k].timestamp == timestamp
                &&& final(self).sources@ == surviving(
                    old(self).sources@,
                    removed_sources(report.polls@),
                )
                &&& report.chain.examined <= old(self).transforms@.len()
                &&& applied_transforms(report.chain.records@) == enabled_transforms(
                    old(self).transforms@.take(report.chain.examined as int),
                )
                &&& report.chain.delivered ==> report.chain.examined == old(self).transforms@.len()
                &&& final(self).transforms@ == surviving(
                    old(self).transforms@,
                    removed_transforms(report.chain.records@),
                )
                &&& report.chain.delivered ==> report.writes@.len() == old(self).outputs@.len()
                    && final(self).outputs@ == surviving(
                    old(self).outputs@,
                    removed_outputs(report.writes@),
                ) && forall|k: int|
                    0 <= k < report.writes@.len() ==> (#[trigger] report.writes@[k]).id == old(self).outputs@[k].id
                &&& !report.chain.delivered ==> report.writes@.len() == 0 && final(self).outputs
                    == old(self).outputs
            },
    {
        match self.state {
            PipelineState::Stopping { .. } => {
                return None;
            },
            PipelineState::Running => {},
        }
        let polled = poll_sources(&mut self.sources, positions, timestamp, self.priority_degraded);
        let (polls, buffer) = split_points(polled.records);
        let delivery = self.deliver(buffer);
        Some(TickReport { polls, chain: delivery.chain, writes: delivery.writes })
    }

    /// Runs one tick of the group of sources whose settings are `key`: the
    /// sources of the group, and no other, are polled once with the logical
    /// time `timestamp`, and what they measured goes through the transforms
    /// to the outputs. A pipeline that is stopping starts no poll.
    pub fn tick_group(&mut self, key: SourceSettings, timestamp: Timestamp) -> (r: Option<
        TickReport,
    >)
        ensures
            r is Some == old(self).state is Running,
            r is None ==> *final(self) == *old(self),
            final(self).metrics == old(self).metrics,
            final(self).state == old(self).state,
            final(self).priority_degraded == old(self).priority_degraded,
            r matches Some(report) ==> {
                let members = positions_with(
                    old(self).sources@,
                    key,
                    old(self).sources@.len() as int,
                );
                &&& report.polls@.len() == members.len()
                &&& forall|k: int|
                    0 <= k < members.len() ==> (#[trigger] report.polls@[k]).id == old(self).sources@[members[k] as int].id && report.polls@[k].timestamp == timestamp
                &&& final(self).sources@ == surviving(
                    old(self).sources@,
                    removed_sources(report.polls@),
                )
                &&& final(self).transforms@ == surviving(
                    old(self).transforms@,
                    removed_transforms(report.chain.records@),
                )
                &&& report.chain.delivered ==> final(self).outputs@ == surviving(
                    old(self).outputs@,
                    removed_outputs(report.writes@),
                )
                &&& !report.chain.delivered ==> final(self).outputs == old(self).outputs
            },
    {
        let members = members_of(&self.sources, key);
        self.tick(&members, timestamp)
    }
}

} // verus!
