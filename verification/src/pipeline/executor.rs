//! Running the elements of the pipeline: polling sources, passing a buffer
//! through the transforms, and writing it to the outputs. Each step reports
//! what every element answered, and removes the elements that failed for good.

use vstd::prelude::*;
use vstd::string::*;
use crate::measurement::{
    attribute_lookup, lemma_lookup_after_set, AttributeValue, AttributeValueView,
    MeasurementAccumulator, MeasurementBuffer, MeasurementPointView,
};
use crate::pipeline::elements::{
    Output, OutputContext, OutputRegistry, Source, SourceClass, SourceRegistry, Transform,
    TransformContext, TransformRegistry,
};
use crate::pipeline::error::{PollError, TransformError, WriteError};
use crate::pipeline::registry::{
    entries_view, ids_fresh, lemma_surviving, names_distinct, retain_unflagged, surviving,
    EntryView,
};
use crate::time::Timestamp;

verus! {

/// The answer of one source to one poll.
#[derive(Debug)]
pub struct PollRecord {
    /// Number of the source.
    pub id: u64,
    /// Logical time that the source was polled with.
    pub timestamp: Timestamp,
    /// What the source answered.
    pub result: Result<(), PollError>,
    /// The points that the source measured during the poll.
    pub points: MeasurementBuffer,
}

impl PollRecord {
    /// Whether the source failed for good and leaves the pipeline.
    pub open spec fn removed(&self) -> bool {
        self.result matches Err(PollError::Fatal(_))
    }
}

/// The numbers of the sources that failed for good, by `records`.
pub open spec fn removed_sources(records: Seq<PollRecord>) -> Set<u64> {
    Set::new(
        |id: u64| exists|k: int| 0 <= k < records.len() && (#[trigger] records[k]).id == id
            && records[k].removed(),
    )
}

/// What a round of polls gave.
#[derive(Debug)]
pub struct PollReport {
    /// One record for each poll, in the order of the polls.
    pub records: Vec<PollRecord>,
}

/// The points of `records`, one record after the other.
pub open spec fn collected_points(records: Seq<PollRecord>) -> Seq<MeasurementPointView>
    decreases records.len(),
{
    if records.len() == 0 {
        Seq::empty()
    } else {
        collected_points(records.drop_last()) + records.last().points@
    }
}

impl PollReport {
    /// All the points of the round in one buffer, in the order of the polls.
    pub fn into_buffer(self) -> (buffer: MeasurementBuffer)
        ensures
            buffer@ == collected_points(self.records@),
    {
        let mut buffer = MeasurementBuffer::new();
        let ghost all = self.records@;
        assert(all.take(0) =~= Seq::empty());
        for record in it: self.records
            invariant
                it.seq() == all,
                buffer@ == collected_points(all.take(it.index() as int)),
        {
            let ghost i = it.index() as int;
            assert(all.take(i + 1).drop_last() =~= all.take(i));
            assert(all.take(i + 1).last() == all[i]);
            buffer.merge(record.points);
        }
        assert(all.take(all.len() as int) =~= all);
        buffer
    }
}

/// Whether a source stays in the pipeline after it answered `result`: it
/// does unless the error is fatal.
pub fn keeps_source(result: &Result<(), PollError>) -> (keep: bool)
    ensures
        keep == !(result matches Err(PollError::Fatal(_))),
{
    match result {
        Ok(_) => true,
        Err(PollError::CanRetry(_)) => true,
        Err(PollError::Fatal(_)) => false,
    }
}

/// The record of a poll that did not return in time and was cancelled: the
/// source may be polled again, and what it had measured so far is dropped.
pub fn cancelled_poll(id: u64, timestamp: Timestamp) -> (record: PollRecord)
    ensures
        record.id == id,
        record.timestamp == timestamp,
        record.result matches Err(PollError::CanRetry(_)),
        !record.removed(),
        record.points@ == Seq::<MeasurementPointView>::empty(),
{
    PollRecord {
        id,
        timestamp,
        result: Err(PollError::CanRetry(String::from_str("the poll took too long"))),
        points: MeasurementBuffer::new(),
    }
}

/// Whether every point of `points` says that it was measured without the
/// priority that its source asked for.
pub open spec fn all_degraded(points: Seq<MeasurementPointView>) -> bool {
    forall|i: int|
        0 <= i < points.len() ==> attribute_lookup(
            (#[trigger] points[i]).attributes,
            "priority_degraded"@,
        ) == Some(AttributeValueView::Bool(true))
}

/// `points` with the attribute `priority_degraded` set to true on each.
pub open spec fn degraded(points: Seq<MeasurementPointView>) -> Seq<MeasurementPointView> {
    points.map_values(
        |p: MeasurementPointView| p.with_attr("priority_degraded"@, AttributeValueView::Bool(true)),
    )
}

/// Sets the attribute `priority_degraded` to true on every point of the
/// buffer: the points come from a source that asked for the priority
/// scheduler and was polled without it.
pub fn mark_degraded(buffer: &mut MeasurementBuffer)
    ensures
        final(buffer)@ == degraded(old(buffer)@),
        all_degraded(final(buffer)@),
{
    let ghost before = buffer@;
    let mut i: usize = 0;
    while i < buffer.points.len()
        invariant
            i <= buffer.points.len(),
            buffer@.len() == before.len(),
            forall|j: int| 0 <= j < i ==> #[trigger] buffer@[j] == degraded(before)[j],
            forall|j: int| i <= j < before.len() ==> #[trigger] buffer@[j] == before[j],
        decreases buffer.points.len() - i,
    {
        let ghost point = buffer@[i as int];
        let ghost points = buffer.points@;
        let ghost views = buffer@;
        buffer.points[i].add_attr("priority_degraded", AttributeValue::Bool(true));
        assert forall|j: int| 0 <= j < before.len() && j != i implies #[trigger] buffer@[j]
            == views[j] by {
            assert(buffer.points@[j] == points[j]);
        }
        assert(buffer@[i as int] == point.with_attr(
            "priority_degraded"@,
            AttributeValueView::Bool(true),
        ));
        i += 1;
    }
    assert(buffer@ =~= degraded(before));
    assert forall|j: int| 0 <= j < buffer@.len() implies attribute_lookup(
        (#[trigger] buffer@[j]).attributes,
        "priority_degraded"@,
    ) == Some(AttributeValueView::Bool(true)) by {
        lemma_lookup_after_set(
            before[j].attributes,
            "priority_degraded"@,
            AttributeValueView::Bool(true),
            "priority_degraded"@,
        );
    }
}

/// Polls the sources at `positions`, one after the other, each once, with
/// the logical time `timestamp`. A source that answers with a fatal error
/// leaves the registry; every other source stays, also after an error that
/// allows a retry. Where `degraded` is set, the priority scheduler is not
/// there: the sources that asked for it are polled all the same, and every
/// point of theirs says so.
pub fn poll_sources<S: Source>(
    sources: &mut SourceRegistry<S>,
    positions: &Vec<usize>,
    timestamp: Timestamp,
    degraded: bool,
) -> (report: PollReport)
    requires
        forall|k: int| 0 <= k < positions@.len() ==> #[trigger] positions@[k] < old(sources)@.len(),
        forall|k: int, l: int| 0 <= k < l < positions@.len() ==> positions@[k] < positions@[l],
    ensures
        report.records@.len() == positions@.len(),
        forall|k: int|
            0 <= k < positions@.len() ==> (#[trigger] report.records@[k]).id == old(
                sources,
            )@[positions@[k] as int].id && report.records@[k].timestamp == timestamp,
        final(sources)@ == surviving(old(sources)@, removed_sources(report.records@)),
        final(sources).spec_next_id() == old(sources).spec_next_id(),
        forall|k: int|
            0 <= k < positions@.len() && degraded && old(
                sources,
            )@[positions@[k] as int].settings.class == SourceClass::Priority ==> all_degraded(
                (#[trigger] report.records@[k]).points@,
            ),
{
    let ghost view = sources@;
    let mut entries = sources.take_entries();
    let count = entries.len();
    let mut flags: Vec<bool> = Vec::new();
    let mut n: usize = 0;
    while n < count
        invariant
            n <= count,
            flags@.len() == n,
            forall|i: int| 0 <= i < n ==> !#[trigger] flags@[i],
        decreases count - n,
    {
        flags.push(false);
        n += 1;
    }
    let mut records: Vec<PollRecord> = Vec::new();
    let mut k: usize = 0;
    while k < positions.len()
        invariant
            k <= positions@.len(),
            records@.len() == k,
            flags@.len() == count,
            entries@.len() == count,
            view.len() == count,
            entries_view(entries@) == view,
            names_distinct(view),
            ids_fresh(view, sources.spec_next_id()),
            forall|j: int| 0 <= j < positions@.len() ==> #[trigger] positions@[j] < count,
            forall|j: int, l: int| 0 <= j < l < positions@.len() ==> positions@[j] < positions@[l],
            forall|j: int|
                0 <= j < k ==> (#[trigger] records@[j]).id == view[positions@[j] as int].id
                    && records@[j].timestamp == timestamp,
            forall|j: int|
                0 <= j < k && degraded && view[positions@[j] as int].settings.class
                    == SourceClass::Priority ==> all_degraded((#[trigger] records@[j]).points@),
            forall|i: int|
                0 <= i < count ==> (#[trigger] flags@[i] <==> exists|j: int|
                    0 <= j < k && positions@[j] == i && (#[trigger] records@[j]).removed()),
        decreases positions@.len() - k,
    {
        let at = positions[k];
        let id = entries[at].id;
        assert(entries@[at as int]@ == view[at as int]);
        let marked = degraded && entries[at].settings.class == SourceClass::Priority;
        let mut accumulator = MeasurementAccumulator::new();
        let result = entries[at].element.poll(&mut accumulator, timestamp);
        assert(entries_view(entries@) =~= view);
        let mut points = accumulator.into_buffer();
        if marked {
            mark_degraded(&mut points);
        }
        let keep = keeps_source(&result);
        let ghost old_flags = flags@;
        let ghost old_records = records@;
        if !keep {
            flags[at] = true;
        }
        records.push(PollRecord { id, timestamp, result, points });
        proof {
            assert forall|i: int| 0 <= i < count implies (#[trigger] flags@[i] <==> exists|j: int|
                0 <= j < k + 1 && positions@[j] == i && (#[trigger] records@[j]).removed()) by {
                if flags@[i] {
                    if i == at && !keep {
                        assert(positions@[k as int] == i && records@[k as int].removed());
                    } else {
                        assert(old_flags[i]);
                        let j = choose|j: int|
                            0 <= j < k && positions@[j] == i && (
                            #[trigger] old_records[j]).removed();
                        assert(records@[j] == old_records[j]);
                    }
                }
                if exists|j: int|
                    0 <= j < k + 1 && positions@[j] == i && (#[trigger] records@[j]).removed() {
                    let j = choose|j: int|
                        0 <= j < k + 1 && positions@[j] == i && (
                        #[trigger] records@[j]).removed();
                    if j < k {
                        assert(records@[j] == old_records[j]);
                        assert(old_flags[i]);
                    }
                }
            }
        }
        k += 1;
    }
    let ghost removed = removed_sources(records@);
    proof {
        assert forall|i: int| 0 <= i < count implies (#[trigger] flags@[i] <==> removed.contains(
            view[i].id,
        )) by {
            if flags@[i] {
                let j = choose|j: int|
                    0 <= j < k && positions@[j] == i && (#[trigger] records@[j]).removed();
                assert(records@[j].id == view[i].id);
            }
            if removed.contains(view[i].id) {
                let j = choose|j: int|
                    0 <= j < records@.len() && (#[trigger] records@[j]).id == view[i].id
                        && records@[j].removed();
                let p = positions@[j] as int;
                assert(view[p].id == view[i].id);
                if p != i {
                    if p < i {
                        assert(view[p].id != view[i].id);
                    } else {
                        assert(view[i].id != view[p].id);
                    }
                }
            }
        }
        assert forall|i: int| 0 <= i < entries@.len() implies (#[trigger] flags@[i]
            <==> removed.contains(entries@[i]@.id)) by {
            assert(entries@[i]@ == view[i]);
        }
    }
    let kept = retain_unflagged(entries, &flags, Ghost(removed));
    proof {
        lemma_surviving(view, removed, sources.spec_next_id());
    }
    sources.put_entries(kept);
    PollReport { records }
}

/// The answer of one transform to one buffer.
#[derive(Debug)]
pub struct TransformRecord {
    /// Number of the transform.
    pub id: u64,
    /// What the transform answered.
    pub result: Result<(), TransformError>,
}

impl TransformRecord {
    /// Whether the transform failed for good and leaves the pipeline.
    pub open spec fn removed(&self) -> bool {
        self.result matches Err(TransformError::Fatal(_))
    }

    /// Whether the transform refused the buffer, which is then dropped.
    pub open spec fn refused(&self) -> bool {
        self.result matches Err(TransformError::UnexpectedInput(_))
    }
}

/// The numbers of the transforms that failed for good, by `records`.
pub open spec fn removed_transforms(records: Seq<TransformRecord>) -> Set<u64> {
    Set::new(
        |id: u64| exists|k: int| 0 <= k < records.len() && (#[trigger] records[k]).id == id
            && records[k].removed(),
    )
}

/// The numbers of the transforms in `entries` that are enabled, in the order
/// of their registration.
pub open spec fn enabled_transforms(
    entries: Seq<EntryView<crate::pipeline::elements::TransformSettings>>,
) -> Seq<u64>
    decreases entries.len(),
{
    if entries.len() == 0 {
        Seq::empty()
    } else {
        let rest = enabled_transforms(entries.drop_last());
        if entries.last().settings.enabled {
            rest.push(entries.last().id)
        } else {
            rest
        }
    }
}

/// The numbers of the transforms that `records` speak of, in their order.
pub open spec fn applied_transforms(records: Seq<TransformRecord>) -> Seq<u64> {
    records.map_values(|r: TransformRecord| r.id)
}

/// What became of a buffer on its way through the transforms.
#[derive(Debug)]
pub struct ChainReport {
    /// One record for each transform that was applied, in the order in which
    /// they were applied.
    pub records: Vec<TransformRecord>,
    /// How many transforms of the registry were looked at, enabled or not,
    /// before the chain ended.
    pub examined: usize,
    /// Whether the buffer goes on to the outputs.
    pub delivered: bool,
}

/// What the chain does after a transform answered `result`.
#[derive(Clone, Copy, Debug, PartialEq, Eq, Structural)]
pub enum ChainStep {
    /// The buffer goes on to the next transform.
    Continue,
    /// The buffer goes on to the next transform, and the transform that
    /// failed leaves the pipeline.
    RemoveTransform,
    /// The buffer is dropped.
    DropBuffer,
}

/// What the chain does after a transform answered `result`: it goes on after
/// a success and after an error that lets it continue, drops the buffer
/// after an unexpected input, and removes the transform after a fatal error.
pub fn after_transform(result: &Result<(), TransformError>) -> (step: ChainStep)
    ensures
        step == match *result {
            Ok(_) => ChainStep::Continue,
            Err(TransformError::CanContinue(_)) => ChainStep::Continue,
            Err(TransformError::UnexpectedInput(_)) => ChainStep::DropBuffer,
            Err(TransformError::Fatal(_)) => ChainStep::RemoveTransform,
        },
{
    match result {
        Ok(_) => ChainStep::Continue,
        Err(TransformError::CanContinue(_)) => ChainStep::Continue,
        Err(TransformError::UnexpectedInput(_)) => ChainStep::DropBuffer,
        Err(TransformError::Fatal(_)) => ChainStep::RemoveTransform,
    }
}

/// Passes `buffer` through the enabled transforms, one at a time, in the
/// order of their registration. A transform that answers with a fatal error
/// leaves the registry, and the buffer goes on. A transform that refuses the
/// buffer ends the chain: the buffer is emptied and not delivered. A buffer
/// that is delivered has been through every enabled transform.
pub fn run_transforms<T: Transform>(
    transforms: &mut TransformRegistry<T>,
    buffer: &mut MeasurementBuffer,
    ctx: &TransformContext,
) -> (report: ChainReport)
    ensures
        report.examined <= old(transforms)@.len(),
        applied_transforms(report.records@) == enabled_transforms(
            old(transforms)@.take(report.examined as int),
        ),
        forall|k: int|
            0 <= k < report.records@.len() - 1 ==> !(#[trigger] report.records@[k]).refused(),
        report.delivered ==> report.examined == old(transforms)@.len(),
        report.delivered == (report.records@.len() == 0 || !report.records@.last().refused()),
        !report.delivered ==> final(buffer)@ == Seq::<MeasurementPointView>::empty(),
        final(transforms)@ == surviving(old(transforms)@, removed_transforms(report.records@)),
        final(transforms).spec_next_id() == old(transforms).spec_next_id(),
{
    let ghost view = transforms@;
    let mut entries = transforms.take_entries();
    let count = entries.len();
    let mut flags: Vec<bool> = Vec::new();
    let mut records: Vec<TransformRecord> = Vec::new();
    let mut delivered = true;
    let mut i: usize = 0;
    assert(view.take(0) =~= Seq::empty());
    while i < count && delivered
        invariant
            i <= count,
            flags@.len() == i,
            entries@.len() == count,
            view.len() == count,
            entries_view(entries@) == view,
            names_distinct(view),
            ids_fresh(view, transforms.spec_next_id()),
            applied_transforms(records@) == enabled_transforms(view.take(i as int)),
            forall|k: int| 0 <= k < records@.len() - 1 ==> !(#[trigger] records@[k]).refused(),
            delivered == (records@.len() == 0 || !records@.last().refused()),
            !delivered ==> buffer@ == Seq::<MeasurementPointView>::empty(),
            forall|p: int|
                0 <= p < i ==> (#[trigger] flags@[p] <==> exists|k: int|
                    0 <= k < records@.len() && (#[trigger] records@[k]).id == view[p].id
                        && records@[k].removed()),
            forall|k: int|
                0 <= k < records@.len() ==> exists|p: int|
                    0 <= p < i && view[p].id == (#[trigger] records@[k]).id,
        decreases count - i,
    {
        let ghost old_records = records@;
        let ghost old_flags = flags@;
        proof {
            assert(view.take(i + 1).drop_last() =~= view.take(i as int));
            assert(view.take(i + 1).last() == view[i as int]);
            assert(entries@[i as int]@ == view[i as int]);
        }
        let mut flag = false;
        if entries[i].settings.enabled {
            let id = entries[i].id;
            let result = entries[i].element.apply(buffer, ctx);
            assert(entries_view(entries@) =~= view);
            match after_transform(&result) {
                ChainStep::Continue => {},
                ChainStep::RemoveTransform => {
                    flag = true;
                },
                ChainStep::DropBuffer => {
                    buffer.clear();
                    delivered = false;
                },
            }
            records.push(TransformRecord { id, result });
            assert(applied_transforms(records@) =~= applied_transforms(old_records).push(id));
        }
        flags.push(flag);
        proof {
            let n = records@.len();
            assert forall|k: int| 0 <= k < n implies exists|p: int|
                0 <= p < i + 1 && view[p].id == (#[trigger] records@[k]).id by {
                if k < old_records.len() {
                    assert(records@[k] == old_records[k]);
                    let p = choose|p: int| 0 <= p < i && view[p].id == old_records[k].id;
                    assert(view[p].id == records@[k].id);
                } else {
                    assert(view[i as int].id == records@[k].id);
                }
            }
            assert forall|p: int| 0 <= p < i + 1 implies (#[trigger] flags@[p] <==> exists|k: int|
                0 <= k < n && (#[trigger] records@[k]).id == view[p].id && records@[k].removed()) by {
                if p < i {
                    assert(flags@[p] == old_flags[p]);
                    if old_flags[p] {
                        let k = choose|k: int|
                            0 <= k < old_records.len() && (#[trigger] old_records[k]).id
                                == view[p].id && old_records[k].removed();
                        assert(records@[k] == old_records[k]);
                    }
                    if exists|k: int|
                        0 <= k < n && (#[trigger] records@[k]).id == view[p].id
                            && records@[k].removed() {
                        let k = choose|k: int|
                            0 <= k < n && (#[trigger] records@[k]).id == view[p].id
                                && records@[k].removed();
                        if k < old_records.len() {
                            assert(records@[k] == old_records[k]);
                        } else {
                            assert(view[p].id != view[i as int].id);
                        }
                    }
                } else {
                    if flag {
                        assert(records@[n - 1].id == view[p].id && records@[n - 1].removed());
                    }
                    if exists|k: int|
                        0 <= k < n && (#[trigger] records@[k]).id == view[p].id
                            && records@[k].removed() {
                        let k = choose|k: int|
                            0 <= k < n && (#[trigger] records@[k]).id == view[p].id
                                && records@[k].removed();
                        if k < old_records.len() {
                            assert(records@[k] == old_records[k]);
                            let q = choose|q: int| 0 <= q < i && view[q].id == old_records[k].id;
                            assert(view[q].id != view[i as int].id);
                        }
                    }
                }
            }
            assert forall|k: int| 0 <= k < n - 1 implies !(#[trigger] records@[k]).refused() by {
                if k < old_records.len() {
                    assert(records@[k] == old_records[k]);
                }
            }
        }
        i += 1;
    }
    let examined = i;
    while i < count
        invariant
            examined <= i <= count,
            flags@.len() == i,
            forall|p: int| examined <= p < i ==> !#[trigger] flags@[p],
            forall|p: int|
                0 <= p < examined ==> (#[trigger] flags@[p] <==> exists|k: int|
                    0 <= k < records@.len() && (#[trigger] records@[k]).id == view[p].id
                        && records@[k].removed()),
        decreases count - i,
    {
        let ghost old_flags = flags@;
        flags.push(false);
        assert forall|p: int| 0 <= p < examined implies (#[trigger] flags@[p] <==> exists|k: int|
            0 <= k < records@.len() && (#[trigger] records@[k]).id == view[p].id
                && records@[k].removed()) by {
            assert(flags@[p] == old_flags[p]);
        }
        i += 1;
    }
    let ghost removed = removed_transforms(records@);
    proof {
        assert forall|p: int| 0 <= p < entries@.len() implies (#[trigger] flags@[p]
            <==> removed.contains(entries@[p]@.id)) by {
            assert(entries@[p]@ == view[p]);
            if p >= examined {
                if removed.contains(view[p].id) {
                    let k = choose|k: int|
                        0 <= k < records@.len() && (#[trigger] records@[k]).id == view[p].id
                            && records@[k].removed();
                    let q = choose|q: int| 0 <= q < examined && view[q].id == records@[k].id;
                    assert(view[q].id != view[p].id);
                }
            }
        }
        lemma_surviving(view, removed, transforms.spec_next_id());
    }
    let kept = retain_unflagged(entries, &flags, Ghost(removed));
    transforms.put_entries(kept);
    ChainReport { records, examined, delivered }
}

/// The answers of one output to one buffer.
#[derive(Debug)]
pub struct WriteRecord {
    /// Number of the output.
    pub id: u64,
    /// What the output answered to the first write.
    pub first: Result<(), WriteError>,
    /// What the output answered to the second write, if there was one.
    pub retry: Option<Result<(), WriteError>>,
}

/// What became of an output and of the buffer that was written to it.
#[derive(Clone, Copy, Debug, PartialEq, Eq, Structural)]
pub enum WriteFate {
    /// The output has the buffer.
    Written,
    /// The output failed twice; it does not get this buffer, and stays.
    BufferDropped,
    /// The output failed for good and leaves the pipeline.
    OutputRemoved,
}

/// What becomes of an output that answered `first`, and `retry` to a second
/// write.
pub open spec fn write_fate(first: Result<(), WriteError>, retry: Option<Result<(), WriteError>>) -> WriteFate {
    match first {
        Ok(_) => WriteFate::Written,
        Err(WriteError::Fatal(_)) => WriteFate::OutputRemoved,
        Err(WriteError::CanRetry(_)) => match retry {
            Some(Ok(_)) => WriteFate::Written,
            Some(Err(WriteError::Fatal(_))) => WriteFate::OutputRemoved,
            _ => WriteFate::BufferDropped,
        },
    }
}

impl WriteRecord {
    /// What became of the output and of the buffer.
    pub open spec fn spec_fate(&self) -> WriteFate {
        write_fate(self.first, self.retry)
    }

    /// Whether the output failed for good and leaves the pipeline.
    pub open spec fn removed(&self) -> bool {
        self.spec_fate() == WriteFate::OutputRemoved
    }

    /// What became of the output and of the buffer: written at the first or
    /// second write; dropped after two errors that allow a retry; the output
    /// removed after a fatal error.
    pub fn fate(&self) -> (f: WriteFate)
        ensures
            f == self.spec_fate(),
    {
        match &self.first {
            Ok(_) => WriteFate::Written,
            Err(WriteError::Fatal(_)) => WriteFate::OutputRemoved,
            Err(WriteError::CanRetry(_)) => match &self.retry {
                Some(Ok(_)) => WriteFate::Written,
                Some(Err(WriteError::Fatal(_))) => WriteFate::OutputRemoved,
                Some(Err(WriteError::CanRetry(_))) => WriteFate::BufferDropped,
                None => WriteFate::BufferDropped,
            },
        }
    }
}

/// Whether a write that was answered with `first` is tried again: it is
/// after an error that allows a retry, and only then.
pub fn retries_write(first: &Result<(), WriteError>) -> (again: bool)
    ensures
        again == (first matches Err(WriteError::CanRetry(_))),
{
    match first {
        Err(WriteError::CanRetry(_)) => true,
        _ => false,
    }
}

/// The numbers of the outputs that failed for good, by `records`.
pub open spec fn removed_outputs(records: Seq<WriteRecord>) -> Set<u64> {
    Set::new(
        |id: u64| exists|k: int| 0 <= k < records.len() && (#[trigger] records[k]).id == id
            && records[k].removed(),
    )
}

/// Writes `buffer` to every output, in the order of their registration. An
/// output that answers with an error that allows a retry is written to a
/// second time, and no more. An output that answers with a fatal error, the
/// first or the second time, leaves the registry.
pub fn write_outputs<O: Output>(
    outputs: &mut OutputRegistry<O>,
    buffer: &MeasurementBuffer,
    ctx: &OutputContext,
) -> (records: Vec<WriteRecord>)
    ensures
        records@.len() == old(outputs)@.len(),
        forall|k: int|
            0 <= k < records@.len() ==> (#[trigger] records@[k]).id == old(outputs)@[k].id && (
            records@[k].retry is Some <==> records@[k].first matches Err(WriteError::CanRetry(_))),
        final(outputs)@ == surviving(old(outputs)@, removed_outputs(records@)),
        final(outputs).spec_next_id() == old(outputs).spec_next_id(),
{
    let ghost view = outputs@;
    let mut entries = outputs.take_entries();
    let count = entries.len();
    let mut flags: Vec<bool> = Vec::new();
    let mut records: Vec<WriteRecord> = Vec::new();
    let mut i: usize = 0;
    while i < count
        invariant
            i <= count,
            flags@.len() == i,
            records@.len() == i,
            entries@.len() == count,
            view.len() == count,
            entries_view(entries@) == view,
            names_distinct(view),
            ids_fresh(view, outputs.spec_next_id()),
            forall|k: int|
                0 <= k < i ==> (#[trigger] records@[k]).id == view[k].id && (records@[k].retry
                    is Some <==> records@[k].first matches Err(WriteError::CanRetry(_))),
            forall|p: int| 0 <= p < i ==> #[trigger] flags@[p] == records@[p].removed(),
        decreases count - i,
    {
        assert(entries@[i as int]@ == view[i as int]);
        let id = entries[i].id;
        let first = entries[i].element.write(buffer, ctx);
        assert(entries_view(entries@) =~= view);
        let retry = if retries_write(&first) {
            let second = entries[i].element.write(buffer, ctx);
            assert(entries_view(entries@) =~= view);
            Some(second)
        } else {
            None
        };
        let record = WriteRecord { id, first, retry };
        flags.push(record.fate() == WriteFate::OutputRemoved);
        records.push(record);
        i += 1;
    }
    let ghost removed = removed_outputs(records@);
    proof {
        assert forall|p: int| 0 <= p < entries@.len() implies (#[trigger] flags@[p]
            <==> removed.contains(entries@[p]@.id)) by {
            assert(entries@[p]@ == view[p]);
            if flags@[p] {
                assert(records@[p].id == view[p].id && records@[p].removed());
            }
            if removed.contains(view[p].id) {
                let k = choose|k: int|
                    0 <= k < records@.len() && (#[trigger] records@[k]).id == view[p].id
                        && records@[k].removed();
                if k != p {
                    if k < p {
                        assert(view[k].id != view[p].id);
                    } else {
                        assert(view[p].id != view[k].id);
                    }
                }
            }
        }
        lemma_surviving(view, removed, outputs.spec_next_id());
    }
    let kept = retain_unflagged(entries, &flags, Ghost(removed));
    outputs.put_entries(kept);
    records
}

} // verus!
