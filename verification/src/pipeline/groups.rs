//! Grouping the sources of a pipeline: the sources with the same trigger
//! and the same class share one timer and are polled together.

use vstd::prelude::*;
use crate::pipeline::elements::{SourceRegistry, SourceSettings};
use crate::pipeline::registry::EntryView;

verus! {

/// The sources that share the settings `key`, by their positions in the
/// registry.
#[derive(Debug)]
pub struct SourceGroup {
    pub key: SourceSettings,
    pub members: Vec<usize>,
}

/// The positions below `upto` of the sources whose settings are `key`, in
/// rising order.
pub open spec fn positions_with(
    entries: Seq<EntryView<SourceSettings>>,
    key: SourceSettings,
    upto: int,
) -> Seq<usize>
    decreases upto,
{
    if upto <= 0 {
        Seq::empty()
    } else {
        let before = positions_with(entries, key, upto - 1);
        if upto <= entries.len() && entries[upto - 1].settings == key {
            before.push((upto - 1) as usize)
        } else {
            before
        }
    }
}

/// Whether `groups` are the groups of the first `upto` sources of
/// `entries`: each group holds exactly the positions of the sources with its
/// key, and at least one; no two groups have the same key; every source is
/// in a group; and the groups come in the order of their first members.
pub open spec fn groups_of(
    groups: Seq<SourceGroup>,
    entries: Seq<EntryView<SourceSettings>>,
    upto: int,
) -> bool {
    &&& forall|g: int|
        0 <= g < groups.len() ==> (#[trigger] groups[g]).members@ == positions_with(
            entries,
            groups[g].key,
            upto,
        ) && groups[g].members@.len() > 0
    &&& forall|g: int, h: int|
        0 <= g < h < groups.len() ==> (#[trigger] groups[g]).key != (#[trigger] groups[h]).key
    &&& forall|p: int|
        0 <= p < upto ==> exists|g: int|
            0 <= g < groups.len() && (#[trigger] groups[g]).key == (#[trigger] entries[p]).settings
    &&& forall|g: int, h: int|
        0 <= g < h < groups.len() ==> (#[trigger] groups[g]).members@[0] < (
        #[trigger] groups[h]).members@[0]
}

/// The positions that `positions_with` gives are below `upto`.
pub proof fn lemma_positions_with(
    entries: Seq<EntryView<SourceSettings>>,
    key: SourceSettings,
    upto: int,
)
    requires
        0 <= upto <= entries.len() <= usize::MAX,
    ensures
        forall|k: int|
            0 <= k < positions_with(entries, key, upto).len() ==> (#[trigger] positions_with(
                entries,
                key,
                upto,
            )[k]) < upto && entries[positions_with(entries, key, upto)[k] as int].settings == key,
    decreases upto,
{
    if upto > 0 {
        lemma_positions_with(entries, key, upto - 1);
    }
}

/// The positions of the sources of the registry whose settings are `key`,
/// in rising order.
pub fn members_of<S>(sources: &SourceRegistry<S>, key: SourceSettings) -> (members: Vec<usize>)
    ensures
        members@ == positions_with(sources@, key, sources@.len() as int),
        forall|k: int| 0 <= k < members@.len() ==> #[trigger] members@[k] < sources@.len(),
        forall|k: int, l: int| 0 <= k < l < members@.len() ==> members@[k] < members@[l],
{
    let mut members: Vec<usize> = Vec::new();
    let count = sources.len();
    let mut i: usize = 0;
    while i < count
        invariant
            i <= count,
            count == sources@.len(),
            members@ == positions_with(sources@, key, i as int),
            forall|k: int| 0 <= k < members@.len() ==> #[trigger] members@[k] < i,
            forall|k: int, l: int| 0 <= k < l < members@.len() ==> members@[k] < members@[l],
        decreases count - i,
    {
        if sources.get(i).settings == key {
            members.push(i);
        }
        i += 1;
    }
    members
}

/// The groups of the sources of the registry, in the order in which their
/// first members were registered.
pub fn grouped<S>(sources: &SourceRegistry<S>) -> (groups: Vec<SourceGroup>)
    ensures
        groups_of(groups@, sources@, sources@.len() as int),
{
    let mut groups: Vec<SourceGroup> = Vec::new();
    let count = sources.len();
    let mut i: usize = 0;
    while i < count
        invariant
            i <= count,
            count == sources@.len(),
            groups_of(groups@, sources@, i as int),
        decreases count - i,
    {
        let settings = sources.get(i).settings;
        let ghost before = groups@;
        let mut g: usize = 0;
        let mut found = false;
        while g < groups.len() && !found
            invariant
                g <= groups@.len(),
                groups@ == before,
                !found ==> forall|h: int| 0 <= h < g ==> (#[trigger] groups@[h]).key != settings,
                found ==> g < groups@.len() && groups@[g as int].key == settings,
            decreases groups@.len() - g + if found { 0int } else { 1int },
        {
            if groups[g].key == settings {
                found = true;
            } else {
                g += 1;
            }
        }
        proof {
            assert forall|h: int| 0 <= h < before.len() implies (#[trigger] before[h]).members@[0]
                < i by {
                lemma_positions_with(sources@, before[h].key, i as int);
            }
        }
        if found {
            groups[g].members.push(i);
            assert forall|h: int| 0 <= h < groups@.len() implies (#[trigger] groups@[h]).key
                == before[h].key by {}
            assert forall|h: int| 0 <= h < groups@.len() implies (#[trigger] groups@[h]).members@
                == positions_with(sources@, groups@[h].key, i + 1) && groups@[h].members@.len()
                > 0 by {
                if h != g {
                    assert(groups@[h] == before[h]);
                    assert(before[h].key != before[g as int].key);
                } else {
                    assert(groups@[h].members@ == before[h].members@.push(i));
                }
            }
            assert forall|p: int| 0 <= p < i + 1 implies exists|h: int|
                0 <= h < groups@.len() && (#[trigger] groups@[h]).key == (
                #[trigger] sources@[p]).settings by {
                if p < i {
                    let h = choose|h: int|
                        0 <= h < before.len() && (#[trigger] before[h]).key
                            == sources@[p].settings;
                    assert(groups@[h].key == sources@[p].settings);
                } else {
                    assert(groups@[g as int].key == sources@[p].settings);
                }
            }
            assert forall|a: int, b: int| 0 <= a < b < groups@.len() implies (
            #[trigger] groups@[a]).members@[0] < (#[trigger] groups@[b]).members@[0] by {
                assert(groups@[a].members@[0] == before[a].members@[0]);
                assert(groups@[b].members@[0] == before[b].members@[0]);
            }
        } else {
            let mut members: Vec<usize> = Vec::new();
            members.push(i);
            proof {
                assert forall|p: int| 0 <= p < i implies (#[trigger] sources@[p]).settings
                    != settings by {
                    let h = choose|h: int|
                        0 <= h < before.len() && (#[trigger] before[h]).key
                            == sources@[p].settings;
                    assert(before[h].key != settings);
                }
                lemma_no_member(sources@, settings, i as int);
            }
            groups.push(SourceGroup { key: settings, members });
            assert forall|h: int| 0 <= h < groups@.len() implies (#[trigger] groups@[h]).members@
                == positions_with(sources@, groups@[h].key, i + 1) && groups@[h].members@.len()
                > 0 by {
                if h < before.len() {
                    assert(groups@[h] == before[h]);
                } else {
                    assert(groups@[h].members@ =~= positions_with(sources@, settings, i + 1));
                }
            }
            assert forall|p: int| 0 <= p < i + 1 implies exists|h: int|
                0 <= h < groups@.len() && (#[trigger] groups@[h]).key == (
                #[trigger] sources@[p]).settings by {
                if p < i {
                    let h = choose|h: int|
                        0 <= h < before.len() && (#[trigger] before[h]).key
                            == sources@[p].settings;
                    assert(groups@[h] == before[h]);
                } else {
                    assert(groups@[before.len() as int].key == sources@[p].settings);
                }
            }
            assert forall|a: int, b: int| 0 <= a < b < groups@.len() implies (
            #[trigger] groups@[a]).members@[0] < (#[trigger] groups@[b]).members@[0] by {
                assert(groups@[a] == before[a]);
                if b < before.len() {
                    assert(groups@[b] == before[b]);
                }
            }
        }
        i += 1;
    }
    groups
}

/// Where no source so far has the settings `key`, no position has them.
proof fn lemma_no_member(entries: Seq<EntryView<SourceSettings>>, key: SourceSettings, upto: int)
    requires
        0 <= upto <= entries.len(),
        forall|p: int| 0 <= p < upto ==> (#[trigger] entries[p]).settings != key,
    ensures
        positions_with(entries, key, upto) == Seq::<usize>::empty(),
    decreases upto,
{
    if upto > 0 {
        lemma_no_member(entries, key, upto - 1);
    }
}

} // verus!
