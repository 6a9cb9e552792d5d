//! Catalogues of the elements of the pipeline. An element is known by the
//! name of the plugin that made it together with its own name, and by a
//! number that the registry gives it.

use vstd::prelude::*;
use vstd::string::*;
use crate::text::str_eq;

verus! {

/// An element of a registry: what was registered, under which names, with
/// which settings.
#[derive(Debug)]
pub struct Registered<M, E> {
    /// The number that the registry gave to the element.
    pub id: u64,
    /// Name of the plugin that registered the element.
    pub plugin: String,
    /// Name of the element within its plugin.
    pub name: String,
    /// How the pipeline treats the element.
    pub settings: M,
    /// The element itself.
    pub element: E,
}

/// Mathematical value of a [`Registered`] element: all but the element itself.
pub struct EntryView<M> {
    pub id: u64,
    pub plugin: Seq<char>,
    pub name: Seq<char>,
    pub settings: M,
}

impl<M, E> View for Registered<M, E> {
    type V = EntryView<M>;

    open spec fn view(&self) -> EntryView<M> {
        EntryView { id: self.id, plugin: self.plugin@, name: self.name@, settings: self.settings }
    }
}

/// Chooses elements of a registry.
#[derive(Debug)]
pub enum ElementSelector {
    /// Every element.
    All,
    /// The elements of one plugin.
    ByPluginName(String),
    /// The elements with a given name, whatever their plugin.
    ByElementName(String),
    /// The element with a given number.
    ByTypedId(u64),
}

/// Mathematical value of an [`ElementSelector`].
pub enum SelectorView {
    All,
    ByPluginName(Seq<char>),
    ByElementName(Seq<char>),
    ByTypedId(u64),
}

impl View for ElementSelector {
    type V = SelectorView;

    open spec fn view(&self) -> SelectorView {
        match self {
            ElementSelector::All => SelectorView::All,
            ElementSelector::ByPluginName(p) => SelectorView::ByPluginName(p@),
            ElementSelector::ByElementName(n) => SelectorView::ByElementName(n@),
            ElementSelector::ByTypedId(id) => SelectorView::ByTypedId(*id),
        }
    }
}

impl Clone for ElementSelector {
    fn clone(&self) -> (r: Self)
        ensures
            r@ == self@,
    {
        match self {
            ElementSelector::All => ElementSelector::All,
            ElementSelector::ByPluginName(p) => ElementSelector::ByPluginName(p.clone()),
            ElementSelector::ByElementName(n) => ElementSelector::ByElementName(n.clone()),
            ElementSelector::ByTypedId(id) => ElementSelector::ByTypedId(*id),
        }
    }
}

impl SelectorView {
    /// Whether the selector chooses the element `entry`.
    pub open spec fn selects<M>(self, entry: EntryView<M>) -> bool {
        match self {
            SelectorView::All => true,
            SelectorView::ByPluginName(p) => entry.plugin == p,
            SelectorView::ByElementName(n) => entry.name == n,
            SelectorView::ByTypedId(id) => entry.id == id,
        }
    }
}

impl ElementSelector {
    /// A selector that chooses every element.
    pub fn all() -> (s: ElementSelector)
        ensures
            s@ == SelectorView::All,
    {
        ElementSelector::All
    }

    /// Whether the selector chooses `entry`.
    pub fn selects<M, E>(&self, entry: &Registered<M, E>) -> (r: bool)
        ensures
            r == self@.selects(entry@),
    {
        match self {
            ElementSelector::All => true,
            ElementSelector::ByPluginName(p) => entry.plugin == *p,
            ElementSelector::ByElementName(n) => entry.name == *n,
            ElementSelector::ByTypedId(id) => entry.id == *id,
        }
    }
}

/// The position of the first element that `plugin` registered as `name`, or
/// the length of `entries` if there is none.
pub open spec fn entry_position<M>(
    entries: Seq<EntryView<M>>,
    plugin: Seq<char>,
    name: Seq<char>,
) -> int
    decreases entries.len(),
{
    if entries.len() == 0 {
        0
    } else if entries[0].plugin == plugin && entries[0].name == name {
        0
    } else {
        1 + entry_position(entries.skip(1), plugin, name)
    }
}

/// Whether `plugin` has registered an element as `name`.
pub open spec fn has_entry<M>(entries: Seq<EntryView<M>>, plugin: Seq<char>, name: Seq<char>) -> bool {
    entry_position(entries, plugin, name) < entries.len()
}

/// Whether no two elements have the same plugin and name.
pub open spec fn names_distinct<M>(entries: Seq<EntryView<M>>) -> bool {
    forall|i: int, j: int|
        0 <= i < j < entries.len() ==> !((#[trigger] entries[i]).plugin == (
        #[trigger] entries[j]).plugin && entries[i].name == entries[j].name)
}

/// Whether every element has a number below `bound`, and no two the same.
pub open spec fn ids_fresh<M>(entries: Seq<EntryView<M>>, bound: u64) -> bool {
    &&& forall|i: int| 0 <= i < entries.len() ==> (#[trigger] entries[i]).id < bound
    &&& forall|i: int, j: int|
        0 <= i < j < entries.len() ==> (#[trigger] entries[i]).id != (#[trigger] entries[j]).id
}

/// The positions below `upto` of the elements that `selector` chooses, in
/// rising order.
pub open spec fn selected_positions<M>(
    entries: Seq<EntryView<M>>,
    selector: SelectorView,
    upto: int,
) -> Seq<usize>
    decreases upto,
{
    if upto <= 0 {
        Seq::empty()
    } else {
        let before = selected_positions(entries, selector, upto - 1);
        if upto <= entries.len() && selector.selects(entries[upto - 1]) {
            before.push((upto - 1) as usize)
        } else {
            before
        }
    }
}

/// `entries` without the elements that `plugin` registered.
pub open spec fn without_plugin<M>(entries: Seq<EntryView<M>>, plugin: Seq<char>) -> Seq<
    EntryView<M>,
> {
    entries.filter(|e: EntryView<M>| e.plugin != plugin)
}

/// `entry_position` finds the first element with the names, and stays within
/// the sequence.
pub proof fn lemma_entry_position<M>(entries: Seq<EntryView<M>>, plugin: Seq<char>, name: Seq<char>)
    ensures
        0 <= entry_position(entries, plugin, name) <= entries.len(),
        has_entry(entries, plugin, name) ==> {
            let at = entry_position(entries, plugin, name);
            entries[at].plugin == plugin && entries[at].name == name
        },
        forall|i: int|
            0 <= i < entry_position(entries, plugin, name) ==> !((#[trigger] entries[i]).plugin
                == plugin && entries[i].name == name),
    decreases entries.len(),
{
    if entries.len() != 0 && !(entries[0].plugin == plugin && entries[0].name == name) {
        let rest = entries.skip(1);
        lemma_entry_position(rest, plugin, name);
        assert forall|i: int| 0 <= i < entry_position(entries, plugin, name) implies !((
        #[trigger] entries[i]).plugin == plugin && entries[i].name == name) by {
            if i > 0 {
                assert(rest[i - 1] == entries[i]);
            }
        }
    }
}

/// A position that holds the names, with none before it, is their position.
pub proof fn lemma_entry_position_is<M>(
    entries: Seq<EntryView<M>>,
    plugin: Seq<char>,
    name: Seq<char>,
    at: int,
)
    requires
        0 <= at <= entries.len(),
        at < entries.len() ==> entries[at].plugin == plugin && entries[at].name == name,
        forall|i: int|
            0 <= i < at ==> !((#[trigger] entries[i]).plugin == plugin && entries[i].name == name),
    ensures
        entry_position(entries, plugin, name) == at,
{
    lemma_entry_position(entries, plugin, name);
    let found = entry_position(entries, plugin, name);
    if found < at {
        assert(!(entries[found].plugin == plugin && entries[found].name == name));
    }
}

/// Adding an element and then removing it gives back the registry as it
/// was: where `plugin` had no element `name`, the entries after both steps
/// are the entries before them.
pub proof fn lemma_add_then_remove<M>(entries: Seq<EntryView<M>>, added: EntryView<M>)
    requires
        !has_entry(entries, added.plugin, added.name),
    ensures
        has_entry(entries.push(added), added.plugin, added.name),
        entry_position(entries.push(added), added.plugin, added.name) == entries.len(),
        entries.push(added).remove(entry_position(entries.push(added), added.plugin, added.name))
            == entries,
{
    let after = entries.push(added);
    lemma_entry_position(entries, added.plugin, added.name);
    assert forall|i: int| 0 <= i < entries.len() implies !((#[trigger] after[i]).plugin
        == added.plugin && after[i].name == added.name) by {
        assert(after[i] == entries[i]);
    }
    lemma_entry_position_is(after, added.plugin, added.name, entries.len() as int);
    assert(after.remove(entries.len() as int) =~= entries);
}

/// Removing an element that is not there changes nothing, however often it
/// is done.
pub proof fn lemma_remove_absent<M>(entries: Seq<EntryView<M>>, plugin: Seq<char>, name: Seq<char>)
    requires
        !has_entry(entries, plugin, name),
    ensures
        entry_position(entries, plugin, name) == entries.len(),
{
    lemma_entry_position(entries, plugin, name);
}

/// After an element has been removed, its names are free again.
pub proof fn lemma_removed_is_absent<M>(
    entries: Seq<EntryView<M>>,
    plugin: Seq<char>,
    name: Seq<char>,
)
    requires
        names_distinct(entries),
        has_entry(entries, plugin, name),
    ensures
        !has_entry(entries.remove(entry_position(entries, plugin, name)), plugin, name),
        names_distinct(entries.remove(entry_position(entries, plugin, name))),
{
    lemma_entry_position(entries, plugin, name);
    let at = entry_position(entries, plugin, name);
    let after = entries.remove(at);
    assert forall|i: int| 0 <= i < after.len() implies !((#[trigger] after[i]).plugin == plugin
        && after[i].name == name) by {
        if i < at {
            assert(after[i] == entries[i]);
        } else {
            assert(after[i] == entries[i + 1]);
        }
    }
    lemma_entry_position_is(after, plugin, name, after.len() as int);
    assert forall|i: int, j: int| 0 <= i < j < after.len() implies !((#[trigger] after[i]).plugin
        == (#[trigger] after[j]).plugin && after[i].name == after[j].name) by {
        let oi = if i < at { i } else { i + 1 };
        let oj = if j < at { j } else { j + 1 };
        assert(after[i] == entries[oi]);
        assert(after[j] == entries[oj]);
    }
}

/// The entries of `entries` whose number is not in `removed`, in their order.
pub open spec fn surviving<M>(entries: Seq<EntryView<M>>, removed: Set<u64>) -> Seq<EntryView<M>>
    decreases entries.len(),
{
    if entries.len() == 0 {
        entries
    } else {
        let rest = surviving(entries.drop_last(), removed);
        if removed.contains(entries.last().id) {
            rest
        } else {
            rest.push(entries.last())
        }
    }
}

/// What survives is part of what was there: names stay distinct and numbers
/// stay fresh.
pub proof fn lemma_surviving<M>(entries: Seq<EntryView<M>>, removed: Set<u64>, bound: u64)
    requires
        names_distinct(entries),
        ids_fresh(entries, bound),
    ensures
        names_distinct(surviving(entries, removed)),
        ids_fresh(surviving(entries, removed), bound),
        surviving(entries, removed).len() <= entries.len(),
        forall|i: int|
            0 <= i < surviving(entries, removed).len() ==> exists|j: int|
                0 <= j < entries.len() && entries[j] == #[trigger] surviving(entries, removed)[i],
    decreases entries.len(),
{
    if entries.len() > 0 {
        let before = entries.drop_last();
        assert forall|i: int, j: int| 0 <= i < j < before.len() implies !((
        #[trigger] before[i]).plugin == (#[trigger] before[j]).plugin && before[i].name
            == before[j].name) && before[i].id != before[j].id by {
            assert(before[i] == entries[i] && before[j] == entries[j]);
        }
        assert forall|i: int| 0 <= i < before.len() implies (#[trigger] before[i]).id < bound by {
            assert(before[i] == entries[i]);
        }
        lemma_surviving(before, removed, bound);
        let rest = surviving(before, removed);
        let all = surviving(entries, removed);
        assert forall|i: int| 0 <= i < all.len() implies exists|j: int|
            0 <= j < entries.len() && entries[j] == #[trigger] all[i] by {
            if i < rest.len() {
                let j = choose|j: int| 0 <= j < before.len() && before[j] == rest[i];
                assert(entries[j] == all[i]);
            } else {
                assert(entries[entries.len() - 1] == all[i]);
            }
        }
        if !removed.contains(entries.last().id) {
            let last = entries.last();
            assert forall|i: int, j: int| 0 <= i < j < all.len() implies !((
            #[trigger] all[i]).plugin == (#[trigger] all[j]).plugin && all[i].name == all[j].name)
                && all[i].id != all[j].id by {
                if j == rest.len() {
                    let oi = choose|oi: int| 0 <= oi < before.len() && before[oi] == rest[i];
                    assert(entries[oi] == all[i]);
                    assert(entries[entries.len() - 1] == all[j]);
                }
            }
        }
    }
}

/// `entries` without those whose flag is set.
pub(crate) fn retain_unflagged<M, E>(
    entries: Vec<Registered<M, E>>,
    flags: &Vec<bool>,
    Ghost(removed): Ghost<Set<u64>>,
) -> (kept: Vec<Registered<M, E>>)
    requires
        flags@.len() == entries@.len(),
        forall|i: int|
            0 <= i < entries@.len() ==> (#[trigger] flags@[i] <==> removed.contains(
                entries@[i]@.id,
            )),
    ensures
        entries_view(kept@) == surviving(entries_view(entries@), removed),
{
    let ghost view = entries_view(entries@);
    let mut kept: Vec<Registered<M, E>> = Vec::new();
    let mut at: usize = 0;
    let limit = flags.len();
    assert(view.take(0) =~= Seq::empty());
    for entry in it: entries
        invariant
            at == it.index(),
            limit == flags@.len(),
            it.seq().len() == flags@.len(),
            view == entries_view(it.seq()),
            forall|i: int|
                0 <= i < view.len() ==> (#[trigger] flags@[i] <==> removed.contains(view[i].id)),
            entries_view(kept@) == surviving(view.take(it.index() as int), removed),
    {
        let ghost i = it.index() as int;
        assert(view.take(i + 1).drop_last() =~= view.take(i));
        assert(view.take(i + 1).last() == view[i]);
        let ghost before = entries_view(kept@);
        if !flags[at] {
            kept.push(entry);
            assert(entries_view(kept@) =~= before.push(view[i]));
        }
        at += 1;
    }
    assert(view.take(view.len() as int) =~= view);
    kept
}

/// The numbers of the elements of `entries` that `selector` chooses.
pub open spec fn selected_ids<M>(entries: Seq<EntryView<M>>, selector: SelectorView) -> Set<u64> {
    Set::new(
        |id: u64| exists|i: int| 0 <= i < entries.len() && (#[trigger] entries[i]).id == id
            && selector.selects(entries[i]),
    )
}

/// The numbers of the elements of `entries` at `positions`, in that order.
pub open spec fn ids_at<M>(entries: Seq<EntryView<M>>, positions: Seq<usize>) -> Seq<u64> {
    Seq::new(positions.len(), |k: int| entries[positions[k] as int].id)
}

/// Why an element could not be registered.
#[derive(Clone, Copy, Debug, PartialEq, Eq, Structural)]
pub enum RegistryError {
    /// The plugin has registered an element with that name before.
    Duplicate,
    /// The registry has given out all its numbers.
    Exhausted,
}

/// The elements of one kind, in the order in which they were registered.
#[derive(Debug)]
pub struct ElementRegistry<M, E> {
    entries: Vec<Registered<M, E>>,
    next_id: u64,
}

/// The elements in `entries`, each as its mathematical value.
pub open spec fn entries_view<M, E>(entries: Seq<Registered<M, E>>) -> Seq<EntryView<M>> {
    entries.map_values(|e: Registered<M, E>| e@)
}

impl<M, E> View for ElementRegistry<M, E> {
    type V = Seq<EntryView<M>>;

    closed spec fn view(&self) -> Seq<EntryView<M>> {
        entries_view(self.entries@)
    }
}

impl<M, E> ElementRegistry<M, E> {
    #[verifier::type_invariant]
    spec fn well_formed(self) -> bool {
        &&& names_distinct(entries_view(self.entries@))
        &&& ids_fresh(entries_view(self.entries@), self.next_id)
    }

    /// The number that the next element gets.
    pub closed spec fn spec_next_id(&self) -> u64 {
        self.next_id
    }

    /// The elements themselves, in the order of the entries.
    pub closed spec fn elements(&self) -> Seq<E> {
        self.entries@.map_values(|e: Registered<M, E>| e.element)
    }

    /// Moves the entries out of the registry, which is left without any.
    pub(crate) fn take_entries(&mut self) -> (v: Vec<Registered<M, E>>)
        ensures
            entries_view(v@) == old(self)@,
            v@.map_values(|e: Registered<M, E>| e.element) == old(self).elements(),
            names_distinct(entries_view(v@)),
            ids_fresh(entries_view(v@), old(self).spec_next_id()),
            final(self)@ == Seq::<EntryView<M>>::empty(),
            final(self).spec_next_id() == old(self).spec_next_id(),
    {
        proof {
            use_type_invariant(&*self);
        }
        let mut v: Vec<Registered<M, E>> = Vec::new();
        core::mem::swap(&mut self.entries, &mut v);
        assert(self@ =~= Seq::<EntryView<M>>::empty());
        v
    }

    /// Puts `entries` in the place of the entries of the registry.
    pub(crate) fn put_entries(&mut self, entries: Vec<Registered<M, E>>)
        requires
            names_distinct(entries_view(entries@)),
            ids_fresh(entries_view(entries@), old(self).spec_next_id()),
        ensures
            final(self)@ == entries_view(entries@),
            final(self).elements() == entries@.map_values(|e: Registered<M, E>| e.element),
            final(self).spec_next_id() == old(self).spec_next_id(),
    {
        let next_id = self.next_id;
        *self = ElementRegistry { entries, next_id };
    }

    /// A registry without elements.
    pub fn new() -> (r: Self)
        ensures
            r@ == Seq::<EntryView<M>>::empty(),
            r.spec_next_id() == 0,
    {
        let r = ElementRegistry { entries: Vec::new(), next_id: 0 };
        assert(r@ =~= Seq::<EntryView<M>>::empty());
        r
    }

    /// States what holds of every registry: no two elements share plugin
    /// and name, and every number is below the next one to be given and
    /// used once. It does nothing when run.
    pub fn well_formedness(&self)
        ensures
            names_distinct(self@),
            ids_fresh(self@, self.spec_next_id()),
            self.elements().len() == self@.len(),
    {
        proof {
            use_type_invariant(self);
        }
    }

    /// The number of elements.
    pub fn len(&self) -> (n: usize)
        ensures
            n == self@.len(),
    {
        self.entries.len()
    }

    pub fn is_empty(&self) -> (e: bool)
        ensures
            e == (self@.len() == 0),
    {
        self.entries.len() == 0
    }

    /// The element at `position`.
    pub fn get(&self, position: usize) -> (e: &Registered<M, E>)
        requires
            position < self@.len(),
        ensures
            e@ == self@[position as int],
            e.element == self.elements()[position as int],
    {
        &self.entries[position]
    }

    /// The position of the element that `plugin` registered as `name`.
    pub fn position(&self, plugin: &str, name: &str) -> (r: Option<usize>)
        ensures
            r is Some == has_entry(self@, plugin@, name@),
            r matches Some(at) ==> at == entry_position(self@, plugin@, name@),
    {
        let ghost entries = self@;
        let mut i: usize = 0;
        while i < self.entries.len()
            invariant
                i <= self.entries.len(),
                entries == entries_view(self.entries@),
                forall|j: int|
                    0 <= j < i ==> !((#[trigger] entries[j]).plugin == plugin@ && entries[j].name
                        == name@),
            decreases self.entries.len() - i,
        {
            if str_eq(self.entries[i].plugin.as_str(), plugin) && str_eq(
                self.entries[i].name.as_str(),
                name,
            ) {
                proof {
                    lemma_entry_position_is(entries, plugin@, name@, i as int);
                }
                return Some(i);
            }
            i += 1;
        }
        proof {
            lemma_entry_position_is(entries, plugin@, name@, entries.len() as int);
        }
        None
    }

    /// Whether `plugin` has registered an element as `name`.
    pub fn contains(&self, plugin: &str, name: &str) -> (r: bool)
        ensures
            r == has_entry(self@, plugin@, name@),
    {
        self.position(plugin, name).is_some()
    }

    /// Registers `element` for `plugin` under `name`, at the end, and gives
    /// it the next number. If the plugin has an element of that name
    /// already, or no number is left, the registry stays as it is.
    pub fn add(&mut self, plugin: String, name: String, settings: M, element: E) -> (r: Result<
        u64,
        RegistryError,
    >)
        ensures
            has_entry(old(self)@, plugin@, name@) ==> r == Err::<u64, RegistryError>(
                RegistryError::Duplicate,
            ),
            !has_entry(old(self)@, plugin@, name@) && old(self).spec_next_id() == u64::MAX ==> r
                == Err::<u64, RegistryError>(RegistryError::Exhausted),
            !has_entry(old(self)@, plugin@, name@) && old(self).spec_next_id() < u64::MAX ==> r
                == Ok::<u64, RegistryError>(old(self).spec_next_id()),
            r is Err ==> final(self)@ == old(self)@ && final(self).spec_next_id() == old(
                self,
            ).spec_next_id() && final(self).elements() == old(self).elements(),
            r matches Ok(id) ==> {
                &&& final(self)@ == old(self)@.push(
                    EntryView { id, plugin: plugin@, name: name@, settings },
                )
                &&& final(self).spec_next_id() == id + 1
                &&& final(self).elements() == old(self).elements().push(element)
            },
    {
        proof {
            use_type_invariant(&*self);
        }
        if self.contains(plugin.as_str(), name.as_str()) {
            return Err(RegistryError::Duplicate);
        }
        if self.next_id == u64::MAX {
            return Err(RegistryError::Exhausted);
        }
        let id = self.next_id;
        let ghost before = self@;
        let ghost added = EntryView { id, plugin: plugin@, name: name@, settings };
        let mut entries = self.take_entries();
        assert(entries_view(entries@) == before);
        entries.push(Registered { id, plugin, name, settings, element });
        proof {
            assert(entries_view(entries@) =~= before.push(added));
            assert(entries@.map_values(|e: Registered<M, E>| e.element) =~= old(
                self,
            ).elements().push(element));
            lemma_entry_position(before, added.plugin, added.name);
            let after = before.push(added);
            assert forall|i: int, j: int| 0 <= i < j < after.len() implies !((
            #[trigger] after[i]).plugin == (#[trigger] after[j]).plugin && after[i].name
                == after[j].name) by {
                if j == before.len() {
                    assert(after[i] == before[i]);
                } else {
                    assert(after[i] == before[i] && after[j] == before[j]);
                }
            }
            assert forall|i: int| 0 <= i < after.len() implies (#[trigger] after[i]).id < id
                + 1 by {
                if i < before.len() {
                    assert(after[i] == before[i]);
                }
            }
            assert forall|i: int, j: int| 0 <= i < j < after.len() implies (#[trigger] after[i]).id
                != (#[trigger] after[j]).id by {
                assert(after[i] == before[i]);
                if j < before.len() {
                    assert(after[j] == before[j]);
                }
            }
        }
        *self = ElementRegistry { entries, next_id: id + 1 };
        Ok(id)
    }

    /// Takes the element at `position` out of the registry.
    pub fn remove_at(&mut self, position: usize) -> (r: Registered<M, E>)
        requires
            position < old(self)@.len(),
        ensures
            r@ == old(self)@[position as int],
            r.element == old(self).elements()[position as int],
            final(self)@ == old(self)@.remove(position as int),
            final(self).elements() == old(self).elements().remove(position as int),
            final(self).spec_next_id() == old(self).spec_next_id(),
    {
        proof {
            use_type_invariant(&*self);
        }
        let ghost before = self@;
        let next_id = self.next_id;
        let mut entries = self.take_entries();
        let r = entries.remove(position);
        proof {
            let after = before.remove(position as int);
            assert(entries_view(entries@) =~= after);
            assert(entries@.map_values(|e: Registered<M, E>| e.element) =~= old(
                self,
            ).elements().remove(position as int));
            assert forall|i: int, j: int| 0 <= i < j < after.len() implies !((
            #[trigger] after[i]).plugin == (#[trigger] after[j]).plugin && after[i].name
                == after[j].name) && after[i].id != after[j].id by {
                let oi = if i < position { i } else { i + 1 };
                let oj = if j < position { j } else { j + 1 };
                assert(after[i] == before[oi]);
                assert(after[j] == before[oj]);
            }
            assert forall|i: int| 0 <= i < after.len() implies (#[trigger] after[i]).id
                < next_id by {
                let oi = if i < position { i } else { i + 1 };
                assert(after[i] == before[oi]);
            }
        }
        *self = ElementRegistry { entries, next_id };
        r
    }

    /// Takes the element that `plugin` registered as `name` out of the
    /// registry. Where there is none, nothing changes.
    pub fn remove(&mut self, plugin: &str, name: &str) -> (r: Option<Registered<M, E>>)
        ensures
            r is Some == has_entry(old(self)@, plugin@, name@),
            r matches Some(e) ==> {
                let at = entry_position(old(self)@, plugin@, name@);
                &&& e@ == old(self)@[at]
                &&& e.element == old(self).elements()[at]
                &&& final(self)@ == old(self)@.remove(at)
                &&& final(self).elements() == old(self).elements().remove(at)
            },
            r is None ==> final(self)@ == old(self)@ && final(self).elements() == old(
                self,
            ).elements(),
            final(self).spec_next_id() == old(self).spec_next_id(),
    {
        match self.position(plugin, name) {
            Some(at) => Some(self.remove_at(at)),
            None => None,
        }
    }

    /// The positions of the elements that `selector` chooses, in rising
    /// order: each chosen element once, and no other.
    pub fn select(&self, selector: &ElementSelector) -> (r: Vec<usize>)
        ensures
            r@ == selected_positions(self@, selector@, self@.len() as int),
    {
        let mut out: Vec<usize> = Vec::new();
        let mut i: usize = 0;
        while i < self.entries.len()
            invariant
                i <= self.entries.len(),
                out@ == selected_positions(self@, selector@, i as int),
                self@ == entries_view(self.entries@),
            decreases self.entries.len() - i,
        {
            if selector.selects(&self.entries[i]) {
                out.push(i);
            }
            i += 1;
        }
        out
    }

    /// The numbers of the elements at `positions`, in that order.
    pub fn ids_of(&self, positions: &Vec<usize>) -> (ids: Vec<u64>)
        requires
            forall|k: int| 0 <= k < positions@.len() ==> #[trigger] positions@[k] < self@.len(),
        ensures
            ids@ == ids_at(self@, positions@),
    {
        let mut ids: Vec<u64> = Vec::new();
        let mut k: usize = 0;
        while k < positions.len()
            invariant
                k <= positions@.len(),
                ids@.len() == k,
                self@ == entries_view(self.entries@),
                forall|j: int| 0 <= j < positions@.len() ==> #[trigger] positions@[j] < self@.len(),
                forall|j: int| 0 <= j < k ==> #[trigger] ids@[j] == self@[positions@[j] as int].id,
            decreases positions@.len() - k,
        {
            ids.push(self.entries[positions[k]].id);
            k += 1;
        }
        assert(ids@ =~= ids_at(self@, positions@));
        ids
    }

    /// Takes the elements that `selector` chooses out of the registry, and
    /// gives their numbers in the order of their registration. The others
    /// stay, in their order.
    pub fn remove_selected(&mut self, selector: &ElementSelector) -> (ids: Vec<u64>)
        ensures
            ids@ == ids_at(old(self)@, selected_positions(old(self)@, selector@, old(self)@.len() as int)),
            final(self)@ == surviving(old(self)@, selected_ids(old(self)@, selector@)),
            final(self).spec_next_id() == old(self).spec_next_id(),
    {
        let positions = self.select(selector);
        let count = self.len();
        proof {
            lemma_selected_positions(self@, selector@, count as int);
        }
        let ids = self.ids_of(&positions);
        let ghost view = self@;
        let ghost removed = selected_ids(view, selector@);
        let entries = self.take_entries();
        let mut flags: Vec<bool> = Vec::new();
        let mut i: usize = 0;
        while i < entries.len()
            invariant
                i <= entries@.len(),
                flags@.len() == i,
                entries_view(entries@) == view,
                forall|p: int| 0 <= p < i ==> #[trigger] flags@[p] == selector@.selects(view[p]),
            decreases entries@.len() - i,
        {
            assert(entries@[i as int]@ == view[i as int]);
            flags.push(selector.selects(&entries[i]));
            i += 1;
        }
        proof {
            assert forall|p: int| 0 <= p < entries@.len() implies (#[trigger] flags@[p]
                <==> removed.contains(entries@[p]@.id)) by {
                assert(entries@[p]@ == view[p]);
                if removed.contains(view[p].id) {
                    let q = choose|q: int|
                        0 <= q < view.len() && (#[trigger] view[q]).id == view[p].id
                            && selector@.selects(view[q]);
                    if q != p {
                        if q < p {
                            assert(view[q].id != view[p].id);
                        } else {
                            assert(view[p].id != view[q].id);
                        }
                    }
                }
            }
            lemma_surviving(view, removed, self.spec_next_id());
        }
        let kept = retain_unflagged(entries, &flags, Ghost(removed));
        self.put_entries(kept);
        ids
    }

    /// Replaces the settings of the element at `position`.
    pub fn set_settings(&mut self, position: usize, settings: M)
        requires
            position < old(self)@.len(),
        ensures
            final(self)@ == old(self)@.update(
                position as int,
                EntryView { settings, ..old(self)@[position as int] },
            ),
            final(self).elements() == old(self).elements(),
            final(self).spec_next_id() == old(self).spec_next_id(),
    {
        proof {
            use_type_invariant(&*self);
        }
        let ghost before = self@;
        let next_id = self.next_id;
        let mut entries = self.take_entries();
        entries[position].settings = settings;
        proof {
            let after = before.update(
                position as int,
                EntryView { settings, ..before[position as int] },
            );
            assert(entries_view(entries@) =~= after);
            assert(entries@.map_values(|e: Registered<M, E>| e.element) =~= old(
                self,
            ).elements());
            assert forall|i: int, j: int| 0 <= i < j < after.len() implies !((
            #[trigger] after[i]).plugin == (#[trigger] after[j]).plugin && after[i].name
                == after[j].name) && after[i].id != after[j].id by {
                assert(after[i].plugin == before[i].plugin && after[i].name == before[i].name
                    && after[i].id == before[i].id);
                assert(after[j].plugin == before[j].plugin && after[j].name == before[j].name
                    && after[j].id == before[j].id);
            }
            assert forall|i: int| 0 <= i < after.len() implies (#[trigger] after[i]).id
                < next_id by {
                assert(after[i].id == before[i].id);
            }
        }
        *self = ElementRegistry { entries, next_id };
    }
}

/// What `selected_positions` holds: rising positions within the entries,
/// each of a chosen element, and every chosen element's position.
pub proof fn lemma_selected_positions<M>(
    entries: Seq<EntryView<M>>,
    selector: SelectorView,
    upto: int,
)
    requires
        0 <= upto <= entries.len() <= usize::MAX,
    ensures
        ({
            let chosen = selected_positions(entries, selector, upto);
            &&& chosen.len() <= upto
            &&& forall|k: int|
                0 <= k < chosen.len() ==> (#[trigger] chosen[k]) < upto && selector.selects(
                    entries[chosen[k] as int],
                )
            &&& forall|k: int, l: int| 0 <= k < l < chosen.len() ==> chosen[k] < chosen[l]
            &&& forall|p: int|
                0 <= p < upto && selector.selects(#[trigger] entries[p]) ==> exists|k: int|
                    0 <= k < chosen.len() && #[trigger] chosen[k] == p
        }),
    decreases upto,
{
    if upto > 0 {
        lemma_selected_positions(entries, selector, upto - 1);
        let before = selected_positions(entries, selector, upto - 1);
        let chosen = selected_positions(entries, selector, upto);
        assert forall|p: int|
            0 <= p < upto && selector.selects(#[trigger] entries[p]) implies exists|k: int|
            0 <= k < chosen.len() && #[trigger] chosen[k] == p by {
            if p < upto - 1 {
                let k = choose|k: int| 0 <= k < before.len() && #[trigger] before[k] == p;
                assert(chosen[k] == p);
            } else {
                assert(chosen[chosen.len() - 1] == p);
            }
        }
    }
}

} // verus!
