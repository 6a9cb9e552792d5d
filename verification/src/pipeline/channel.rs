//! The bounded queues between the stages of the pipeline. A full queue
//! makes room by dropping what has waited longest, so that adding to it
//! never has to wait.

use vstd::prelude::*;
use std::collections::VecDeque;

verus! {

/// The contents of a queue of capacity `capacity` after `item` has been
/// added to `items`: the oldest item goes if the queue was full.
pub open spec fn after_push<T>(items: Seq<T>, item: T, capacity: int) -> Seq<T> {
    if items.len() < capacity {
        items.push(item)
    } else {
        items.skip(1).push(item)
    }
}

/// A queue that holds at most `capacity` items and gives them back in the
/// order in which they came.
#[derive(Debug)]
pub struct BoundedQueue<T> {
    items: VecDeque<T>,
    capacity: usize,
    dropped: u64,
}

impl<T> View for BoundedQueue<T> {
    type V = Seq<T>;

    closed spec fn view(&self) -> Seq<T> {
        self.items@
    }
}

impl<T> BoundedQueue<T> {
    #[verifier::type_invariant]
    spec fn within_capacity(self) -> bool {
        0 < self.capacity && self.items@.len() <= self.capacity
    }

    /// The largest number of items that the queue holds.
    pub closed spec fn spec_capacity(&self) -> usize {
        self.capacity
    }

    /// How many items the queue has dropped so far; the count stops at
    /// `u64::MAX`.
    pub closed spec fn spec_dropped(&self) -> u64 {
        self.dropped
    }

    /// An empty queue for at most `capacity` items. There is no queue of
    /// capacity zero.
    pub fn new(capacity: usize) -> (q: Option<BoundedQueue<T>>)
        ensures
            q is Some == (capacity > 0),
            q matches Some(queue) ==> queue@ == Seq::<T>::empty() && queue.spec_capacity()
                == capacity && queue.spec_dropped() == 0,
    {
        if capacity == 0 {
            None
        } else {
            Some(BoundedQueue { items: VecDeque::new(), capacity, dropped: 0 })
        }
    }

    /// States what holds of every queue: it holds no more items than its
    /// capacity, which is above zero. It does nothing when run.
    pub fn well_formedness(&self)
        ensures
            0 < self.spec_capacity(),
            self@.len() <= self.spec_capacity(),
    {
        proof {
            use_type_invariant(self);
        }
    }

    fn take_items(&mut self) -> (v: VecDeque<T>)
        ensures
            v@ == old(self)@,
            v@.len() <= old(self).spec_capacity(),
            0 < old(self).spec_capacity(),
            final(self)@ == Seq::<T>::empty(),
            final(self).spec_capacity() == old(self).spec_capacity(),
            final(self).spec_dropped() == old(self).spec_dropped(),
    {
        proof {
            use_type_invariant(&*self);
        }
        let mut v: VecDeque<T> = VecDeque::new();
        core::mem::swap(&mut self.items, &mut v);
        v
    }

    /// The number of items that wait in the queue.
    pub fn len(&self) -> (n: usize)
        ensures
            n == self@.len(),
            n <= self.spec_capacity(),
    {
        proof {
            use_type_invariant(self);
        }
        self.items.len()
    }

    pub fn is_empty(&self) -> (e: bool)
        ensures
            e == (self@.len() == 0),
    {
        self.items.len() == 0
    }

    /// The largest number of items that the queue holds.
    pub fn capacity(&self) -> (c: usize)
        ensures
            c == self.spec_capacity(),
            c > 0,
    {
        proof {
            use_type_invariant(self);
        }
        self.capacity
    }

    /// How many items the queue has dropped so far.
    pub fn dropped(&self) -> (d: u64)
        ensures
            d == self.spec_dropped(),
    {
        self.dropped
    }

    /// Adds `item` at the end. The queue always takes it. If the queue is
    /// full, the item that has waited longest is taken out to make room; it
    /// comes back as the result and is counted as dropped.
    pub fn push(&mut self, item: T) -> (evicted: Option<T>)
        ensures
            final(self)@ == after_push(old(self)@, item, old(self).spec_capacity() as int),
            final(self).spec_capacity() == old(self).spec_capacity(),
            final(self)@.len() > 0 && final(self)@.last() == item,
            old(self)@.len() < old(self).spec_capacity() ==> evicted is None && final(self).spec_dropped() == old(self).spec_dropped(),
            old(self)@.len() == old(self).spec_capacity() ==> evicted == Some(old(self)@[0])
                && final(self).spec_dropped() == if old(self).spec_dropped() < u64::MAX {
                (old(self).spec_dropped() + 1) as u64
            } else {
                u64::MAX
            },
    {
        let capacity = self.capacity;
        let mut dropped = self.dropped;
        let mut items = self.take_items();
        let mut evicted: Option<T> = None;
        if items.len() >= capacity {
            evicted = items.pop_front();
            if dropped < u64::MAX {
                dropped = dropped + 1;
            }
        }
        items.push_back(item);
        *self = BoundedQueue { items, capacity, dropped };
        evicted
    }

    /// Takes out the item that has waited longest.
    pub fn pop(&mut self) -> (item: Option<T>)
        ensures
            old(self)@.len() == 0 ==> item is None && final(self)@ == old(self)@,
            old(self)@.len() > 0 ==> item == Some(old(self)@[0]) && final(self)@ == old(self)@.skip(1),
            final(self).spec_capacity() == old(self).spec_capacity(),
            final(self).spec_dropped() == old(self).spec_dropped(),
    {
        let capacity = self.capacity;
        let dropped = self.dropped;
        let mut items = self.take_items();
        let item = items.pop_front();
        assert(item is Some ==> items@ =~= old(self)@.skip(1));
        *self = BoundedQueue { items, capacity, dropped };
        item
    }
}

/// Says that a queue was full and dropped what had waited longest.
#[derive(Clone, Copy, Debug, PartialEq, Eq, Structural)]
pub struct BufferDropped {
    /// Number of the source whose queue it is.
    pub source: u64,
    /// How many items the queue has dropped so far.
    pub count: u64,
}

/// Puts `item` into the queue of the source `source`. The queue always
/// takes it; if that cost the oldest item, the event says so.
pub fn enqueue<T>(queue: &mut BoundedQueue<T>, source: u64, item: T) -> (event: Option<
    BufferDropped,
>)
    ensures
        final(queue)@ == after_push(old(queue)@, item, old(queue).spec_capacity() as int),
        final(queue).spec_capacity() == old(queue).spec_capacity(),
        event is Some == (old(queue)@.len() == old(queue).spec_capacity()),
        event matches Some(e) ==> e.source == source && e.count == final(queue).spec_dropped(),
        event is None ==> final(queue).spec_dropped() == old(queue).spec_dropped(),
{
    proof {
        use_type_invariant(&*queue);
    }
    match queue.push(item) {
        Some(_) => Some(BufferDropped { source, count: queue.dropped() }),
        None => None,
    }
}

/// What is done to a queue of timestamps: one is added, or the oldest is
/// taken out.
pub enum QueueStep {
    Push(int),
    Pop,
}

/// Whether `s` never goes down.
pub open spec fn non_decreasing(s: Seq<int>) -> bool {
    forall|i: int, j: int| 0 <= i <= j < s.len() ==> s[i] <= s[j]
}

/// The values that `steps` add, in their order.
pub open spec fn pushed(steps: Seq<QueueStep>) -> Seq<int>
    decreases steps.len(),
{
    if steps.len() == 0 {
        Seq::empty()
    } else {
        match steps.last() {
            QueueStep::Push(v) => pushed(steps.drop_last()).push(v),
            QueueStep::Pop => pushed(steps.drop_last()),
        }
    }
}

/// The contents of a queue of capacity `capacity` that was empty before `steps`.
pub open spec fn waiting(steps: Seq<QueueStep>, capacity: int) -> Seq<int>
    decreases steps.len(),
{
    if steps.len() == 0 {
        Seq::empty()
    } else {
        let before = waiting(steps.drop_last(), capacity);
        match steps.last() {
            QueueStep::Push(v) => after_push(before, v, capacity),
            QueueStep::Pop => if before.len() > 0 {
                before.skip(1)
            } else {
                before
            },
        }
    }
}

/// The values that `steps` take out of a queue of capacity `capacity` that
/// was empty before them, in their order.
pub open spec fn delivered(steps: Seq<QueueStep>, capacity: int) -> Seq<int>
    decreases steps.len(),
{
    if steps.len() == 0 {
        Seq::empty()
    } else {
        let before = waiting(steps.drop_last(), capacity);
        let earlier = delivered(steps.drop_last(), capacity);
        match steps.last() {
            QueueStep::Push(_) => earlier,
            QueueStep::Pop => if before.len() > 0 {
                earlier.push(before[0])
            } else {
                earlier
            },
        }
    }
}

/// A queue delivers in the order of arrival. Where the values that go into
/// the queue never go down, the values that come out never go down either,
/// whatever the queue dropped in between; and what still waits is no
/// earlier than what came out.
pub proof fn lemma_queue_keeps_order(steps: Seq<QueueStep>, capacity: int)
    requires
        capacity > 0,
        non_decreasing(pushed(steps)),
    ensures
        non_decreasing(delivered(steps, capacity) + waiting(steps, capacity)),
        non_decreasing(delivered(steps, capacity)),
        waiting(steps, capacity).len() <= capacity,
        waiting(steps, capacity).len() > 0 ==> pushed(steps).len() > 0 && waiting(
            steps,
            capacity,
        ).last() == pushed(steps).last(),
        waiting(steps, capacity).len() == 0 && delivered(steps, capacity).len() > 0 ==> pushed(
            steps,
        ).len() > 0 && delivered(steps, capacity).last() <= pushed(steps).last(),
    decreases steps.len(),
{
    if steps.len() > 0 {
        let earlier = steps.drop_last();
        let p = pushed(earlier);
        assert(non_decreasing(p)) by {
            match steps.last() {
                QueueStep::Push(v) => {
                    assert forall|i: int, j: int| 0 <= i <= j < p.len() implies p[i] <= p[j] by {
                        assert(pushed(steps)[i] == p[i] && pushed(steps)[j] == p[j]);
                    }
                },
                QueueStep::Pop => {},
            }
        }
        lemma_queue_keeps_order(earlier, capacity);
        let w = waiting(earlier, capacity);
        let d = delivered(earlier, capacity);
        let all = d + w;
        let w2 = waiting(steps, capacity);
        let d2 = delivered(steps, capacity);
        let all2 = d2 + w2;
        match steps.last() {
            QueueStep::Push(v) => {
                let ps = pushed(steps);
                assert(ps.last() == v);
                if p.len() > 0 {
                    assert(ps[p.len() - 1] == p.last());
                    assert(p.last() <= v);
                }
                assert forall|i: int, j: int| 0 <= i <= j < all2.len() implies all2[i]
                    <= all2[j] by {
                    // Every element of `all2` but the last is an element of `all`, in order.
                    let shift = if w.len() < capacity { 0int } else { 1int };
                    let oi = if i < d.len() { i } else { i + shift };
                    let oj = if j < d.len() { j } else { j + shift };
                    if j < all2.len() - 1 {
                        assert(all2[i] == all[oi]);
                        assert(all2[j] == all[oj]);
                    } else if i < all2.len() - 1 {
                        assert(all2[i] == all[oi]);
                        assert(all2[j] == v);
                        if w.len() > 0 {
                            assert(all[all.len() - 1] == w.last());
                            assert(all[oi] <= all[all.len() - 1]);
                        } else {
                            assert(d.len() > 0);
                            assert(all[oi] <= all[d.len() - 1]);
                            assert(all[d.len() - 1] == d.last());
                        }
                    }
                }
            },
            QueueStep::Pop => {
                if w.len() > 0 {
                    assert(all2 =~= all);
                    if w2.len() > 0 {
                        assert(w2.last() == w.last());
                    } else {
                        assert(d2.last() == w[0]);
                        assert(w[0] == w.last());
                    }
                } else {
                    assert(all2 =~= all);
                }
            },
        }
        assert forall|i: int, j: int| 0 <= i <= j < d2.len() implies d2[i] <= d2[j] by {
            assert(all2[i] == d2[i] && all2[j] == d2[j]);
        }
    }
}

} // verus!
