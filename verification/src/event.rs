//! The bus on which the agent announces the consumers to measure. Every
//! announcement goes to all who have subscribed by then; who subscribes
//! later does not get what was announced before.

use vstd::prelude::*;
use crate::exec_process::StartConsumerMeasurement;
use crate::resources::{ResourceConsumer, ResourceConsumerView};

verus! {

/// The consumers in `consumers`, each as its mathematical value.
pub open spec fn consumers_view(consumers: Seq<ResourceConsumer>) -> Seq<ResourceConsumerView> {
    consumers.map_values(|c: ResourceConsumer| c@)
}

impl View for StartConsumerMeasurement {
    type V = Seq<ResourceConsumerView>;

    open spec fn view(&self) -> Seq<ResourceConsumerView> {
        consumers_view(self.consumers@)
    }
}

impl Clone for StartConsumerMeasurement {
    fn clone(&self) -> (r: Self)
        ensures
            r@ == self@,
    {
        let mut consumers: Vec<ResourceConsumer> = Vec::new();
        let mut i: usize = 0;
        while i < self.consumers.len()
            invariant
                i <= self.consumers@.len(),
                consumers@.len() == i,
                forall|j: int| 0 <= j < i ==> consumers@[j]@ == self.consumers@[j]@,
            decreases self.consumers@.len() - i,
        {
            consumers.push(self.consumers[i].clone());
            i += 1;
        }
        let r = StartConsumerMeasurement { consumers };
        assert(r@ =~= self@);
        r
    }
}

/// The events in `events`, each as its mathematical value.
pub open spec fn events_view(events: Seq<StartConsumerMeasurement>) -> Seq<
    Seq<ResourceConsumerView>,
> {
    events.map_values(|e: StartConsumerMeasurement| e@)
}

/// The bus of the announcements of consumers.
#[derive(Debug)]
pub struct ConsumerEventBus {
    pub inboxes: Vec<Vec<StartConsumerMeasurement>>,
}

impl View for ConsumerEventBus {
    type V = Seq<Seq<Seq<ResourceConsumerView>>>;

    /// For each subscriber, the announcements that wait for it.
    open spec fn view(&self) -> Seq<Seq<Seq<ResourceConsumerView>>> {
        self.inboxes@.map_values(|inbox: Vec<StartConsumerMeasurement>| events_view(inbox@))
    }
}

impl ConsumerEventBus {
    /// A bus without subscribers.
    pub fn new() -> (bus: ConsumerEventBus)
        ensures
            bus@.len() == 0,
    {
        ConsumerEventBus { inboxes: Vec::new() }
    }

    /// Adds a subscriber and gives its number. Nothing waits for it yet,
    /// whatever was announced before.
    pub fn subscribe(&mut self) -> (subscriber: usize)
        ensures
            subscriber == old(self)@.len(),
            final(self)@ == old(self)@.push(Seq::empty()),
    {
        let subscriber = self.inboxes.len();
        self.inboxes.push(Vec::new());
        assert(self@[subscriber as int] =~= Seq::empty());
        assert(self@ =~= old(self)@.push(Seq::empty()));
        subscriber
    }

    /// Announces `event` to every subscriber: it is added to what waits
    /// for each of them.
    pub fn publish(&mut self, event: &StartConsumerMeasurement)
        ensures
            final(self)@.len() == old(self)@.len(),
            forall|s: int|
                0 <= s < old(self)@.len() ==> #[trigger] final(self)@[s] == old(self)@[s].push(
                    event@,
                ),
    {
        let mut s: usize = 0;
        while s < self.inboxes.len()
            invariant
                s <= self.inboxes@.len(),
                self@.len() == old(self)@.len(),
                forall|t: int| 0 <= t < s ==> #[trigger] self@[t] == old(self)@[t].push(event@),
                forall|t: int| s <= t < self@.len() ==> #[trigger] self@[t] == old(self)@[t],
            decreases self.inboxes@.len() - s,
        {
            let ghost before = self@;
            let ghost inboxes = self.inboxes@;
            let copy = event.clone();
            self.inboxes[s].push(copy);
            assert(self@[s as int] =~= before[s as int].push(event@));
            assert forall|t: int| 0 <= t < self@.len() && t != s implies #[trigger] self@[t]
                == before[t] by {
                assert(self.inboxes@[t] == inboxes[t]);
            }
            s += 1;
        }
    }

    /// Takes what waits for the subscriber `subscriber`, in the order in
    /// which it was announced. Nothing waits for a subscriber that the bus
    /// does not know.
    pub fn drain(&mut self, subscriber: usize) -> (events: Vec<StartConsumerMeasurement>)
        ensures
            subscriber < old(self)@.len() ==> events_view(events@) == old(self)@[subscriber as int]
                && final(self)@ == old(self)@.update(subscriber as int, Seq::empty()),
            subscriber >= old(self)@.len() ==> events@.len() == 0 && final(self)@ == old(self)@,
    {
        let mut events: Vec<StartConsumerMeasurement> = Vec::new();
        if subscriber >= self.inboxes.len() {
            return events;
        }
        let ghost inboxes = self.inboxes@;
        core::mem::swap(&mut self.inboxes[subscriber], &mut events);
        assert forall|t: int| 0 <= t < self@.len() && t != subscriber implies #[trigger] self@[t]
            == old(self)@[t] by {
            assert(self.inboxes@[t] == inboxes[t]);
        }
        assert(self@[subscriber as int] =~= Seq::empty());
        assert(self@ =~= old(self)@.update(subscriber as int, Seq::empty()));
        events
    }
}

} // verus!
