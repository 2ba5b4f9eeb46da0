//! Events that systems publish to one another.

use vstd::prelude::*;
use vstd::hash_map::StringHashMap;

verus! {

/// What can happen to an entity.
#[derive(Debug, Clone, Copy, PartialEq, Eq, Structural)]
pub enum GameEvent {
    EntityCreated,
    EntityDestroyed,
    Collision,
}

/// The handle by which whoever runs the callbacks finds a subscriber again.
pub type EventSubscriber = u64;

/// Subscribers by topic.
pub struct EventBus {
    pub subscribers: StringHashMap<Vec<EventSubscriber>>,
}

impl EventBus {
    /// A bus without subscribers.
    pub fn new() -> (bus: EventBus)
        ensures
            bus.subscribers@ == Map::<Seq<char>, Vec<EventSubscriber>>::empty(),
    {
        EventBus { subscribers: StringHashMap::new() }
    }

    /// Publishes an event. Nothing is delivered: the bus keeps its
    /// subscribers and calls none.
    pub fn publish(&self, _event: GameEvent) {
    }
}

} // verus!
