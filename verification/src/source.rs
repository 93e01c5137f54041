use vstd::prelude::*;

verus! {

/// Selection of events to read from an [`EventStore`].
pub enum Select {
    /// All events, for all sources in scope.
    All,
}

/// A durable, append-only event store: the historical ("catch-up") side of
/// the event source.
///
/// Reading the store is I/O and happens outside the engine; the driving
/// task queries it and hands the resulting items to the engine. The trait
/// therefore carries only the associated types, which the builder uses to
/// check at construction time that a store, a subscriber and a projection
/// agree on identity and event types.
pub trait EventStore {
    /// Identity type of the event sources held by the store.
    type SourceId;

    /// Domain event type persisted by the store.
    type Event;
}

/// A live subscription to events appended after subscription start: the live
/// side of the event source.
///
/// As with [`EventStore`], the transport is driven outside the engine, and
/// the trait carries only the associated types for the construction-time
/// compatibility check.
pub trait EventSubscriber {
    /// Identity type of the event sources covered by the subscription.
    type SourceId;

    /// Domain event type delivered by the subscription.
    type Event;
}

} // verus!
