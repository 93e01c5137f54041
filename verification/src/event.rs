use vstd::prelude::*;

verus! {

/// A caller-defined domain event together with the sequence number assigned
/// to it by the event source: a totally ordered, monotonically-assigned
/// integer giving the event's position in the global event order.
pub struct PersistedEvent<E> {
    /// Position of the event in the global order of its source scope.
    pub sequence_number: u32,
    /// The domain event itself, opaque to the engine.
    pub payload: E,
}

} // verus!
