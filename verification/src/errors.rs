use vstd::prelude::*;

verus! {

/// An error reported by the event source: a failure to open one of its
/// streams, or a failed read of one stream item. The driving task converts
/// the transport's own error into this plain form before handing it to the
/// engine.
pub struct StreamError {
    /// Description of the failure, as reported by the transport.
    pub message: String,
}

/// The error surfaced by a run of the engine. Every failure is fatal to the
/// run and is surfaced to the caller unchanged; state applied before the
/// failure is retained and remains observable.
pub enum ProjectorError {
    /// Subscribing to the live feed failed.
    SubscriptionOpen(StreamError),
    /// Opening the historical catch-up query failed.
    CatchUpOpen(StreamError),
    /// One of the two streams yielded an error for a specific item.
    StreamItem(StreamError),
}

} // verus!
