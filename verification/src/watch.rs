use vstd::prelude::*;

use crate::projection::Projection;

verus! {

/// A single-producer, multi-consumer, last-value-wins broadcast cell.
///
/// The channel holds the most recently published value together with a
/// version counter; each [`WatchHandle`] independently remembers the last
/// version it observed, not a queue of values. A slow observer therefore
/// never accumulates a backlog: whenever it next looks, it sees whatever is
/// current, and intermediate values may be skipped. Publishing never fails
/// and never blocks on observers.
///
/// The ghost `log` records every value the channel has ever held, oldest
/// first, so contracts can say precisely which value an observation returns
/// and that observations move forward through that log in order.
pub struct WatchChannel<P: Projection> {
    current: P,
    version: u64,
    log: Ghost<Seq<P>>,
}

/// An observer's handle onto a [`WatchChannel`]: it remembers the version of
/// the last value this observer took, and nothing else.
pub struct WatchHandle {
    seen: u64,
}

impl WatchHandle {
    /// Version of the last value this handle observed.
    pub closed spec fn last_seen(self) -> u64 {
        self.seen
    }
}

impl<P: Projection> WatchChannel<P> {
    /// Every value the channel has held, oldest first; the value published
    /// by the `i`-th update is `history()[i]`, and `history()[0]` is the
    /// value the channel was created with.
    pub closed spec fn history(self) -> Seq<P> {
        self.log@
    }

    /// Version counter: the number of values the channel has held so far.
    pub closed spec fn version(self) -> u64 {
        self.version
    }

    /// The value currently held.
    pub closed spec fn latest(self) -> P {
        self.current
    }

    /// Well-formedness: the version counts the history, and the held value
    /// is the most recent entry of the history.
    pub open spec fn wf(self) -> bool {
        &&& self.version() == self.history().len()
        &&& self.history().len() >= 1
        &&& self.latest() == self.history().last()
    }

    /// Creates a channel holding `initial`.
    pub fn new(initial: P) -> (c: Self)
        ensures
            c.wf(),
            c.history() == seq![initial],
    {
        let ghost log: Seq<P> = seq![initial];
        WatchChannel { current: initial, version: 1, log: Ghost(log) }
    }

    /// Publishes a new value: every handle that has not observed since the
    /// previous publication silently loses that older value.
    pub fn publish(&mut self, value: P)
        requires
            old(self).wf(),
            old(self).version() < u64::MAX,
        ensures
            final(self).wf(),
            final(self).history() == old(self).history().push(value),
    {
        self.current = value;
        self.version = self.version + 1;
        proof {
            self.log@ = self.log@.push(self.current);
        }
    }

    /// Creates a new observer handle. Exactly the most recent value is
    /// pending for it: the handle's first observation returns the value
    /// current at creation time (or a later one, if the channel moves on
    /// before the observer looks), never an older value and never a backlog.
    pub fn subscribe(&self) -> (h: WatchHandle)
        requires
            self.wf(),
        ensures
            h.last_seen() == self.version() - 1,
    {
        WatchHandle { seen: self.version - 1 }
    }

    /// One observation by the given handle: returns a snapshot of the
    /// current value if this handle has not seen it yet, and nothing
    /// otherwise. An observation always returns the latest entry of the
    /// history — intermediate values that were published since the handle
    /// last looked are skipped — and moves the handle's cursor to it, so a
    /// handle's successive observations come from strictly increasing
    /// positions of the history.
    pub fn observe(&self, h: &mut WatchHandle) -> (r: Option<P>)
        requires
            self.wf(),
        ensures
            old(h).last_seen() < self.version() ==> {
                &&& r == Some(self.history().last())
                &&& final(h).last_seen() == self.version()
            },
            old(h).last_seen() >= self.version() ==> {
                &&& r is None
                &&& *final(h) == *old(h)
            },
    {
        if h.seen < self.version {
            h.seen = self.version;
            Some(self.current.snapshot())
        } else {
            None
        }
    }

    /// The number of values published since the channel was created.
    pub fn update_count(&self) -> (n: u64)
        requires
            self.wf(),
        ensures
            n == self.history().len() - 1,
    {
        self.version - 1
    }
}

} // verus!
