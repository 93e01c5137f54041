use vstd::prelude::*;

use crate::event::PersistedEvent;

verus! {

/// A projection: a caller-defined, read-optimized state derived from the
/// event log by a pure fold. The engine owns one value of the state and
/// drives it forward one event at a time.
///
/// Each executable operation is pinned to a specification function, so that
/// the engine's contracts can speak about the fold mathematically.
pub trait Projection: Sized {
    /// Identity type of the event sources this projection reads.
    type SourceId;

    /// Domain event type folded into the state.
    type Event;

    /// The default/initial state, before any event has been applied.
    spec fn initial_spec() -> Self;

    /// The pure fold: the state reached by applying `event` to `state`.
    spec fn project_spec(state: Self, event: PersistedEvent<Self::Event>) -> Self;

    /// Produces the initial state.
    fn initial() -> (s: Self)
        ensures
            s == Self::initial_spec(),
    ;

    /// Folds one event into the state, producing the next state.
    fn project(state: Self, event: PersistedEvent<Self::Event>) -> (s: Self)
        ensures
            s == Self::project_spec(state, event),
    ;

    /// An independent copy of the state, handed out to observers.
    fn snapshot(&self) -> (s: Self)
        ensures
            s == *self,
    ;
}

/// The state reached from `init` by folding `events` into it, in order:
/// `fold(fold(..fold(init, events[0])..), events[last])`.
pub open spec fn fold_events<P: Projection>(init: P, events: Seq<PersistedEvent<P::Event>>) -> P
    decreases events.len(),
{
    if events.len() == 0 {
        init
    } else {
        P::project_spec(fold_events(init, events.drop_last()), events.last())
    }
}

/// The broadcast history belonging to an applied log: the initial state
/// first, then the state reached after each applied event, in application
/// order.
pub open spec fn state_history<P: Projection>(applied: Seq<PersistedEvent<P::Event>>) -> Seq<P> {
    Seq::new(applied.len() + 1, |i: int| fold_events(P::initial_spec(), applied.take(i)))
}

/// Applying one more event extends the broadcast history by exactly the new
/// state, and changes nothing before it.
pub proof fn lemma_state_history_push<P: Projection>(
    applied: Seq<PersistedEvent<P::Event>>,
    e: PersistedEvent<P::Event>,
)
    ensures
        state_history::<P>(applied.push(e)) == state_history::<P>(applied).push(
            fold_events(P::initial_spec(), applied.push(e)),
        ),
{
    let a = applied.push(e);
    assert(a.take(applied.len() as int + 1) =~= a);
    assert forall|i: int| 0 <= i <= applied.len() implies #[trigger] a.take(i) == applied.take(
        i,
    ) by {
        assert(a.take(i) =~= applied.take(i));
    }
    assert(state_history::<P>(a) =~= state_history::<P>(applied).push(
        fold_events(P::initial_spec(), a),
    ));
}

/// A projection that merely counts the events applied to it.
#[derive(Clone, Copy, PartialEq, Eq, Debug)]
pub struct EventCount {
    /// How many events have been folded in, saturating at the type's maximum.
    pub count: u64,
}

impl Projection for EventCount {
    type SourceId = u64;

    type Event = ();

    open spec fn initial_spec() -> Self {
        EventCount { count: 0 }
    }

    open spec fn project_spec(state: Self, event: PersistedEvent<()>) -> Self {
        EventCount {
            count: if state.count == u64::MAX {
                state.count
            } else {
                (state.count + 1) as u64
            },
        }
    }

    fn initial() -> (s: Self) {
        EventCount { count: 0 }
    }

    fn project(state: Self, event: PersistedEvent<()>) -> (s: Self) {
        if state.count == u64::MAX {
            state
        } else {
            EventCount { count: state.count + 1 }
        }
    }

    fn snapshot(&self) -> (s: Self) {
        *self
    }
}

/// Modulus of [`EventDigest`]: digests are kept below this bound.
pub const DIGEST_MODULUS: u64 = 0x1_0000_0000;

/// A projection that mixes every applied event into an order-sensitive
/// digest of its payload. Two different application orders, a skipped event
/// or a double application each give a different digest (with overwhelming
/// likelihood), which makes the engine's fold directly observable.
#[derive(Clone, Copy, PartialEq, Eq, Debug)]
pub struct EventDigest {
    /// Digest of the applied payloads, in application order.
    pub digest: u64,
}

impl Projection for EventDigest {
    type SourceId = u64;

    type Event = u32;

    open spec fn initial_spec() -> Self {
        EventDigest { digest: 0 }
    }

    open spec fn project_spec(state: Self, event: PersistedEvent<u32>) -> Self {
        EventDigest {
            digest: (((state.digest % DIGEST_MODULUS) * 31 + event.payload) % (DIGEST_MODULUS as int)) as u64,
        }
    }

    fn initial() -> (s: Self) {
        EventDigest { digest: 0 }
    }

    fn project(state: Self, event: PersistedEvent<u32>) -> (s: Self) {
        let mixed = state.digest % DIGEST_MODULUS;
        EventDigest { digest: (mixed * 31 + event.payload as u64) % DIGEST_MODULUS }
    }

    fn snapshot(&self) -> (s: Self) {
        *self
    }
}

} // verus!
