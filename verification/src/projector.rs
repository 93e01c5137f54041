use vstd::prelude::*;

use std::sync::Arc;

use crate::errors::{ProjectorError, StreamError};
use crate::event::PersistedEvent;
use crate::projection::{fold_events, lemma_state_history_push, state_history, Projection};
use crate::source::{EventStore, EventSubscriber};
use crate::stream::{
    applied_events, duplicate_of, first_error, last_watermark, ok_prefix, strictly_increasing,
    watermark_after, watermark_value, StreamItem,
};
use crate::watch::{WatchChannel, WatchHandle};

verus! {

/// Relies on std's `Clone` for `Arc`: cloning an `Arc` returns a new
/// reference-counted handle to the same shared value, leaving the original
/// untouched.
#[verifier::external_body]
fn clone_arc<T>(v: &Arc<T>) -> (r: Arc<T>)
    ensures
        r == *v,
{
    v.clone()
}

/// Reusable factory for [`Projector`] instances.
///
/// The builder holds shared, reference-counted ownership of one event store
/// handle and one subscriber handle, and builds any number of engines on top
/// of them — one per projection type — without consuming either handle.
pub struct ProjectorBuilder<Store, Subscriber> {
    store: Arc<Store>,
    subscriber: Arc<Subscriber>,
}

impl<Store, Subscriber> ProjectorBuilder<Store, Subscriber> {
    /// The store handle shared with every engine this builder builds.
    pub closed spec fn store_handle(self) -> Arc<Store> {
        self.store
    }

    /// The subscriber handle shared with every engine this builder builds.
    pub closed spec fn subscriber_handle(self) -> Arc<Subscriber> {
        self.subscriber
    }

    /// Creates a new builder instance using the provided store and
    /// subscriber handles.
    pub fn new(store: Arc<Store>, subscriber: Arc<Subscriber>) -> (b: Self)
        ensures
            b.store_handle() == store,
            b.subscriber_handle() == subscriber,
    {
        ProjectorBuilder { store, subscriber }
    }

    /// Builds a new [`Projector`] for the [`Projection`] given in the
    /// function's type parameter, in its initial state.
    ///
    /// The bounds demand, at construction time, that the store, the
    /// subscriber and the projection agree on their source-identity and
    /// event types: a mismatched combination is rejected by the compiler
    /// here and can never reach a run.
    pub fn build<P>(&self) -> (p: Projector<P, Store, Subscriber>) where
        P: Projection,
        Store: EventStore<SourceId = P::SourceId, Event = P::Event>,
        Subscriber: EventSubscriber<SourceId = P::SourceId, Event = P::Event>,

        ensures
            p.wf(),
            p.applied() == Seq::<PersistedEvent<P::Event>>::empty(),
            p.projection_state() == P::initial_spec(),
            p.watermark() == 0,
            p.broadcast_history() == seq![P::initial_spec()],
            p.store_handle() == self.store_handle(),
            p.subscriber_handle() == self.subscriber_handle(),
    {
        Projector::new(clone_arc(&self.store), clone_arc(&self.subscriber))
    }
}

/// The projector engine: owns one [`Projection`] state, derives it from the
/// event source and broadcasts every new state to any number of watch
/// handles.
///
/// A run merges the historical catch-up stream with a live subscription
/// opened beforehand, discards overlap between the two by a monotonic
/// watermark, folds every surviving event into the state, and publishes the
/// new state after each fold. The engine retains its own broadcast channel
/// for its whole lifetime, so publishing a state can never fail.
pub struct Projector<P, Store, Subscriber> where P: Projection {
    channel: WatchChannel<P>,
    store: Arc<Store>,
    subscriber: Arc<Subscriber>,
    state: P,
    last_sequence_number: u32,
    applied_any: bool,
    applied_log: Ghost<Seq<PersistedEvent<P::Event>>>,
}

impl<P, Store, Subscriber> Projector<P, Store, Subscriber> where
    P: Projection,
    Store: EventStore<SourceId = P::SourceId, Event = P::Event>,
    Subscriber: EventSubscriber<SourceId = P::SourceId, Event = P::Event>,
 {
    /// The projection state the engine currently owns.
    pub closed spec fn projection_state(self) -> P {
        self.state
    }

    /// The watermark counter: the sequence number of the last applied
    /// event, or zero while nothing has been applied.
    pub closed spec fn watermark(self) -> u32 {
        self.last_sequence_number
    }

    /// Whether at least one event has been applied — only then does the
    /// watermark counter stand for an applied sequence number.
    pub closed spec fn has_applied(self) -> bool {
        self.applied_any
    }

    /// The log of every event the engine has folded into its state, in
    /// application order.
    pub closed spec fn applied(self) -> Seq<PersistedEvent<P::Event>> {
        self.applied_log@
    }

    /// Every state the engine has broadcast, oldest first, the initial
    /// state included.
    pub closed spec fn broadcast_history(self) -> Seq<P> {
        self.channel.history()
    }

    /// The store handle this engine shares with its builder.
    pub closed spec fn store_handle(self) -> Arc<Store> {
        self.store
    }

    /// The subscriber handle this engine shares with its builder.
    pub closed spec fn subscriber_handle(self) -> Arc<Subscriber> {
        self.subscriber
    }

    /// The engine's broadcast channel is internally consistent.
    pub closed spec fn channel_ok(self) -> bool {
        self.channel.wf()
    }

    /// The engine's invariant, established at construction and preserved by
    /// every operation: the state is the fold of exactly the applied events,
    /// each distinct sequence number applied once, in strictly ascending
    /// order; the watermark counter is the sequence number of the last
    /// applied event (zero while nothing has been applied); and the
    /// broadcast history holds the initial state followed by the state
    /// after each applied event, and nothing else.
    pub open spec fn wf(self) -> bool {
        &&& self.channel_ok()
        &&& self.projection_state() == fold_events(P::initial_spec(), self.applied())
        &&& self.watermark() == watermark_value(last_watermark(self.applied()))
        &&& self.has_applied() == (self.applied().len() > 0)
        &&& self.broadcast_history() == state_history::<P>(self.applied())
        &&& strictly_increasing(self.applied())
    }

    /// Creates an engine in the initial state of its projection, with a
    /// fresh broadcast channel already holding that state.
    fn new(store: Arc<Store>, subscriber: Arc<Subscriber>) -> (p: Self)
        ensures
            p.wf(),
            p.applied() == Seq::<PersistedEvent<P::Event>>::empty(),
            p.projection_state() == P::initial_spec(),
            p.watermark() == 0,
            p.broadcast_history() == seq![P::initial_spec()],
            p.store_handle() == store,
            p.subscriber_handle() == subscriber,
    {
        let state = P::initial();
        let channel = WatchChannel::new(state.snapshot());
        let ghost applied_log: Seq<PersistedEvent<P::Event>> = Seq::empty();
        proof {
            assert(applied_log.take(0) =~= applied_log);
            assert(state_history::<P>(applied_log) =~= seq![P::initial_spec()]);
        }
        Projector {
            channel,
            store,
            subscriber,
            state,
            last_sequence_number: 0,
            applied_any: false,
            applied_log: Ghost(applied_log),
        }
    }

    /// Provides a new, independent watch handle that observes the engine's
    /// state snapshots. Exactly the most recent broadcast state is pending
    /// for it, however many broadcasts happened before: a handle taken late
    /// starts from what is current, not from a backlog.
    pub fn watch(&self) -> (h: WatchHandle)
        requires
            self.wf(),
        ensures
            h.last_seen() == self.broadcast_history().len() - 1,
    {
        self.channel.subscribe()
    }

    /// One observation of the engine's state through a watch handle: an
    /// independent snapshot of the most recently broadcast state if the
    /// handle has not seen it yet, and nothing otherwise. Intermediate
    /// states broadcast since the handle last looked are skipped, never
    /// queued.
    pub fn observe(&self, h: &mut WatchHandle) -> (r: Option<P>)
        requires
            self.wf(),
        ensures
            old(h).last_seen() < self.broadcast_history().len() ==> {
                &&& r == Some(self.broadcast_history().last())
                &&& final(h).last_seen() == self.broadcast_history().len()
            },
            old(h).last_seen() >= self.broadcast_history().len() ==> {
                &&& r is None
                &&& *final(h) == *old(h)
            },
    {
        self.channel.observe(h)
    }

    /// The current watermark: the highest sequence number folded into the
    /// state so far, or zero if nothing has been applied.
    pub fn current_watermark(&self) -> (n: u32)
        ensures
            n == self.watermark(),
    {
        self.last_sequence_number
    }

    /// How many state updates the engine has broadcast so far; the initial
    /// state does not count.
    pub fn broadcast_count(&self) -> (n: u64)
        requires
            self.wf(),
        ensures
            n == self.broadcast_history().len() - 1,
    {
        self.channel.update_count()
    }

    /// Applies one event from the merged stream: the duplicate of an
    /// already-applied event — one whose sequence number is at or below the
    /// watermark, once anything has been applied — is discarded, with no
    /// state change and no broadcast; any other event is folded into the
    /// state, moves the watermark up to its sequence number, and the new
    /// state is broadcast. Returns whether the event was applied.
    pub fn apply_event(&mut self, event: PersistedEvent<P::Event>) -> (applied: bool)
        requires
            old(self).wf(),
            old(self).broadcast_history().len() < u64::MAX,
        ensures
            final(self).wf(),
            final(self).store_handle() == old(self).store_handle(),
            final(self).subscriber_handle() == old(self).subscriber_handle(),
            duplicate_of(last_watermark(old(self).applied()), event) ==> {
                &&& !applied
                &&& *final(self) == *old(self)
            },
            !duplicate_of(last_watermark(old(self).applied()), event) ==> {
                &&& applied
                &&& final(self).applied() == old(self).applied().push(event)
                &&& final(self).projection_state() == P::project_spec(
                    old(self).projection_state(),
                    event,
                )
            },
    {
        let ghost ev = event;
        let ghost prev = self.applied_log@;

        // Load the current watermark once; the later update is a
        // compare-and-set against this loaded value.
        let expected_sequence_number = self.last_sequence_number;
        let event_sequence_number = event.sequence_number;

        if self.applied_any && event_sequence_number <= expected_sequence_number {
            // Duplicated event detected: its number was already applied.
            return false;
        }
        self.state = P::project(self.state.snapshot(), event);
        compare_and_set(
            &mut self.last_sequence_number,
            expected_sequence_number,
            event_sequence_number,
        );
        self.applied_any = true;
        proof {
            self.applied_log@ = prev.push(ev);
            assert(prev.push(ev).drop_last() =~= prev);
            lemma_state_history_push::<P>(prev, ev);
            assert forall|i: int, j: int| 0 <= i < j < prev.push(ev).len() implies prev.push(
                ev,
            )[i].sequence_number < prev.push(ev)[j].sequence_number by {
                if j == prev.len() && i < j {
                    if i < prev.len() - 1 {
                        assert(prev[i].sequence_number < prev[prev.len() - 1].sequence_number);
                    }
                    assert(prev[i].sequence_number <= watermark_value(last_watermark(prev)));
                }
            }
        }
        // Notify watchers of the latest projection state. The engine holds
        // its own channel, so this cannot fail.
        self.channel.publish(self.state.snapshot());
        true
    }

    /// Handles one delivery of the merged stream: applies an event as
    /// [`Self::apply_event`] does, and turns a failed read into the fatal
    /// run error, leaving the engine untouched.
    pub fn apply_item(&mut self, item: StreamItem<P::Event>) -> (r: Result<bool, ProjectorError>)
        requires
            old(self).wf(),
            old(self).broadcast_history().len() < u64::MAX,
        ensures
            final(self).wf(),
            final(self).store_handle() == old(self).store_handle(),
            final(self).subscriber_handle() == old(self).subscriber_handle(),
            (match item {
                Ok(event) => {
                    &&& r == Ok::<bool, ProjectorError>(
                        !duplicate_of(last_watermark(old(self).applied()), event),
                    )
                    &&& duplicate_of(last_watermark(old(self).applied()), event) ==> *final(self)
                        == *old(self)
                    &&& !duplicate_of(last_watermark(old(self).applied()), event) ==> {
                        &&& final(self).applied() == old(self).applied().push(event)
                        &&& final(self).projection_state() == P::project_spec(
                            old(self).projection_state(),
                            event,
                        )
                    }
                },
                Err(e) => {
                    &&& r == Err::<bool, ProjectorError>(ProjectorError::StreamItem(e))
                    &&& *final(self) == *old(self)
                },
            }),
    {
        match item {
            Ok(event) => Ok(self.apply_event(event)),
            Err(e) => Err(ProjectorError::StreamItem(e)),
        }
    }

    /// Processes the items of the merged stream in arrival order, stopping
    /// at the first failed read.
    fn process_items(&mut self, items: Vec<StreamItem<P::Event>>) -> (r: Result<
        (),
        ProjectorError,
    >)
        requires
            old(self).wf(),
            old(self).broadcast_history().len() + items@.len() <= u64::MAX,
        ensures
            final(self).wf(),
            final(self).store_handle() == old(self).store_handle(),
            final(self).subscriber_handle() == old(self).subscriber_handle(),
            final(self).applied() == old(self).applied() + applied_events(
                last_watermark(old(self).applied()),
                ok_prefix(items@),
            ),
            final(self).watermark() == watermark_value(
                watermark_after(last_watermark(old(self).applied()), ok_prefix(items@)),
            ),
            (match first_error(items@) {
                None => r == Ok::<(), ProjectorError>(()),
                Some(e) => r == Err::<(), ProjectorError>(ProjectorError::StreamItem(e)),
            }),
        decreases items@.len(),
    {
        let ghost all = items@;
        let ghost start = last_watermark(old(self).applied());
        let mut items = items;
        if items.len() == 0 {
            proof {
                assert(self.applied() =~= old(self).applied() + applied_events(
                    start,
                    ok_prefix(all),
                ));
            }
            return Ok(());
        }
        let item = items.remove(0);
        let ghost it = item;
        proof {
            assert(items@ =~= all.drop_first());
        }
        match self.apply_item(item) {
            Ok(_) => {},
            Err(err) => {
                proof {
                    assert(self.applied() =~= old(self).applied() + applied_events(
                        start,
                        ok_prefix(all),
                    ));
                }
                return Err(err);
            },
        }
        let ghost mid = *self;
        let r = self.process_items(items);
        proof {
            let e = it->Ok_0;
            let rest = ok_prefix(all.drop_first());
            assert((seq![e] + rest)[0] == e);
            assert((seq![e] + rest).drop_first() =~= rest);
            if duplicate_of(start, e) {
                assert(self.applied() =~= old(self).applied() + applied_events(
                    start,
                    ok_prefix(all),
                ));
            } else {
                assert(mid.applied() == old(self).applied().push(e));
                assert(last_watermark(mid.applied()) == Some(e.sequence_number));
                assert(self.applied() =~= old(self).applied() + applied_events(
                    start,
                    ok_prefix(all),
                ));
            }
        }
        r
    }

    /// One run of the engine over the event source's deliveries.
    ///
    /// The live subscription is opened before the catch-up query, so that no
    /// event appended while catch-up is read can be missed; the price is
    /// that events appended between the two opens may arrive twice, once per
    /// stream, and the watermark discards those duplicates. The merged
    /// stream is the whole catch-up stream followed by the live stream, and
    /// is processed in arrival order, each applied event broadcast in turn.
    ///
    /// A failed open of either stream, or a failed read of any item, ends
    /// the run immediately with that error; everything applied before the
    /// failure is kept and remains observable through the watch handles.
    /// The caller drives the two streams and hands their outcome in:
    /// `subscription` is the live stream (or its open failure), `catch_up`
    /// the historical stream (or its open failure), and the engine must not
    /// be run concurrently with itself — it is the single writer of its
    /// state.
    pub fn run(
        &mut self,
        subscription: Result<Vec<StreamItem<P::Event>>, StreamError>,
        catch_up: Result<Vec<StreamItem<P::Event>>, StreamError>,
    ) -> (r: Result<(), ProjectorError>)
        requires
            old(self).wf(),
            (match (subscription, catch_up) {
                (Ok(live), Ok(catch)) => old(self).broadcast_history().len() + catch@.len()
                    + live@.len() <= u64::MAX,
                _ => true,
            }),
        ensures
            final(self).wf(),
            final(self).store_handle() == old(self).store_handle(),
            final(self).subscriber_handle() == old(self).subscriber_handle(),
            (match (subscription, catch_up) {
                (Err(e), _) => {
                    &&& r == Err::<(), ProjectorError>(ProjectorError::SubscriptionOpen(e))
                    &&& *final(self) == *old(self)
                },
                (Ok(_), Err(e)) => {
                    &&& r == Err::<(), ProjectorError>(ProjectorError::CatchUpOpen(e))
                    &&& *final(self) == *old(self)
                },
                (Ok(live), Ok(catch)) => {
                    &&& final(self).applied() == old(self).applied() + applied_events(
                        last_watermark(old(self).applied()),
                        ok_prefix(catch@ + live@),
                    )
                    &&& final(self).watermark() == watermark_value(
                        watermark_after(
                            last_watermark(old(self).applied()),
                            ok_prefix(catch@ + live@),
                        ),
                    )
                    &&& (match first_error(catch@ + live@) {
                        None => r == Ok::<(), ProjectorError>(()),
                        Some(e) => r == Err::<(), ProjectorError>(ProjectorError::StreamItem(e)),
                    })
                },
            }),
    {
        // Open the subscription first, so that once it is established we
        // receive events right away; the one-off catch-up read follows.
        let mut live = match subscription {
            Ok(v) => v,
            Err(e) => {
                return Err(ProjectorError::SubscriptionOpen(e));
            },
        };
        let mut merged = match catch_up {
            Ok(v) => v,
            Err(e) => {
                return Err(ProjectorError::CatchUpOpen(e));
            },
        };
        merged.append(&mut live);
        self.process_items(merged)
    }
}

/// The engine's watermark update: an explicit compare-and-set rather than a
/// plain store. It writes the new value only where the watermark still
/// holds the value loaded at the start of the step, and reports what it
/// found. Under the engine's single-writer contract the exchange always
/// succeeds; the read-modify-write shape is kept so that the update stays
/// safe if the engine is ever extended to several concurrent writers.
fn compare_and_set(watermark: &mut u32, expected: u32, new: u32) -> (previous: u32)
    ensures
        previous == *old(watermark),
        *final(watermark) == if *old(watermark) == expected {
            new
        } else {
            *old(watermark)
        },
{
    let previous = *watermark;
    if previous == expected {
        *watermark = new;
    }
    previous
}

} // verus!
