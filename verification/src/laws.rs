use vstd::prelude::*;

use crate::event::PersistedEvent;
use crate::projection::{fold_events, Projection};
use crate::projector::Projector;
use crate::source::{EventStore, EventSubscriber};
use crate::stream::{
    applied_events, events_above, last_watermark, lemma_applied_events_above,
    lemma_applied_events_append, lemma_events_above_shape, lemma_increasing_events_all_applied,
    strictly_increasing, watermark_after, watermark_value,
};

verus! {

/// Catch-up-only replay: when events arrive with strictly increasing,
/// distinct sequence numbers — as the catch-up stream delivers them, with
/// nothing live behind it — the engine applies every one of them, in order,
/// and its watermark ends at the last sequence number. With
/// [`Projector::run`]'s contract and [`Projector::wf`], a fresh engine run
/// over such a delivery therefore ends in the state
/// `fold_events(P::initial_spec(), events)`: the fold of the whole
/// delivery, one application per event.
pub proof fn law_catch_up_replay<E>(events: Seq<PersistedEvent<E>>)
    requires
        strictly_increasing(events),
    ensures
        applied_events(None, events) == events,
        watermark_after(None, events) == last_watermark(events),
{
    lemma_increasing_events_all_applied(None, events);
}

/// Idempotence under overlap: when the live stream repeats a trailing part
/// of the catch-up stream, the engine folds each event exactly once.
/// Everything of the catch-up stream is applied; of the live stream,
/// exactly the events strictly above the watermark left by catch-up
/// survive — every repeated sequence number, the boundary one included, is
/// discarded — and the applied sequence remains strictly increasing: each
/// sequence number exactly once, in ascending order. With
/// [`Projector::run`]'s contract and [`Projector::wf`], the final state is
/// the fold of that sequence and the broadcast count is its length.
pub proof fn law_overlap_folds_once<E>(
    catch: Seq<PersistedEvent<E>>,
    live: Seq<PersistedEvent<E>>,
)
    requires
        catch.len() > 0,
        strictly_increasing(catch),
        strictly_increasing(live),
    ensures
        applied_events(None, catch + live) == catch + events_above(
            live,
            watermark_value(last_watermark(catch)),
        ),
        strictly_increasing(
            catch + events_above(live, watermark_value(last_watermark(catch))),
        ),
{
    let wm = watermark_value(last_watermark(catch));
    lemma_increasing_events_all_applied(None, catch);
    lemma_applied_events_append(None, catch, live);
    lemma_applied_events_above(wm, live);
    lemma_events_above_shape(live, wm);
    let above = events_above(live, wm);
    let whole = catch + above;
    assert forall|i: int, j: int|
        0 <= i < j < whole.len() implies whole[i].sequence_number < whole[j].sequence_number by {
        if j >= catch.len() {
            assert(above[j - catch.len()].sequence_number > wm);
            if i < catch.len() {
                if i < catch.len() - 1 {
                    assert(catch[i].sequence_number < catch[catch.len() - 1].sequence_number);
                }
            } else {
                assert(above[i - catch.len()].sequence_number < above[j
                    - catch.len()].sequence_number);
            }
        }
    }
}

/// Watch-handle initial value: before the engine has applied anything, its
/// broadcast history holds exactly the projection's default/initial state.
/// By [`Projector::watch`]'s and [`Projector::observe`]'s contracts, a
/// handle taken at that point has this one value pending, and its first
/// observation returns it.
pub proof fn law_initial_observation<P, Store, Subscriber>(p: Projector<P, Store, Subscriber>) where
    P: Projection,
    Store: EventStore<SourceId = P::SourceId, Event = P::Event>,
    Subscriber: EventSubscriber<SourceId = P::SourceId, Event = P::Event>,

    requires
        p.wf(),
        p.applied().len() == 0,
    ensures
        p.broadcast_history() == seq![P::initial_spec()],
{
    assert(p.applied().take(0) =~= p.applied());
    assert(p.broadcast_history() =~= seq![P::initial_spec()]);
}

/// Ordering of observations: the broadcast history is exactly the fold
/// history — entry `i` is the fold of the first `i` applied events, whose
/// sequence numbers strictly increase; discarded duplicates leave no entry.
/// [`Projector::observe`] returns only entries of this history, and moves
/// the observing handle's cursor strictly forward to the entry it returns,
/// so the states any one handle observes are fold-history entries at
/// strictly increasing positions: never out of order, never a gap relative
/// to the fold, never a discarded duplicate.
pub proof fn law_observations_follow_fold<P, Store, Subscriber>(
    p: Projector<P, Store, Subscriber>,
) where
    P: Projection,
    Store: EventStore<SourceId = P::SourceId, Event = P::Event>,
    Subscriber: EventSubscriber<SourceId = P::SourceId, Event = P::Event>,

    requires
        p.wf(),
    ensures
        p.broadcast_history().len() == p.applied().len() + 1,
        forall|i: int|
            0 <= i <= p.applied().len() ==> p.broadcast_history()[i] == fold_events(
                P::initial_spec(),
                p.applied().take(i),
            ),
        strictly_increasing(p.applied()),
{
}

} // verus!
