use vstd::prelude::*;

use crate::errors::StreamError;
use crate::event::PersistedEvent;

verus! {

/// One delivery from an event stream: an event, or the stream's error for
/// this particular read.
pub type StreamItem<E> = Result<PersistedEvent<E>, StreamError>;

/// The events of the longest error-free prefix of `items`: everything the
/// engine gets to see before the first failed read, if any.
pub open spec fn ok_prefix<E>(items: Seq<StreamItem<E>>) -> Seq<PersistedEvent<E>>
    decreases items.len(),
{
    if items.len() == 0 {
        Seq::empty()
    } else {
        match items[0] {
            Ok(e) => seq![e] + ok_prefix(items.drop_first()),
            Err(_) => Seq::empty(),
        }
    }
}

/// The first error yielded by `items`, if there is one.
pub open spec fn first_error<E>(items: Seq<StreamItem<E>>) -> Option<StreamError>
    decreases items.len(),
{
    if items.len() == 0 {
        None
    } else {
        match items[0] {
            Ok(_) => first_error(items.drop_first()),
            Err(e) => Some(e),
        }
    }
}

/// Whether an event arriving at watermark `watermark` is the duplicate of an
/// already-applied event: its sequence number is at or below the highest one
/// applied so far. Before anything has been applied there is no watermark
/// (`None`) and nothing is a duplicate — in particular, a first event
/// numbered zero is applied, not discarded.
pub open spec fn duplicate_of<E>(watermark: Option<u32>, e: PersistedEvent<E>) -> bool {
    match watermark {
        Some(w) => e.sequence_number <= w,
        None => false,
    }
}

/// The numeric value of a watermark, zero while nothing has been applied —
/// the value the engine's counter holds.
pub open spec fn watermark_value(watermark: Option<u32>) -> u32 {
    match watermark {
        Some(w) => w,
        None => 0,
    }
}

/// The subsequence of `events` that the engine folds into its state when
/// its watermark starts at `watermark`: a duplicate — an event whose
/// sequence number was already applied, that is, lies at or below the
/// watermark of its arrival — is discarded; every other event is applied,
/// and moves the watermark to its own sequence number.
pub open spec fn applied_events<E>(watermark: Option<u32>, events: Seq<PersistedEvent<E>>) -> Seq<
    PersistedEvent<E>,
>
    decreases events.len(),
{
    if events.len() == 0 {
        Seq::empty()
    } else {
        let e = events[0];
        if duplicate_of(watermark, e) {
            applied_events(watermark, events.drop_first())
        } else {
            seq![e] + applied_events(Some(e.sequence_number), events.drop_first())
        }
    }
}

/// The watermark reached after processing `events` from `watermark`.
pub open spec fn watermark_after<E>(
    watermark: Option<u32>,
    events: Seq<PersistedEvent<E>>,
) -> Option<u32>
    decreases events.len(),
{
    if events.len() == 0 {
        watermark
    } else {
        let e = events[0];
        if duplicate_of(watermark, e) {
            watermark_after(watermark, events.drop_first())
        } else {
            watermark_after(Some(e.sequence_number), events.drop_first())
        }
    }
}

/// The watermark recorded by an applied log: the sequence number of the
/// last applied event, or none before anything has been applied.
pub open spec fn last_watermark<E>(applied: Seq<PersistedEvent<E>>) -> Option<u32> {
    if applied.len() == 0 {
        None
    } else {
        Some(applied.last().sequence_number)
    }
}

/// Sequence numbers strictly increase along `events`: each number appears
/// at most once, in ascending order.
pub open spec fn strictly_increasing<E>(events: Seq<PersistedEvent<E>>) -> bool {
    forall|i: int, j: int|
        0 <= i < j < events.len() ==> events[i].sequence_number < events[j].sequence_number
}

/// The events of `events` whose sequence number is strictly above `bound`,
/// in their original order.
pub open spec fn events_above<E>(events: Seq<PersistedEvent<E>>, bound: u32) -> Seq<
    PersistedEvent<E>,
>
    decreases events.len(),
{
    if events.len() == 0 {
        Seq::empty()
    } else if events[0].sequence_number > bound {
        seq![events[0]] + events_above(events.drop_first(), bound)
    } else {
        events_above(events.drop_first(), bound)
    }
}

/// Processing a concatenation of two batches is processing the first batch
/// and then the second, from the watermark the first one reached.
pub proof fn lemma_applied_events_append<E>(
    watermark: Option<u32>,
    s: Seq<PersistedEvent<E>>,
    t: Seq<PersistedEvent<E>>,
)
    ensures
        applied_events(watermark, s + t) == applied_events(watermark, s) + applied_events(
            watermark_after(watermark, s),
            t,
        ),
        watermark_after(watermark, s + t) == watermark_after(watermark_after(watermark, s), t),
    decreases s.len(),
{
    if s.len() == 0 {
        assert(s + t =~= t);
        assert(applied_events(watermark, s) + applied_events(watermark, t) =~= applied_events(
            watermark,
            t,
        ));
    } else {
        let e = s[0];
        assert((s + t)[0] == e);
        assert((s + t).drop_first() =~= s.drop_first() + t);
        if duplicate_of(watermark, e) {
            lemma_applied_events_append(watermark, s.drop_first(), t);
        } else {
            lemma_applied_events_append(Some(e.sequence_number), s.drop_first(), t);
            let a = applied_events(Some(e.sequence_number), s.drop_first());
            let b = applied_events(
                watermark_after(Some(e.sequence_number), s.drop_first()),
                t,
            );
            assert(seq![e] + (a + b) =~= (seq![e] + a) + b);
        }
    }
}

/// Events arriving with strictly increasing, distinct sequence numbers are
/// all applied: none of them repeats anything below the watermark they
/// build up.
pub proof fn lemma_increasing_events_all_applied<E>(
    watermark: Option<u32>,
    events: Seq<PersistedEvent<E>>,
)
    requires
        strictly_increasing(events),
        events.len() > 0 ==> !duplicate_of(watermark, events[0]),
    ensures
        applied_events(watermark, events) == events,
        watermark_after(watermark, events) == if events.len() == 0 {
            watermark
        } else {
            Some(events.last().sequence_number)
        },
    decreases events.len(),
{
    if events.len() == 0 {
        assert(applied_events(watermark, events) =~= events);
    } else {
        let e = events[0];
        assert(strictly_increasing(events.drop_first()));
        if events.len() > 1 {
            assert(events.drop_first()[0] == events[1]);
            assert(e.sequence_number < events[1].sequence_number);
        }
        lemma_increasing_events_all_applied(Some(e.sequence_number), events.drop_first());
        assert(seq![e] + events.drop_first() =~= events);
        if events.len() > 1 {
            assert(events.drop_first().last() == events.last());
        }
    }
}

/// Everything in `events` sits strictly above `bound`: the filter keeps all
/// of it.
pub proof fn lemma_events_above_keeps_all<E>(events: Seq<PersistedEvent<E>>, bound: u32)
    requires
        forall|i: int| 0 <= i < events.len() ==> events[i].sequence_number > bound,
    ensures
        events_above(events, bound) == events,
    decreases events.len(),
{
    if events.len() == 0 {
        assert(events_above(events, bound) =~= events);
    } else {
        lemma_events_above_keeps_all(events.drop_first(), bound);
        assert(seq![events[0]] + events.drop_first() =~= events);
    }
}

/// The filtered sequence keeps the order and stays above the bound.
pub proof fn lemma_events_above_shape<E>(events: Seq<PersistedEvent<E>>, bound: u32)
    requires
        strictly_increasing(events),
    ensures
        strictly_increasing(events_above(events, bound)),
        forall|i: int|
            0 <= i < events_above(events, bound).len() ==> events_above(
                events,
                bound,
            )[i].sequence_number > bound,
    decreases events.len(),
{
    if events.len() == 0 {
    } else {
        assert(strictly_increasing(events.drop_first()));
        lemma_events_above_shape(events.drop_first(), bound);
        if events[0].sequence_number > bound {
            let rest = events_above(events.drop_first(), bound);
            lemma_events_above_is_subset(events.drop_first(), bound);
            assert forall|i: int, j: int|
                0 <= i < j < (seq![events[0]] + rest).len() implies (seq![events[0]]
                + rest)[i].sequence_number < (seq![events[0]] + rest)[j].sequence_number by {
                if i == 0 {
                    let w = choose|w: int|
                        0 <= w < events.drop_first().len() && events.drop_first()[w] == rest[j - 1];
                    assert(events[0].sequence_number < events.drop_first()[w].sequence_number);
                }
            }
        }
    }
}

/// Every filtered event comes from the original sequence.
pub proof fn lemma_events_above_is_subset<E>(events: Seq<PersistedEvent<E>>, bound: u32)
    ensures
        forall|j: int| #![trigger events_above(events, bound)[j]]
            0 <= j < events_above(events, bound).len() ==> exists|w: int|
                0 <= w < events.len() && events[w] == events_above(events, bound)[j],
    decreases events.len(),
{
    if events.len() == 0 {
    } else {
        lemma_events_above_is_subset(events.drop_first(), bound);
        let rest = events_above(events.drop_first(), bound);
        assert forall|j: int| #![trigger events_above(events, bound)[j]]
            0 <= j < events_above(events, bound).len() implies exists|w: int|
            0 <= w < events.len() && events[w] == events_above(events, bound)[j] by {
            if events[0].sequence_number > bound {
                if j == 0 {
                    assert(events[0] == events_above(events, bound)[0]);
                } else {
                    let w = choose|w: int|
                        0 <= w < events.drop_first().len() && events.drop_first()[w] == rest[j - 1];
                    assert(events[w + 1] == events_above(events, bound)[j]);
                }
            } else {
                let w = choose|w: int|
                    0 <= w < events.drop_first().len() && events.drop_first()[w] == rest[j];
                assert(events[w + 1] == events_above(events, bound)[j]);
            }
        }
    }
}

/// From an established watermark, the engine applies exactly the events
/// strictly above it: everything at or below is discarded as a duplicate.
pub proof fn lemma_applied_events_above<E>(watermark: u32, events: Seq<PersistedEvent<E>>)
    requires
        strictly_increasing(events),
    ensures
        applied_events(Some(watermark), events) == events_above(events, watermark),
    decreases events.len(),
{
    if events.len() == 0 {
        assert(applied_events(Some(watermark), events) =~= events_above(events, watermark));
    } else {
        let e = events[0];
        assert(strictly_increasing(events.drop_first()));
        if e.sequence_number <= watermark {
            lemma_applied_events_above(watermark, events.drop_first());
        } else {
            assert(forall|i: int|
                0 <= i < events.drop_first().len() ==> events.drop_first()[i].sequence_number
                    > e.sequence_number);
            lemma_events_above_keeps_all(events.drop_first(), e.sequence_number);
            lemma_events_above_keeps_all(events.drop_first(), watermark);
            lemma_increasing_events_all_applied(
                Some(e.sequence_number),
                events.drop_first(),
            );
        }
    }
}

} // verus!
