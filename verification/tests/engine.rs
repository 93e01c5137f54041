use std::sync::Arc;

use projector::errors::{ProjectorError, StreamError};
use projector::event::PersistedEvent;
use projector::projection::{EventCount, EventDigest, DIGEST_MODULUS};
use projector::projector::{Projector, ProjectorBuilder};
use projector::source::{EventStore, EventSubscriber};

struct DigestStore;

impl EventStore for DigestStore {
    type SourceId = u64;
    type Event = u32;
}

struct DigestFeed;

impl EventSubscriber for DigestFeed {
    type SourceId = u64;
    type Event = u32;
}

struct CountStore;

impl EventStore for CountStore {
    type SourceId = u64;
    type Event = ();
}

struct CountFeed;

impl EventSubscriber for CountFeed {
    type SourceId = u64;
    type Event = ();
}

fn digest_engine() -> Projector<EventDigest, DigestStore, DigestFeed> {
    ProjectorBuilder::new(Arc::new(DigestStore), Arc::new(DigestFeed)).build::<EventDigest>()
}

fn ev(sequence_number: u32, payload: u32) -> Result<PersistedEvent<u32>, StreamError> {
    Ok(PersistedEvent { sequence_number, payload })
}

fn broken(message: &str) -> StreamError {
    StreamError { message: message.to_string() }
}

/// The digest [`EventDigest`] reaches after folding `payloads` in order.
fn digest(payloads: &[u32]) -> u64 {
    let mut d: u64 = 0;
    for &p in payloads {
        d = ((d % DIGEST_MODULUS) * 31 + p as u64) % DIGEST_MODULUS;
    }
    d
}

#[test]
fn catch_up_only_replays_every_event_in_order() {
    let mut p = digest_engine();
    let catch_up = vec![ev(1, 5), ev(2, 6), ev(3, 7)];
    let live = Vec::new();
    let r = p.run(Ok(live), Ok(catch_up));
    assert!(r.is_ok());
    assert_eq!(p.current_watermark(), 3);
    assert_eq!(p.broadcast_count(), 3);
    let mut h = p.watch();
    assert_eq!(p.observe(&mut h), Some(EventDigest { digest: digest(&[5, 6, 7]) }));
}

#[test]
fn overlap_below_the_watermark_is_applied_only_once() {
    let mut p = digest_engine();
    // Live repeats sequence number 2, which catch-up already delivered, and
    // adds the new event 4; the repeat is discarded, so four folds and four
    // broadcasts happen, not five.
    let catch_up = vec![ev(1, 5), ev(2, 6), ev(3, 7)];
    let live = vec![ev(2, 6), ev(4, 8)];
    let r = p.run(Ok(live), Ok(catch_up));
    assert!(r.is_ok());
    assert_eq!(p.current_watermark(), 4);
    assert_eq!(p.broadcast_count(), 4);
    let mut h = p.watch();
    assert_eq!(p.observe(&mut h), Some(EventDigest { digest: digest(&[5, 6, 7, 8]) }));
}

#[test]
fn the_full_overlap_is_folded_exactly_once_each() {
    let mut p = digest_engine();
    // The live feed was opened before catch-up was read, so it repeats the
    // tail of the history — sequence numbers 2 and 3, the boundary event
    // included — before adding the new event 4. Each sequence number is
    // folded exactly once, in ascending order: four folds and four
    // broadcasts, not six.
    let catch_up = vec![ev(1, 5), ev(2, 6), ev(3, 7)];
    let live = vec![ev(2, 6), ev(3, 7), ev(4, 8)];
    let r = p.run(Ok(live), Ok(catch_up));
    assert!(r.is_ok());
    assert_eq!(p.current_watermark(), 4);
    assert_eq!(p.broadcast_count(), 4);
    let mut h = p.watch();
    assert_eq!(p.observe(&mut h), Some(EventDigest { digest: digest(&[5, 6, 7, 8]) }));
}

#[test]
fn events_at_or_below_the_watermark_change_nothing() {
    let mut p = digest_engine();
    assert!(p.apply_event(PersistedEvent { sequence_number: 5, payload: 9 }));
    assert_eq!(p.current_watermark(), 5);
    assert_eq!(p.broadcast_count(), 1);
    // Below the watermark: discarded, no state change, no broadcast.
    assert!(!p.apply_event(PersistedEvent { sequence_number: 3, payload: 100 }));
    // At the watermark: already applied, equally discarded.
    assert!(!p.apply_event(PersistedEvent { sequence_number: 5, payload: 100 }));
    assert_eq!(p.current_watermark(), 5);
    assert_eq!(p.broadcast_count(), 1);
    let mut h = p.watch();
    assert_eq!(p.observe(&mut h), Some(EventDigest { digest: digest(&[9]) }));
}

#[test]
fn a_repeated_sequence_number_is_applied_only_once() {
    let mut p = digest_engine();
    // Two events sharing one sequence number: the second is the duplicate
    // of an already-applied number and is discarded.
    let catch_up = vec![ev(1, 5), ev(1, 6)];
    let r = p.run(Ok(Vec::new()), Ok(catch_up));
    assert!(r.is_ok());
    assert_eq!(p.current_watermark(), 1);
    assert_eq!(p.broadcast_count(), 1);
    let mut h = p.watch();
    assert_eq!(p.observe(&mut h), Some(EventDigest { digest: digest(&[5]) }));
}

#[test]
fn a_first_event_numbered_zero_is_applied() {
    let mut p = digest_engine();
    // Before anything has been applied there is no watermark to fall below:
    // a history that starts at sequence number zero is replayed in full.
    let catch_up = vec![ev(0, 5), ev(1, 6)];
    let r = p.run(Ok(vec![ev(0, 5)]), Ok(catch_up));
    assert!(r.is_ok());
    assert_eq!(p.current_watermark(), 1);
    assert_eq!(p.broadcast_count(), 2);
    let mut h = p.watch();
    assert_eq!(p.observe(&mut h), Some(EventDigest { digest: digest(&[5, 6]) }));
}

#[test]
fn a_failed_read_stops_the_run_and_keeps_applied_state() {
    let mut p = digest_engine();
    let catch_up = vec![ev(1, 5), ev(2, 6), ev(3, 7), Err(broken("disk gone"))];
    let live = vec![ev(4, 8)];
    let r = p.run(Ok(live), Ok(catch_up));
    match r {
        Err(ProjectorError::StreamItem(e)) => assert_eq!(e.message, "disk gone"),
        _ => panic!("expected a stream-item error"),
    }
    // Watermark and state reflect exactly events 1-3; the failed read and
    // everything after it broadcast nothing.
    assert_eq!(p.current_watermark(), 3);
    assert_eq!(p.broadcast_count(), 3);
    let mut h = p.watch();
    assert_eq!(p.observe(&mut h), Some(EventDigest { digest: digest(&[5, 6, 7]) }));
}

#[test]
fn a_failed_subscription_open_fails_the_run_untouched() {
    let mut p = digest_engine();
    let r = p.run(Err(broken("no transport")), Ok(vec![ev(1, 5)]));
    match r {
        Err(ProjectorError::SubscriptionOpen(e)) => assert_eq!(e.message, "no transport"),
        _ => panic!("expected a subscription-open error"),
    }
    assert_eq!(p.current_watermark(), 0);
    assert_eq!(p.broadcast_count(), 0);
    let mut h = p.watch();
    assert_eq!(p.observe(&mut h), Some(EventDigest { digest: 0 }));
}

#[test]
fn a_failed_catch_up_open_fails_the_run_untouched() {
    let mut p = digest_engine();
    let r = p.run(Ok(vec![ev(1, 5)]), Err(broken("bad query")));
    match r {
        Err(ProjectorError::CatchUpOpen(e)) => assert_eq!(e.message, "bad query"),
        _ => panic!("expected a catch-up-open error"),
    }
    assert_eq!(p.current_watermark(), 0);
    assert_eq!(p.broadcast_count(), 0);
}

#[test]
fn a_second_run_continues_from_the_watermark() {
    let mut p = digest_engine();
    assert!(p.run(Ok(Vec::new()), Ok(vec![ev(1, 5), ev(2, 6)])).is_ok());
    // Everything at or below the watermark left by the first run is
    // discarded; the rest is folded on top of the retained state.
    assert!(p.run(Ok(vec![ev(1, 5), ev(3, 7)]), Ok(Vec::new())).is_ok());
    assert_eq!(p.current_watermark(), 3);
    let mut h = p.watch();
    assert_eq!(p.observe(&mut h), Some(EventDigest { digest: digest(&[5, 6, 7]) }));
}

#[test]
fn one_builder_builds_engines_for_several_projections() {
    let store = Arc::new(CountStore);
    let feed = Arc::new(CountFeed);
    let builder = ProjectorBuilder::new(store, feed);
    let mut first = builder.build::<EventCount>();
    let mut second = builder.build::<EventCount>();
    let unit = |n: u32| Ok(PersistedEvent { sequence_number: n, payload: () });
    assert!(first.run(Ok(Vec::new()), Ok(vec![unit(1), unit(2)])).is_ok());
    assert!(second.run(Ok(Vec::new()), Ok(vec![unit(1)])).is_ok());
    let mut h1 = first.watch();
    let mut h2 = second.watch();
    assert_eq!(first.observe(&mut h1), Some(EventCount { count: 2 }));
    assert_eq!(second.observe(&mut h2), Some(EventCount { count: 1 }));
}
