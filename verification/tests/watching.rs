use std::sync::Arc;

use projector::event::PersistedEvent;
use projector::projection::{EventDigest, DIGEST_MODULUS};
use projector::projector::{Projector, ProjectorBuilder};
use projector::source::{EventStore, EventSubscriber};
use projector::watch::WatchChannel;

struct DigestStore;

impl EventStore for DigestStore {
    type SourceId = u64;
    type Event = u32;
}

struct DigestFeed;

impl EventSubscriber for DigestFeed {
    type SourceId = u64;
    type Event = u32;
}

fn digest_engine() -> Projector<EventDigest, DigestStore, DigestFeed> {
    ProjectorBuilder::new(Arc::new(DigestStore), Arc::new(DigestFeed)).build::<EventDigest>()
}

fn step(d: u64, payload: u32) -> u64 {
    ((d % DIGEST_MODULUS) * 31 + payload as u64) % DIGEST_MODULUS
}

#[test]
fn a_handle_taken_before_a_run_observes_the_initial_state_first() {
    let p = digest_engine();
    let mut h = p.watch();
    assert_eq!(p.observe(&mut h), Some(EventDigest { digest: 0 }));
    // Nothing new was broadcast, so nothing more is pending.
    assert_eq!(p.observe(&mut h), None);
}

#[test]
fn a_late_handle_observes_only_the_most_recent_state() {
    let mut p = digest_engine();
    let catch_up = vec![
        Ok(PersistedEvent { sequence_number: 1, payload: 5 }),
        Ok(PersistedEvent { sequence_number: 2, payload: 6 }),
        Ok(PersistedEvent { sequence_number: 3, payload: 7 }),
    ];
    assert!(p.run(Ok(Vec::new()), Ok(catch_up)).is_ok());
    // The handle joins after three updates: exactly the latest state is
    // pending — no backlog of the earlier ones.
    let mut h = p.watch();
    let latest = step(step(step(0, 5), 6), 7);
    assert_eq!(p.observe(&mut h), Some(EventDigest { digest: latest }));
    assert_eq!(p.observe(&mut h), None);
}

#[test]
fn observed_states_follow_the_fold_in_order_without_gaps() {
    let mut p = digest_engine();
    let mut h = p.watch();
    let mut expected: u64 = 0;
    let mut seen = Vec::new();
    for (seq, payload) in [(1u32, 5u32), (2, 6), (3, 7)] {
        assert!(p.apply_event(PersistedEvent { sequence_number: seq, payload }));
        expected = step(expected, payload);
        seen.push(p.observe(&mut h).expect("a new state must be pending").digest);
    }
    // An observer that keeps up sees every distinct applied state, in the
    // exact order the engine folded them.
    assert_eq!(seen, vec![step(0, 5), step(step(0, 5), 6), expected]);
}

#[test]
fn a_slow_observer_skips_intermediate_states_but_never_reorders() {
    let mut p = digest_engine();
    let mut h = p.watch();
    assert!(p.apply_event(PersistedEvent { sequence_number: 1, payload: 5 }));
    assert!(p.apply_event(PersistedEvent { sequence_number: 2, payload: 6 }));
    // Two updates since the handle last looked: only the newer one arrives.
    assert_eq!(p.observe(&mut h), Some(EventDigest { digest: step(step(0, 5), 6) }));
    assert_eq!(p.observe(&mut h), None);
}

#[test]
fn each_handle_tracks_its_own_position() {
    let mut p = digest_engine();
    let mut early = p.watch();
    assert_eq!(p.observe(&mut early), Some(EventDigest { digest: 0 }));
    assert!(p.apply_event(PersistedEvent { sequence_number: 1, payload: 5 }));
    let mut late = p.watch();
    assert_eq!(p.observe(&mut early), Some(EventDigest { digest: step(0, 5) }));
    assert_eq!(p.observe(&mut late), Some(EventDigest { digest: step(0, 5) }));
    assert_eq!(p.observe(&mut early), None);
    assert_eq!(p.observe(&mut late), None);
}

#[test]
fn the_channel_alone_is_last_value_wins() {
    let mut c: WatchChannel<EventDigest> = WatchChannel::new(EventDigest { digest: 1 });
    let mut h = c.subscribe();
    assert_eq!(c.update_count(), 0);
    c.publish(EventDigest { digest: 2 });
    c.publish(EventDigest { digest: 3 });
    assert_eq!(c.update_count(), 2);
    // The value current at subscription time was overwritten before the
    // observer looked: it sees only the latest.
    assert_eq!(c.observe(&mut h), Some(EventDigest { digest: 3 }));
    assert_eq!(c.observe(&mut h), None);
    c.publish(EventDigest { digest: 4 });
    assert_eq!(c.observe(&mut h), Some(EventDigest { digest: 4 }));
}
