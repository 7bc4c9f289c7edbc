//! Retained bytes of single connections.
use phonowire::retention::Retention;
use phonowire::{ByteBudget, ConnectionId, Record, RecordKind, WireOffset};
use std::time::Instant;

fn record(kind: RecordKind) -> Record {
    Record {
        connection: ConnectionId::new(1, 2),
        offset: WireOffset::new(0),
        observed_at: Instant::now(),
        kind,
    }
}

#[test]
fn bytes_are_held_by_the_connection_that_they_were_added_for() {
    let mut retention = Retention::new();
    let one = ConnectionId::new(7, 2);
    let other = ConnectionId::new(7, 3);
    assert_eq!(retention.of(one), 0);
    assert!(retention.add(one, 24));
    assert!(retention.add(one, 2));
    assert!(retention.add(other, 5));
    assert_eq!((retention.of(one), retention.of(other)), (26, 5));
    assert!(retention.take_off(one, 24));
    assert_eq!((retention.of(one), retention.of(other)), (2, 5));
    assert!(retention.take_off(one, 2));
    assert_eq!((retention.of(one), retention.of(other)), (0, 5));
}

#[test]
fn the_account_refuses_what_it_cannot_hold_or_does_not_have() {
    let mut retention = Retention::new();
    let id = ConnectionId::new(1, 2);
    assert!(!retention.take_off(id, 1));
    assert!(retention.take_off(id, 0));
    assert!(retention.add(id, usize::MAX));
    assert!(!retention.add(id, 1));
    assert_eq!(retention.of(id), usize::MAX);
    assert!(retention.take_off(id, usize::MAX));
    assert!(!retention.take_off(id, 1));
    assert_eq!(retention.of(id), 0);
}

#[test]
fn a_record_is_charged_for_its_bytes_until_they_are_released() {
    let mut budget = ByteBudget::new(8);
    let bytes = budget.try_copy(&[1, 2, 3]).expect("room");
    let wire = record(RecordKind::Wire { bytes });
    assert_eq!(wire.charged_capacity(), 3);
    budget.release(wire.into_bytes().expect("charged"));
    assert_eq!(budget.used(), 0);
    let connected = record(RecordKind::Connected {
        peer: "127.0.0.1:9".to_string(),
    });
    assert_eq!(connected.charged_capacity(), 0);
    assert!(connected.into_bytes().is_none());
}
