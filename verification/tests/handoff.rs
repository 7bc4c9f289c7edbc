//! The bounded queue between worker and consumer.
use phonowire::handoff::{HandoffQueue, RecvFailure, SendFailure};
use phonowire::signals::{Signal, Signals};
use phonowire::{ConnectionId, Record, RecordKind, WireOffset};
use std::time::Instant;

fn record(offset: u64) -> Record {
    Record {
        connection: ConnectionId::new(1, 1),
        offset: WireOffset::new(offset),
        observed_at: Instant::now(),
        kind: RecordKind::Connected {
            peer: "127.0.0.1:9".to_string(),
        },
    }
}

#[test]
fn full_returns_the_exact_record_and_removal_wakes_credit() {
    let mut queue = HandoffQueue::new(1);
    let mut signals = Signals::new();
    assert!(queue.try_send(record(7)).is_ok(), "first record should fit");
    match queue.try_send(record(8)) {
        Err(SendFailure::Full(returned)) => assert_eq!(returned.offset.get(), 8),
        Err(SendFailure::Disconnected(_)) => panic!("second record should be full"),
        Ok(()) => panic!("second record unexpectedly fit"),
    }
    let received = match queue.try_recv() {
        Ok(record) => record,
        Err(error) => panic!("queued record should be available: {error:?}"),
    };
    signals.publish(Signal::Queue);
    assert_eq!(received.offset.get(), 7);
    assert!(signals.take_queue_credit());
    assert!(!signals.take_queue_credit());
}

#[test]
fn receiver_drop_wakes_disconnection_after_closing_the_channel() {
    let mut queue = HandoffQueue::new(1);
    let mut signals = Signals::new();
    assert!(queue.drop_consumer().is_empty());
    signals.publish(Signal::Disconnected);
    assert!(signals.disconnected());
    match queue.try_send(record(1)) {
        Err(SendFailure::Disconnected(returned)) => {
            assert_eq!(returned.offset.get(), 1);
        }
        Err(SendFailure::Full(_)) => panic!("receiver should be disconnected"),
        Ok(()) => panic!("send unexpectedly succeeded after receiver drop"),
    }
}

#[test]
fn queued_records_outlive_the_worker_and_leave_in_order() {
    let mut queue = HandoffQueue::new(3);
    for offset in 0..3 {
        assert!(queue.try_send(record(offset)).is_ok());
    }
    queue.drop_worker();
    for offset in 0..3 {
        assert_eq!(queue.try_recv().ok().map(|r| r.offset.get()), Some(offset));
    }
    assert!(matches!(queue.try_recv(), Err(RecvFailure::Disconnected)));
    let mut open = HandoffQueue::new(1);
    assert!(matches!(open.try_recv(), Err(RecvFailure::Empty)));
    assert!(open.try_send(record(4)).is_ok());
    let left = open.drop_consumer();
    assert_eq!(left.len(), 1);
    assert_eq!(left[0].offset.get(), 4);
}

#[test]
fn stop_and_disconnection_stay_and_the_first_wake_failure_is_kept() {
    let mut signals = Signals::new();
    assert!(!signals.stop_requested());
    signals.publish(Signal::Stop);
    signals.publish(Signal::Bytes);
    signals.publish(Signal::Bytes);
    assert!(signals.stop_requested());
    assert!(signals.stop_requested());
    assert!(signals.take_byte_credit());
    assert!(!signals.take_byte_credit());
    assert!(signals.take_failure().is_none());
    let first = std::io::Error::new(std::io::ErrorKind::BrokenPipe, "first");
    signals.remember(&first);
    signals.remember(&std::io::Error::other("second"));
    let taken = signals.take_failure().expect("first failure");
    assert_eq!(taken.kind(), std::io::ErrorKind::BrokenPipe);
    assert_eq!(taken.raw_os_error(), None);
    assert_ne!(taken.to_string(), "first", "the text is not kept");
    assert!(signals.take_failure().is_none());
    signals.remember(&std::io::Error::from_raw_os_error(libc::EBADF));
    let taken = signals.take_failure().expect("numbered failure");
    assert_eq!(taken.raw_os_error(), Some(libc::EBADF));
}
