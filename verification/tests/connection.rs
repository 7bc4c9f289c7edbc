//! Controlled reads through decoder, session, byte budget and queue.
use phonowire::connection::{Action, Connection, ReadOutcome, SendOutcome};
use phonowire::handoff::{HandoffQueue, SendFailure};
use phonowire::scheduler::{Scheduler, WaitReason};
use phonowire::signals::{Signal, Signals};
use phonowire::task::TaskContext;
use phonowire::{
    BudgetError, ByteBudget, ConnectionId, DecodeError, EndReason, FinishError, IncomingProfile,
    IncomingSessionError, OwnedBytes, Record, RecordKind, TypedMessageError,
};

const FRAME: [u8; 27] = [
    1, 0, 16, 1, 0, 0, 0, 0, 0, 0, 0, 0, 0, 0, 0, 0, 0, 0, 1, 0x10, 0, 2, 7, 9, 0, 0, 0,
];
const TOKEN: usize = 2;

struct Input {
    bytes: Vec<u8>,
    at: usize,
    cap: usize,
}

struct Harness {
    connection: Connection,
    scheduler: Scheduler,
    signals: Signals,
    budget: ByteBudget,
    queue: HandoffQueue,
    input: Input,
}

impl Harness {
    fn new(slots: usize, budget: ByteBudget, input: &[u8], cap: usize) -> Self {
        let mut scheduler = Scheduler::new(1);
        scheduler.insert(TOKEN);
        let context =
            TaskContext::new(ConnectionId::new(1, TOKEN), "127.0.0.1:9".to_string(), TOKEN);
        let limit = budget.capacity();
        Self {
            connection: Connection::new(context, 64, IncomingProfile::default(), limit),
            scheduler,
            signals: Signals::new(),
            budget,
            queue: HandoffQueue::new(slots),
            input: Input {
                bytes: input.to_vec(),
                at: 0,
                cap,
            },
        }
    }

    fn poll(&mut self) -> bool {
        self.poll_with(128)
    }

    fn poll_with(&mut self, steps: usize) -> bool {
        assert_eq!(self.scheduler.take(), Some(TOKEN));
        self.connection.reset_turn(steps);
        loop {
            match self.connection.poll(&mut self.scheduler, &mut self.budget) {
                Action::Yield => {
                    assert!(self.scheduler.verify_pending(TOKEN));
                    return false;
                }
                Action::Done => return true,
                Action::Read => {
                    let end = self
                        .input
                        .bytes
                        .len()
                        .min(self.input.at + self.input.cap.min(4096));
                    let chunk = self.input.bytes[self.input.at..end].to_vec();
                    self.input.at = end;
                    assert!(self
                        .connection
                        .read_done(&mut self.scheduler, ReadOutcome::Bytes(&chunk)));
                }
                Action::Send => {
                    let record = self.connection.take_record();
                    let outcome = match self.queue.try_send(record) {
                        Ok(()) => SendOutcome::Accepted,
                        Err(SendFailure::Full(record)) => SendOutcome::Full(record),
                        Err(SendFailure::Disconnected(_)) => SendOutcome::Disconnected,
                    };
                    if !self.connection.sent(&mut self.scheduler, outcome) {
                        assert!(self.scheduler.verify_pending(TOKEN));
                        return false;
                    }
                }
            }
        }
    }

    fn resume(&mut self) {
        if self.signals.take_queue_credit() {
            self.scheduler.resume_credit(WaitReason::Queue);
        }
        if self.signals.take_byte_credit() {
            self.scheduler.resume_credit(WaitReason::Bytes);
        }
    }

    fn receive(&mut self) -> Option<Record> {
        match self.queue.try_recv() {
            Ok(record) => {
                self.signals.publish(Signal::Queue);
                Some(record)
            }
            Err(_) => None,
        }
    }

    fn release(&mut self, bytes: OwnedBytes) {
        if self.budget.release(bytes).is_some() {
            self.signals.publish(Signal::Bytes);
        }
    }

    fn run_to_end(mut self) -> Vec<Record> {
        let mut records = Vec::new();
        for _ in 0..1024 {
            let finished = self.poll();
            while let Some(record) = self.receive() {
                records.push(record);
            }
            if finished {
                return records;
            }
            self.resume();
        }
        panic!("connection did not end");
    }
}

fn last_reason(input: &[u8], budget: usize) -> (u64, bool, EndReason) {
    let records = Harness::new(64, ByteBudget::new(budget), input, 4096).run_to_end();
    let last = records.into_iter().last().expect("terminal record");
    let offset = last.offset.get();
    match last.kind {
        RecordKind::Ended { uuid, reason } => (offset, uuid.is_some(), reason),
        _ => panic!("last record is not terminal"),
    }
}

#[test]
fn held_wire_blocks_audio_copy_until_last_drop_without_more_input() {
    let mut budget = ByteBudget::new(FRAME.len());
    let _subscription = budget.subscribe(1).expect("subscription");
    let mut test = Harness::new(8, budget, &FRAME, 4096);
    assert!(!test.poll());
    let progress = test.connection.context().progress();
    assert_eq!(progress.read, 27);
    assert_eq!(progress.consumed, 24);
    assert!(!progress.pending_record);
    assert!(!test.scheduler.has_ready());
    assert_eq!(test.budget.used(), 27);
    assert!(matches!(
        test.receive().expect("connected").kind,
        RecordKind::Connected { .. }
    ));
    let wire = test.receive().expect("wire");
    assert!(matches!(&wire.kind, RecordKind::Wire { bytes } if bytes.as_slice() == FRAME));
    assert!(matches!(
        test.receive().expect("started").kind,
        RecordKind::Started { .. }
    ));
    assert!(test.receive().is_none());
    test.resume();
    assert!(
        !test.scheduler.has_ready(),
        "queue slots cannot resume a byte wait"
    );
    test.release(wire.into_bytes().expect("wire bytes"));
    test.resume();
    assert!(test.poll());
    let audio = test.receive().expect("audio");
    assert!(matches!(&audio.kind, RecordKind::Audio { bytes, .. } if bytes.as_slice() == [7, 9]));
    assert!(matches!(
        test.receive().expect("terminal").kind,
        RecordKind::Ended {
            reason: EndReason::Terminate,
            ..
        }
    ));
    assert_eq!(test.connection.context().progress().read, 27);
    test.release(audio.into_bytes().expect("audio bytes"));
    test.scheduler.retire(TOKEN);
    assert_eq!(test.budget.used(), 0);
}

#[test]
fn full_queue_retains_one_pending_record_until_cancellation() {
    let mut test = Harness::new(1, ByteBudget::new(4096), &FRAME, 4096);
    assert!(!test.poll());
    let progress = test.connection.context().progress();
    assert!(progress.pending_record);
    assert_eq!(progress.records_queued, 1);
    assert_eq!(progress.read, 27);
    assert_eq!(progress.wire_queued, 0);
    assert!(!test.scheduler.has_ready());
    assert_eq!(test.budget.used(), 27);
    let Harness {
        connection,
        mut scheduler,
        mut budget,
        mut queue,
        ..
    } = test;
    let pending = connection.into_record().expect("one pending record");
    scheduler.retire(TOKEN);
    budget.release(pending.into_bytes().expect("wire bytes"));
    assert_eq!(budget.used(), 0);
    assert!(matches!(
        queue.try_recv().ok().expect("queued record survives task").kind,
        RecordKind::Connected { .. }
    ));
    assert!(queue.try_recv().is_err());
}

#[test]
fn controlled_read_sizes_preserve_wire_pcm_offsets_and_end() {
    for cap in [1, 2, 3, 7, 24, 27] {
        let mut test = Harness::new(1, ByteBudget::new(4096), &FRAME, cap);
        let mut raw: Vec<u8> = Vec::new();
        let mut audio = Vec::new();
        let mut ended = false;
        for _ in 0..128 {
            let finished = test.poll();
            while let Some(record) = test.receive() {
                let offset = record.offset.get();
                match record.kind {
                    RecordKind::Wire { bytes } => {
                        assert_eq!(offset, u64::try_from(raw.len()).expect("offset"));
                        raw.extend_from_slice(bytes.as_slice());
                        test.release(bytes);
                    }
                    RecordKind::Audio { bytes, .. } => {
                        assert!(raw.len() >= 24);
                        assert_eq!(offset, 24);
                        audio.extend_from_slice(bytes.as_slice());
                        test.release(bytes);
                    }
                    RecordKind::Started { .. } => assert_eq!(offset, 19),
                    RecordKind::Ended {
                        reason: EndReason::Terminate,
                        ..
                    } => {
                        assert_eq!(offset, 27);
                        ended = true;
                    }
                    RecordKind::Connected { .. } => {}
                    _ => panic!("unexpected record"),
                }
            }
            if finished {
                break;
            }
            test.resume();
        }
        assert!(ended);
        assert_eq!(raw, FRAME);
        assert_eq!(audio, [7, 9]);
        test.scheduler.retire(TOKEN);
        assert_eq!(test.budget.used(), 0);
    }
}

#[test]
fn one_step_turns_reach_the_end_of_the_stream() {
    let mut test = Harness::new(64, ByteBudget::new(4096), &FRAME, 5);
    let mut turns = 0;
    while !test.poll_with(1) {
        turns += 1;
        assert!(turns < 200, "every turn makes progress");
    }
    let progress = test.connection.context().progress();
    assert_eq!(progress.read, 27);
    assert_eq!(progress.wire_queued, 27);
    assert!(progress.terminal_queued);
}

#[test]
fn every_terminal_reason_comes_at_its_offset() {
    assert!(matches!(
        last_reason(&FRAME[..19], 4096),
        (19, true, EndReason::CleanEof)
    ));
    assert!(matches!(
        last_reason(&[], 4096),
        (0, false, EndReason::CleanEof)
    ));
    assert!(matches!(
        last_reason(&FRAME, 4096),
        (27, true, EndReason::Terminate)
    ));
    assert!(matches!(
        last_reason(&FRAME[..22], 4096),
        (
            22,
            true,
            EndReason::Truncated(FinishError::TruncatedPayload {
                expected: 2,
                received: 0
            })
        )
    ));
    assert!(matches!(
        last_reason(&[1, 0, 15, 0, 0, 0, 0, 0, 0, 0, 0, 0, 0, 0, 0, 0, 0, 0], 4096),
        (18, false, EndReason::InvalidMessage(TypedMessageError::UuidLength))
    ));
    assert!(matches!(
        last_reason(&[2, 0, 65, 0], 4096),
        (
            3,
            false,
            EndReason::Decode(DecodeError::ResourceLimit {
                required: 65,
                capacity: 64
            })
        )
    ));
    assert!(matches!(
        last_reason(&[0x10, 0, 0], 4096),
        (3, false, EndReason::Policy(IncomingSessionError::MissingUuid))
    ));
    match last_reason(&[0xff, 0, 2, 4, 5], 4096) {
        (5, false, EndReason::PeerError(bytes)) => assert_eq!(bytes.as_slice(), [4, 5]),
        _ => panic!("peer error expected"),
    }
    assert!(matches!(
        last_reason(&[0xff, 0, 2, 4, 5], 4),
        (
            0,
            false,
            EndReason::ResourceRefused(BudgetError::TooLarge {
                required: 5,
                capacity: 4
            })
        )
    ));
}

#[test]
fn a_failed_read_and_a_lost_consumer_end_the_connection() {
    let mut test = Harness::new(8, ByteBudget::new(64), &[], 1);
    assert_eq!(test.scheduler.take(), Some(TOKEN));
    test.connection.reset_turn(8);
    assert_eq!(
        test.connection.poll(&mut test.scheduler, &mut test.budget),
        Action::Send
    );
    assert!(matches!(
        test.connection.take_record().kind,
        RecordKind::Connected { .. }
    ));
    assert!(test
        .connection
        .sent(&mut test.scheduler, SendOutcome::Accepted));
    assert_eq!(
        test.connection.poll(&mut test.scheduler, &mut test.budget),
        Action::Read
    );
    assert!(!test
        .connection
        .read_done(&mut test.scheduler, ReadOutcome::WouldBlock));
    assert_eq!(test.scheduler.take(), None);
    test.scheduler.io_ready(TOKEN);
    assert_eq!(test.scheduler.take(), Some(TOKEN));
    assert_eq!(
        test.connection.poll(&mut test.scheduler, &mut test.budget),
        Action::Read
    );
    assert!(!test
        .connection
        .read_done(&mut test.scheduler, ReadOutcome::Interrupted));
    assert_eq!(test.scheduler.take(), Some(TOKEN));
    assert_eq!(
        test.connection.poll(&mut test.scheduler, &mut test.budget),
        Action::Read
    );
    let error = std::io::Error::other("reset");
    assert!(test
        .connection
        .read_done(&mut test.scheduler, ReadOutcome::Failed(error)));
    assert_eq!(
        test.connection.poll(&mut test.scheduler, &mut test.budget),
        Action::Send
    );
    match test.connection.take_record().kind {
        RecordKind::Ended {
            uuid: None,
            reason: EndReason::Transport(error),
        } => assert_eq!(error.to_string(), "reset"),
        _ => panic!("transport end expected"),
    }
    assert!(test
        .connection
        .sent(&mut test.scheduler, SendOutcome::Disconnected));
    assert!(test.connection.is_finished());
    assert!(test.connection.context().progress().pending_record);
    assert!(!test.connection.context().progress().terminal_queued);
}
