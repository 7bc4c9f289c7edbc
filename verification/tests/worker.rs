//! Whole connections through the tasks of one worker.
use phonowire::connection::{ReadOutcome, SendOutcome};
use phonowire::handoff::{HandoffQueue, SendFailure};
use phonowire::scheduler::WaitReason;
use phonowire::worker::{TaskStep, Worker, FIRST_CONNECTION};
use phonowire::{
    ByteBudget, EndReason, IncomingProfile, Limits, ReceiverFailure, Record, RecordKind,
    RunSummary, SampleRate, StopCause,
};
use std::collections::BTreeMap;

const UUID_FRAME: [u8; 19] = [
    1, 0, 16, 1, 2, 3, 4, 5, 6, 7, 8, 9, 10, 11, 12, 13, 14, 15, 16,
];
const TAIL: [u8; 8] = [0x10, 0, 2, 0x34, 0x12, 0, 0, 0];

struct Rig {
    worker: Worker,
    budget: ByteBudget,
    queue: HandoffQueue,
    inputs: BTreeMap<usize, Vec<u8>>,
    closed: bool,
}

impl Rig {
    fn new(connections: usize, slots: usize, steps: usize, retained: usize) -> Self {
        let limits = Limits::new(connections, slots, 64, steps).expect("limits");
        Self {
            worker: Worker::new(limits, IncomingProfile::default(), retained, 7),
            budget: ByteBudget::new(retained),
            queue: HandoffQueue::new(slots),
            inputs: BTreeMap::new(),
            closed: false,
        }
    }

    fn connect(&mut self, input: &[u8]) -> usize {
        let mut turn = self.worker.begin_accept(0).expect("accept turn");
        assert!(self
            .worker
            .next_attempt(&mut turn, false, 0)
            .expect("attempt"));
        let token = self
            .worker
            .accepted(&mut turn)
            .expect("room")
            .expect("token");
        self.worker
            .enroll(token, "127.0.0.1:9".to_string())
            .expect("enrolled");
        self.inputs.insert(token, input.to_vec());
        token
    }

    /// Runs all turns that are coming; returns whether any was.
    fn run_ready(&mut self) -> bool {
        let mut ran = false;
        for _ in 0..10_000 {
            if !self.worker.begin_turn() {
                return ran;
            }
            ran = true;
            self.run_turn().expect("counters fit");
        }
        panic!("turns never end");
    }

    fn run_turn(&mut self) -> Result<(), ReceiverFailure> {
        loop {
            match self.worker.poll(&mut self.budget) {
                TaskStep::Yield | TaskStep::Done => break,
                TaskStep::Read => {
                    let name = self.worker.turn_holder().expect("running token");
                    let input = self.inputs.get_mut(&name).expect("input");
                    let outcome = if input.is_empty() && !self.closed {
                        ReadOutcome::WouldBlock
                    } else {
                        ReadOutcome::Bytes(input)
                    };
                    let on = self.worker.read_done(outcome);
                    self.inputs.insert(name, Vec::new());
                    if !on {
                        break;
                    }
                }
                TaskStep::Send(record) => {
                    let outcome = match self.queue.try_send(record) {
                        Ok(()) => SendOutcome::Accepted,
                        Err(SendFailure::Full(record)) => SendOutcome::Full(record),
                        Err(SendFailure::Disconnected(_)) => SendOutcome::Disconnected,
                    };
                    if !self.worker.sent(outcome) {
                        break;
                    }
                }
            }
        }
        let (record, result) = self.worker.end_turn();
        assert!(record.is_none());
        result
    }

    fn receive(&mut self) -> Option<Record> {
        let record = self.queue.try_recv().ok()?;
        self.worker.resume_credit(WaitReason::Queue);
        Some(record)
    }

    fn drain(&mut self) -> Vec<Record> {
        let mut records = Vec::new();
        loop {
            let ran = self.run_ready();
            let mut received = false;
            while let Some(record) = self.receive() {
                records.push(record);
                received = true;
            }
            if !ran && !received {
                return records;
            }
        }
    }

    fn finish(
        mut self,
        result: Result<StopCause, ReceiverFailure>,
    ) -> (Result<RunSummary, phonowire::ReceiverError>, ByteBudget) {
        let (records, cleanup) = self.worker.shut_down(&result);
        for record in records {
            if let Some(bytes) = record.into_bytes() {
                self.budget.release(bytes);
            }
        }
        let used = self.budget.used();
        (self.worker.conclude(result, cleanup, used), self.budget)
    }
}

#[test]
fn two_interleaved_streams_keep_their_bytes_events_and_counters() {
    for slots in [1, 64] {
        for steps in [1, 3, 64] {
            let mut rig = Rig::new(2, slots, steps, 8192);
            let first = rig.connect(&[&UUID_FRAME[..], &TAIL[..]].concat());
            let second = rig.connect(&[&UUID_FRAME[..], &TAIL[..]].concat());
            assert_eq!((first, second), (FIRST_CONNECTION, FIRST_CONNECTION + 1));
            let records = rig.drain();
            for token in [first, second] {
                let mut wire = Vec::new();
                let mut audio = Vec::new();
                let mut offsets = Vec::new();
                for record in &records {
                    if record.connection.sequence() != token {
                        continue;
                    }
                    assert_eq!(record.connection.instance(), 7);
                    offsets.push(record.offset.get());
                    match &record.kind {
                        RecordKind::Wire { bytes } => wire.extend_from_slice(bytes.as_slice()),
                        RecordKind::Audio { rate, bytes, .. } => {
                            assert_eq!(*rate, SampleRate::Khz8);
                            audio.extend_from_slice(bytes.as_slice());
                        }
                        _ => {}
                    }
                }
                assert_eq!(wire, [&UUID_FRAME[..], &TAIL[..]].concat());
                assert_eq!(audio, [0x34, 0x12]);
                assert_eq!(offsets, [0, 0, 19, 24, 27]);
            }
            let (result, _) = rig.finish(Ok(StopCause::Requested));
            let summary = result.expect("orderly stop");
            assert_eq!(summary.accepted, 2);
            assert_eq!(summary.ended, 2);
            assert_eq!(summary.abandoned, 0);
            assert_eq!(summary.live, 0);
            assert_eq!(summary.raw_bytes_read, 54);
            assert_eq!(summary.raw_bytes_handed_off, 54);
            assert_eq!(summary.undelivered_raw_bytes, 0);
            assert_eq!(summary.records_handed_off, 10);
            assert_eq!(summary.stopped_by, Some(StopCause::Requested));
            assert_eq!(summary.fixed_buffer_capacity, 2 * (4096 + 64));
            assert!(summary.counters_complete);
            assert_eq!(summary.retained_output_bytes, 58, "records are still held");
        }
    }
}

#[test]
fn a_stop_abandons_live_tasks_and_returns_their_unsent_bytes() {
    let mut rig = Rig::new(2, 1, 64, 8192);
    rig.connect(&UUID_FRAME);
    rig.run_ready();
    let (result, budget) = rig.finish(Ok(StopCause::ConsumerDisconnected));
    let summary = result.expect("stop");
    assert_eq!(summary.live, 1);
    assert_eq!(summary.abandoned, 1);
    assert_eq!(summary.raw_bytes_read, 19);
    assert_eq!(summary.raw_bytes_handed_off, 0);
    assert_eq!(summary.undelivered_raw_bytes, 19);
    assert_eq!(summary.undelivered_records, 1);
    assert_eq!(summary.records_handed_off, 1);
    assert_eq!(budget.used(), 0);
}

#[test]
fn a_failed_run_keeps_its_failure_and_counters() {
    let rig = Rig::new(1, 1, 1, 8192);
    let (result, _) = rig.finish(Err(ReceiverFailure::CounterExhausted));
    let error = result.expect_err("failed run");
    assert!(matches!(error.failure(), ReceiverFailure::CounterExhausted));
    assert!(!error.summary().counters_complete);
    assert_eq!(error.summary().stopped_by, None);
    let rig = Rig::new(1, 1, 1, 8192);
    let (result, _) = rig.finish(Err(ReceiverFailure::Io(std::io::Error::other("poll"))));
    let error = result.expect_err("failed run");
    assert!(error.summary().counters_complete);
}

#[test]
fn end_of_input_ends_every_task_and_a_closed_queue_cuts_them_off() {
    let mut rig = Rig::new(2, 64, 8, 8192);
    rig.connect(&UUID_FRAME);
    rig.closed = true;
    let records = rig.drain();
    assert!(matches!(
        records.last().expect("terminal").kind,
        RecordKind::Ended {
            reason: EndReason::CleanEof,
            ..
        }
    ));
    assert_eq!(rig.worker.live(), 0);

    let mut rig = Rig::new(2, 64, 8, 8192);
    rig.connect(&UUID_FRAME);
    assert!(rig.queue.drop_consumer().is_empty());
    rig.run_ready();
    assert_eq!(rig.worker.live(), 0);
    assert_eq!(rig.worker.summary().abandoned, 1);
    assert_eq!(rig.worker.summary().undelivered_records, 1);
}
