//! Literal outputs, faults and refusals of a recording over in-memory writers.
use phonowire::recording::{wave_header, Outcome, Output, Step};
use phonowire::{
    ByteBudget, ConnectionId, Dtmf, EndReason, OwnedBytes, Record, RecordKind, Recording,
    RecordingEnd, RecordingError, RecordingFailure, RecordingStage, RecordingSummary,
    RecordingViolation, SampleRate, TerminalKind, Uuid, WireOffset,
};
use std::cell::RefCell;
use std::io;
use std::rc::Rc;
use std::time::Instant;

#[derive(Default)]
struct Device {
    bytes: Vec<u8>,
    position: usize,
    limit: Option<usize>,
    allowance: Option<usize>,
    fail_write: bool,
    fail_seek: bool,
    fail_flush: bool,
    fail_when_exhausted: bool,
    interrupt_once: bool,
}

#[derive(Clone, Default)]
struct Shared(Rc<RefCell<Device>>);

impl Shared {
    fn bytes(&self) -> Vec<u8> {
        self.0.borrow().bytes.clone()
    }

    fn write(&self, input: &[u8]) -> io::Result<usize> {
        let mut device = self.0.borrow_mut();
        if device.interrupt_once {
            device.interrupt_once = false;
            return Err(io::Error::from(io::ErrorKind::Interrupted));
        }
        if device.fail_write {
            return Err(io::Error::other("write fault"));
        }
        let permitted = device
            .allowance
            .map_or(input.len(), |value| value.min(input.len()));
        let count = device.limit.map_or(permitted, |value| value.min(permitted));
        if count == 0 && device.fail_when_exhausted {
            return Err(io::Error::other("scheduled exhaustion"));
        }
        if count == 0 {
            return Ok(0);
        }
        if let Some(value) = device.allowance.as_mut() {
            *value -= count;
        }
        let start = device.position;
        let end = start + count;
        if device.bytes.len() < end {
            device.bytes.resize(end, 0);
        }
        device.bytes[start..end].copy_from_slice(&input[..count]);
        device.position = end;
        Ok(count)
    }

    fn flush(&self) -> io::Result<()> {
        if self.0.borrow().fail_flush {
            Err(io::Error::other("flush fault"))
        } else {
            Ok(())
        }
    }

    fn rewind(&self) -> io::Result<()> {
        let mut device = self.0.borrow_mut();
        if device.fail_seek {
            return Err(io::Error::other("seek fault"));
        }
        device.position = 0;
        Ok(())
    }
}

struct Recorder {
    recording: Recording,
    wire: Shared,
    wave: Shared,
    events: Shared,
}

impl Recorder {
    fn new(
        id: ConnectionId,
        wire: Shared,
        wave: Shared,
        events: Shared,
    ) -> Result<Self, RecordingError> {
        let mut recorder = Self {
            recording: Recording::new(id),
            wire,
            wave,
            events,
        };
        recorder.perform()?;
        Ok(recorder)
    }

    fn output(&self, output: Output) -> &Shared {
        match output {
            Output::Wire => &self.wire,
            Output::Wave => &self.wave,
            Output::Events => &self.events,
        }
    }

    fn perform(&mut self) -> Result<(), RecordingError> {
        loop {
            let outcome = match self.recording.step() {
                Step::Rest => return Ok(()),
                Step::Write(_, output) => {
                    match self.output(output).write(self.recording.chunk()) {
                        Ok(count) => Outcome::Wrote(count),
                        Err(error) if error.kind() == io::ErrorKind::Interrupted => {
                            Outcome::Interrupted
                        }
                        Err(error) => Outcome::Failed(error),
                    }
                }
                Step::Seek => match self.wave.rewind() {
                    Ok(()) => Outcome::Completed,
                    Err(error) => Outcome::Failed(error),
                },
                Step::Flush(_, output) => match self.output(output).flush() {
                    Ok(()) => Outcome::Completed,
                    Err(error) => Outcome::Failed(error),
                },
            };
            self.recording.done(outcome)?;
        }
    }

    fn record(&mut self, record: &Record) -> Result<(), RecordingError> {
        self.recording.record(record)?;
        self.perform()
    }

    fn finish(mut self) -> Result<RecordingSummary, RecordingError> {
        self.recording.finish()?;
        self.perform()?;
        assert!(self.recording.is_finished());
        Ok(self.recording.summary())
    }
}

fn fresh() -> Recorder {
    Recorder::new(
        id(),
        Shared::default(),
        Shared::default(),
        Shared::default(),
    )
    .expect("header")
}

fn id() -> ConnectionId {
    ConnectionId::new(9, 3)
}

fn record(offset: u64, kind: RecordKind) -> Record {
    Record {
        connection: id(),
        offset: WireOffset::new(offset),
        observed_at: Instant::now(),
        kind,
    }
}

fn owned(bytes: &[u8]) -> OwnedBytes {
    ByteBudget::new(8192)
        .try_copy(bytes)
        .ok()
        .expect("small owned bytes")
}

fn connected() -> Record {
    record(
        0,
        RecordKind::Connected {
            peer: "127.0.0.1:9".to_string(),
        },
    )
}

fn uuid() -> Uuid {
    Uuid::new([1, 0, 0, 0, 0, 0, 0, 0, 0, 0, 0, 0, 0, 0, 0, 1])
}

fn wire(offset: u64, bytes: &[u8]) -> Record {
    record(
        offset,
        RecordKind::Wire {
            bytes: owned(bytes),
        },
    )
}

fn audio(offset: u64, uuid: Uuid, rate: SampleRate, bytes: &[u8]) -> Record {
    record(
        offset,
        RecordKind::Audio {
            uuid,
            rate,
            bytes: owned(bytes),
        },
    )
}

fn ended(offset: u64, uuid: Option<Uuid>, reason: EndReason) -> Record {
    record(offset, RecordKind::Ended { uuid, reason })
}

#[test]
fn writes_literal_wav_header_pcm_wire_and_incomplete_summary() {
    const EXPECTED_HEADER: [u8; 44] = [
        b'R', b'I', b'F', b'F', 38, 0, 0, 0, b'W', b'A', b'V', b'E', b'f', b'm', b't', b' ', 16, 0,
        0, 0, 1, 0, 1, 0, 0x40, 0x1f, 0, 0, 0x80, 0x3e, 0, 0, 2, 0, 16, 0, b'd', b'a', b't', b'a',
        2, 0, 0, 0,
    ];
    let wire_output = Shared::default();
    let wave = Shared::default();
    let events = Shared::default();
    let mut recording =
        Recorder::new(id(), wire_output.clone(), wave.clone(), events.clone()).expect("header");
    recording.record(&connected()).expect("connected");
    recording.record(&wire(0, &[1, 2, 3])).expect("wire");
    recording
        .record(&record(3, RecordKind::Started { uuid: uuid() }))
        .expect("started");
    recording
        .record(&audio(3, uuid(), SampleRate::Khz8, &[0, 0]))
        .expect("audio");
    let summary = recording.finish().expect("finish incomplete");
    assert_eq!(summary.end, RecordingEnd::Incomplete);
    assert_eq!(summary.wire_bytes, 3);
    assert_eq!(summary.audio_bytes, 2);
    assert_eq!(wire_output.bytes(), vec![1, 2, 3]);
    let wave_bytes = wave.bytes();

    assert_eq!(&wave_bytes[..44], EXPECTED_HEADER);
    assert_eq!(&wave_bytes[44..], &[0, 0]);
    let text = String::from_utf8(events.bytes()).expect("diagnostics UTF-8");
    let descriptions: Vec<_> = text.lines().collect();
    assert_eq!(descriptions.len(), 4);
    assert!(descriptions[0].contains("connected peer="));
    assert!(descriptions[1].ends_with("wire bytes=3"));
    assert!(descriptions[2].contains("started uuid="));
    assert!(descriptions[3].contains("audio uuid="));
    assert!(descriptions[3].ends_with("rate=Khz8 bytes=2"));
    assert!(!text.contains("ByteBudget"));
}

#[test]
fn zero_write_preserves_known_prefix_and_refuses_later_mutation() {
    let wire_output = Shared::default();
    wire_output.0.borrow_mut().allowance = Some(1);
    let mut recording = Recorder::new(
        id(),
        wire_output.clone(),
        Shared::default(),
        Shared::default(),
    )
    .expect("header");
    recording.record(&connected()).expect("connected");
    let error = recording
        .record(&wire(0, &[7, 8]))
        .expect_err("zero write");
    assert_eq!(error.stage(), RecordingStage::Wire);
    assert_eq!(error.summary().wire_bytes, 1);
    assert!(matches!(
        error.failure(),
        RecordingFailure::Io(cause) if cause.kind() == io::ErrorKind::WriteZero
    ));
    assert_eq!(
        error.message(),
        "recording Wire failed: writer accepted no bytes"
    );
    assert_eq!(wire_output.bytes(), vec![7]);
    let later = recording.record(&wire(1, &[9])).expect_err("failed state");
    assert_eq!(later.stage(), RecordingStage::Validate);
    assert!(matches!(
        later.failure(),
        RecordingFailure::Invalid(RecordingViolation::AfterFailure)
    ));
    assert_eq!(later.message(), "recording Validate failed: AfterFailure");
}

#[test]
fn header_wire_audio_and_events_faults_report_their_exact_stage() {
    let header = Shared::default();
    header.0.borrow_mut().fail_write = true;
    let Err(error) = Recorder::new(id(), Shared::default(), header, Shared::default()) else {
        panic!("header fault must fail")
    };
    assert_eq!(error.stage(), RecordingStage::Header);
    assert_eq!(error.summary().header_bytes, 0);

    let wire_output = Shared::default();
    let mut recording = Recorder::new(
        id(),
        wire_output.clone(),
        Shared::default(),
        Shared::default(),
    )
    .expect("new");
    recording.record(&connected()).expect("connected");
    wire_output.0.borrow_mut().fail_write = true;
    let error = recording.record(&wire(0, &[1])).expect_err("wire fault");
    assert_eq!(error.stage(), RecordingStage::Wire);
    assert_eq!(error.summary().wire_bytes, 0);
    assert!(wire_output.bytes().is_empty());

    let wave = Shared::default();
    let mut recording =
        Recorder::new(id(), Shared::default(), wave.clone(), Shared::default()).expect("new");
    recording.record(&connected()).expect("connected");
    recording
        .record(&record(0, RecordKind::Started { uuid: uuid() }))
        .expect("started");
    wave.0.borrow_mut().fail_write = true;
    let error = recording
        .record(&audio(0, uuid(), SampleRate::Khz8, &[0, 0]))
        .expect_err("audio fault");
    assert_eq!(error.stage(), RecordingStage::Audio);
    assert_eq!(error.summary().audio_bytes, 0);
    assert_eq!(wave.bytes().len(), 44);

    let events = Shared::default();
    let mut recording =
        Recorder::new(id(), Shared::default(), Shared::default(), events.clone()).expect("new");
    events.0.borrow_mut().fail_write = true;
    let error = recording.record(&connected()).expect_err("event fault");
    assert_eq!(error.stage(), RecordingStage::Events);
    assert_eq!(error.summary().event_bytes, 0);
    assert!(events.bytes().is_empty());
}

#[test]
fn seek_patch_and_flush_faults_never_finalize() {
    for stage in [
        RecordingStage::Seek,
        RecordingStage::Patch,
        RecordingStage::FlushWire,
        RecordingStage::FlushWave,
        RecordingStage::FlushEvents,
    ] {
        let wire_output = Shared::default();
        let wave = Shared::default();
        let events = Shared::default();
        let recording =
            Recorder::new(id(), wire_output.clone(), wave.clone(), events.clone()).expect("new");
        match stage {
            RecordingStage::Seek => wave.0.borrow_mut().fail_seek = true,
            RecordingStage::Patch => wave.0.borrow_mut().fail_write = true,
            RecordingStage::FlushWire => wire_output.0.borrow_mut().fail_flush = true,
            RecordingStage::FlushWave => wave.0.borrow_mut().fail_flush = true,
            RecordingStage::FlushEvents => events.0.borrow_mut().fail_flush = true,
            RecordingStage::Validate
            | RecordingStage::Header
            | RecordingStage::Wire
            | RecordingStage::Audio
            | RecordingStage::Events => unreachable!("finish stage"),
        }
        let error = recording.finish().expect_err("finish must fail");
        assert_eq!(error.stage(), stage);
        assert_eq!(error.summary().header_bytes, 44);
    }
}

#[test]
fn accepted_prefixes_then_io_error_and_interrupted_short_writes_are_exact() {
    let header = Shared::default();
    header.0.borrow_mut().allowance = Some(1);
    header.0.borrow_mut().fail_when_exhausted = true;
    let Err(error) = Recorder::new(id(), Shared::default(), header.clone(), Shared::default())
    else {
        panic!("header failure")
    };
    assert_eq!(error.stage(), RecordingStage::Header);
    assert_eq!(error.summary().header_bytes, 1);
    assert_eq!(header.bytes().len(), 1);

    let wire_output = Shared::default();
    wire_output.0.borrow_mut().limit = Some(1);
    wire_output.0.borrow_mut().interrupt_once = true;
    let mut recording = Recorder::new(
        id(),
        wire_output.clone(),
        Shared::default(),
        Shared::default(),
    )
    .expect("new");
    recording.record(&connected()).expect("connected");
    recording
        .record(&wire(0, &[1, 2]))
        .expect("interrupted short wire recovers");
    assert_eq!(wire_output.bytes(), vec![1, 2]);

    let wave = Shared::default();
    let mut recording =
        Recorder::new(id(), Shared::default(), wave.clone(), Shared::default()).expect("new");
    recording.record(&connected()).expect("connected");
    recording
        .record(&record(0, RecordKind::Started { uuid: uuid() }))
        .expect("started");
    wave.0.borrow_mut().allowance = Some(1);
    wave.0.borrow_mut().fail_when_exhausted = true;
    let error = recording
        .record(&audio(0, uuid(), SampleRate::Khz8, &[0, 0]))
        .expect_err("audio prefix error");
    assert_eq!(error.stage(), RecordingStage::Audio);
    assert_eq!(error.summary().audio_bytes, 1);

    let events = Shared::default();
    let mut recording =
        Recorder::new(id(), Shared::default(), Shared::default(), events.clone()).expect("new");
    events.0.borrow_mut().allowance = Some(1);
    events.0.borrow_mut().fail_when_exhausted = true;
    let error = recording
        .record(&connected())
        .expect_err("event prefix error");
    assert_eq!(error.stage(), RecordingStage::Events);
    assert_eq!(error.summary().event_bytes, 1);

    let wave = Shared::default();
    let recording =
        Recorder::new(id(), Shared::default(), wave.clone(), Shared::default()).expect("new");
    wave.0.borrow_mut().allowance = Some(1);
    wave.0.borrow_mut().fail_when_exhausted = true;
    let error = recording.finish().expect_err("patch prefix error");
    assert_eq!(error.stage(), RecordingStage::Patch);
    assert_eq!(error.summary().patch_bytes, 1);
}

fn assert_refused_without_output(violation: RecordingViolation, invalid: &Record) {
    let wire_output = Shared::default();
    let wave_output = Shared::default();
    let events = Shared::default();
    let mut recording = Recorder::new(
        id(),
        wire_output.clone(),
        wave_output.clone(),
        events.clone(),
    )
    .expect("header");
    recording.record(&connected()).expect("connection");
    recording.record(&wire(0, &[0; 64])).expect("raw prefix");
    recording
        .record(&record(19, RecordKind::Started { uuid: uuid() }))
        .expect("UUID");
    let before = recording.recording.summary();
    let error = recording.record(invalid).expect_err("invalid record");
    assert_eq!(error.stage(), RecordingStage::Validate);
    assert!(matches!(error.failure(), RecordingFailure::Invalid(value) if *value == violation));
    assert_eq!(error.summary(), &before);
    let failed = recording
        .finish()
        .expect_err("failed adapter cannot finalize");
    assert!(matches!(
        failed.failure(),
        RecordingFailure::Invalid(RecordingViolation::AfterFailure)
    ));
    assert_eq!(failed.summary(), &before);
    assert_eq!(wire_output.bytes(), [0; 64]);
    assert_eq!(wave_output.bytes().len(), 44);
    assert_eq!(
        u64::try_from(events.bytes().len()).expect("small output"),
        before.event_bytes
    );
}

#[test]
fn malformed_records_fail_before_mutating_any_output() {
    let mut foreign = record(
        19,
        RecordKind::Dtmf {
            uuid: uuid(),
            digit: Dtmf::new(b'1').expect("ASCII"),
        },
    );
    foreign.connection = ConnectionId::new(9, 4);
    let cases = [
        (RecordingViolation::Connection, foreign),
        (
            RecordingViolation::Order,
            record(
                19,
                RecordKind::Connected {
                    peer: "127.0.0.1:9".to_string(),
                },
            ),
        ),
        (
            RecordingViolation::Order,
            record(19, RecordKind::Started { uuid: uuid() }),
        ),
        (RecordingViolation::Offset, wire(63, &[1])),
        (
            RecordingViolation::Offset,
            audio(65, uuid(), SampleRate::Khz8, &[1, 2]),
        ),
        (
            RecordingViolation::Uuid,
            audio(19, Uuid::new([2; 16]), SampleRate::Khz8, &[1, 2]),
        ),
        (
            RecordingViolation::AudioFormat,
            audio(19, uuid(), SampleRate::Khz16, &[1, 2]),
        ),
        (
            RecordingViolation::AudioFormat,
            audio(19, uuid(), SampleRate::Khz8, &[1]),
        ),
        (
            RecordingViolation::Uuid,
            ended(19, None, EndReason::CleanEof),
        ),
    ];
    for (violation, invalid) in cases {
        assert_refused_without_output(violation, &invalid);
    }
}

#[test]
fn terminal_class_survives_finalization_and_prohibits_more_input() {
    let mut recording = fresh();
    recording.record(&connected()).expect("connect");
    recording
        .record(&ended(0, None, EndReason::Terminate))
        .expect("pre-UUID terminal");
    let summary = recording.finish().expect("finalization");
    assert_eq!(summary.end, RecordingEnd::Observed(TerminalKind::Terminate));
    assert_eq!(summary.header_bytes, 44);
    assert_eq!(summary.patch_bytes, 44);

    let mut recording = fresh();
    recording.record(&connected()).expect("connect");
    recording
        .record(&ended(0, None, EndReason::CleanEof))
        .expect("EOF");
    let error = recording
        .record(&wire(0, &[0; 64]))
        .expect_err("no post-terminal wire");
    assert!(matches!(
        error.failure(),
        RecordingFailure::Invalid(RecordingViolation::AfterEnd)
    ));
    assert_eq!(error.summary().wire_bytes, 0);
    assert_eq!(
        error.summary().end,
        RecordingEnd::Observed(TerminalKind::CleanEof)
    );
}

#[test]
fn audio_requires_an_established_uuid_even_with_valid_samples() {
    let mut recording = fresh();
    recording.record(&connected()).expect("connect");
    recording.record(&wire(0, &[0; 64])).expect("raw prefix");
    let error = recording
        .record(&audio(19, uuid(), SampleRate::Khz8, &[1, 2]))
        .expect_err("missing UUID");
    assert!(matches!(
        error.failure(),
        RecordingFailure::Invalid(RecordingViolation::Uuid)
    ));
    assert_eq!(error.summary().audio_bytes, 0);
}

#[test]
fn riff_sizes_refuse_the_first_unrepresentable_even_pcm_length() {
    const MAX_EVEN_PCM: u64 = 0xffff_ffda;
    let header = wave_header(MAX_EVEN_PCM, SampleRate::Khz8).expect("largest even PCM fits RIFF");
    assert_eq!(&header[4..8], &[0xfe, 0xff, 0xff, 0xff]);
    assert_eq!(&header[40..44], &[0xda, 0xff, 0xff, 0xff]);
    assert_eq!(
        wave_header(MAX_EVEN_PCM + 2, SampleRate::Khz8),
        Err(RecordingViolation::WaveSize)
    );
    assert_eq!(
        wave_header(u64::from(u32::MAX) + 1, SampleRate::Khz8),
        Err(RecordingViolation::WaveSize)
    );
}

#[test]
fn a_selected_rate_is_declared_in_the_header_and_required_of_audio() {
    let header = wave_header(0, SampleRate::Khz44_1).expect("empty file");
    assert_eq!(&header[24..28], &44_100_u32.to_le_bytes());
    assert_eq!(&header[28..32], &88_200_u32.to_le_bytes());
    let mut recorder = Recorder {
        recording: Recording::with_sample_rate(id(), SampleRate::Khz44_1),
        wire: Shared::default(),
        wave: Shared::default(),
        events: Shared::default(),
    };
    recorder.perform().expect("header");
    recorder.record(&connected()).expect("connect");
    recorder
        .record(&record(0, RecordKind::Started { uuid: uuid() }))
        .expect("started");
    recorder
        .record(&audio(0, uuid(), SampleRate::Khz44_1, &[5, 6]))
        .expect("matching rate");
    let error = recorder
        .record(&audio(0, uuid(), SampleRate::Khz8, &[5, 6]))
        .expect_err("other rate");
    assert!(matches!(
        error.failure(),
        RecordingFailure::Invalid(RecordingViolation::AudioFormat)
    ));
    assert_eq!(error.summary().audio_bytes, 2);
    assert_eq!(&recorder.wave.bytes()[44..], &[5, 6]);
}

#[test]
fn every_terminal_result_has_its_class() {
    let cases = [
        (EndReason::CleanEof, TerminalKind::CleanEof),
        (EndReason::Terminate, TerminalKind::Terminate),
        (EndReason::PeerError(owned(&[1])), TerminalKind::PeerError),
        (
            EndReason::InvalidMessage(phonowire::TypedMessageError::UuidLength),
            TerminalKind::InvalidMessage,
        ),
        (
            EndReason::Decode(phonowire::DecodeError::Failed),
            TerminalKind::Decode,
        ),
        (
            EndReason::Truncated(phonowire::FinishError::Failed),
            TerminalKind::Truncated,
        ),
        (
            EndReason::Policy(phonowire::IncomingSessionError::MissingUuid),
            TerminalKind::Policy,
        ),
        (
            EndReason::Transport(io::Error::other("x")),
            TerminalKind::Transport,
        ),
        (
            EndReason::ResourceRefused(phonowire::BudgetError::TooLarge {
                required: 2,
                capacity: 1,
            }),
            TerminalKind::ResourceRefused,
        ),
        (EndReason::OffsetExhausted, TerminalKind::OffsetExhausted),
    ];
    for (reason, kind) in cases {
        assert_eq!(TerminalKind::of(&reason), kind);
        let mut recording = fresh();
        recording.record(&connected()).expect("connect");
        recording.record(&ended(0, None, reason)).expect("end");
        assert!(recording.recording.has_ended());
        assert_eq!(
            recording.finish().expect("finish").end,
            RecordingEnd::Observed(kind)
        );
    }
}

#[test]
fn controlled_writer_refusal_retains_prefix_and_finalizes_active_sibling() {
    let failed_writer = Shared::default();
    let mut failed = Recorder::new(
        id(),
        failed_writer.clone(),
        Shared::default(),
        Shared::default(),
    )
    .expect("failed recorder header");
    let mut sibling = fresh();
    let frame: Vec<u8> = [1, 0, 16].into_iter().chain(1..=16).collect();
    for recorder in [&mut failed, &mut sibling] {
        recorder.record(&connected()).expect("connected");
        recorder.record(&wire(0, &frame)).expect("wire prefix");
        recorder
            .record(&record(19, RecordKind::Started { uuid: uuid() }))
            .expect("started");
    }
    failed_writer.0.borrow_mut().fail_flush = true;
    let error = failed.finish().expect_err("controlled writer refusal");
    assert_eq!(error.stage(), RecordingStage::FlushWire);
    assert_eq!(
        usize::try_from(error.summary().wire_bytes).expect("small writer prefix"),
        frame.len()
    );
    assert_eq!(failed_writer.bytes(), frame, "exact accepted writer prefix");
    let sibling_summary = sibling.finish().expect("sibling finalization");
    assert_eq!(sibling_summary.end, RecordingEnd::Incomplete);
    assert_eq!(sibling_summary.wire_bytes, 19);
}
