//! Command line, admission, reports and verdict of the capture program.
use phonowire::capture::{
    bytes, Admission, Capture, Received, RecordingOutcome, WorkerEnd,
};
use phonowire::options::{checked_output_bound, help, within_cap, Config, Options};
use phonowire::recording::{Outcome, Step};
use phonowire::report::{
    claim_stop, count_signal, json_summary, receiver_json, stage, status_json, stop_wake_failed,
    successful_terminal, Cause, Counts, Receipt, StopInfo,
};
use phonowire::{
    ByteBudget, ConnectionId, EndReason, Record, RecordKind, RecordingEnd, RecordingStage,
    RecordingSummary, RunSummary, SampleRate, StopCause, TerminalKind, Uuid, WireOffset,
};
use std::time::Instant;

#[test]
fn only_clean_terminal_observations_are_successful() {
    assert!(successful_terminal(RecordingEnd::Observed(
        TerminalKind::CleanEof
    )));
    assert!(successful_terminal(RecordingEnd::Observed(
        TerminalKind::Terminate
    )));
    assert!(!successful_terminal(RecordingEnd::Observed(
        TerminalKind::Truncated
    )));
    assert!(!successful_terminal(RecordingEnd::Observed(
        TerminalKind::PeerError
    )));
    assert!(!successful_terminal(RecordingEnd::Observed(
        TerminalKind::Transport
    )));
    assert!(!successful_terminal(RecordingEnd::Incomplete));
}

#[test]
fn recorded_stop_wake_failure_is_unsuccessful() {
    let info = StopInfo {
        cause: Some(Cause::Signal),
        wake: Some("other".to_string()),
        signals: 1,
    };
    assert!(stop_wake_failed(&info));
}

#[test]
fn controller_claim_is_exactly_once_and_immutable_in_both_orders() {
    for (first, second) in [(Cause::Signal, Cause::Local), (Cause::Local, Cause::Signal)] {
        let mut won = false;
        let mut info = StopInfo::default();
        assert!(claim_stop(&mut won, &mut info, first));
        assert!(!claim_stop(&mut won, &mut info, second));
        assert!(won);
        assert_eq!(info.cause.map(Cause::text), Some(first.text()));
    }
}

#[test]
fn aggregate_counts_status_once_and_refuses_one_unit_over_limit() {
    let expected = u128::from(2_u64) * (u128::from(3_u64) * 44 + 7) + 11;
    assert_eq!(
        checked_output_bound(2, 44, 7, 11).expect("small bound"),
        u64::try_from(expected).expect("fits")
    );
    let largest_file = (u64::MAX - 2) / 3;
    assert_eq!(
        checked_output_bound(1, largest_file, 1, 1).expect("largest accepted file cap"),
        u64::MAX - 1
    );
    assert!(checked_output_bound(1, largest_file + 1, 1, 1).is_err());
}

#[test]
fn replacement_is_not_extension() {
    assert!(within_cap(0, 44, 44));
    assert!(within_cap(0, 44, 44));
    assert!(!within_cap(44, 1, 44));
    assert!(!within_cap(u64::MAX, 1, u64::MAX));
    assert!(within_cap(u64::MAX, 0, u64::MAX));
}

fn arguments(rest: &[&str]) -> Vec<String> {
    let mut all = vec!["phonowire-capture".to_string()];
    all.extend(rest.iter().map(|text| text.to_string()));
    all
}

fn complaint(rest: &[&str]) -> String {
    match Options::read(&arguments(rest)) {
        Ok(_) => panic!("command line must be refused"),
        Err(complaint) => complaint,
    }
}

fn options(rest: &[&str]) -> Options {
    match Options::read(&arguments(rest)) {
        Ok(options) => options,
        Err(complaint) => panic!("command line refused: {complaint}"),
    }
}

#[test]
fn command_lines_are_read_or_refused_with_their_complaint() {
    assert_eq!(complaint(&["--help"]), help());
    assert_eq!(
        complaint(&["--help", "--output"]),
        "--help cannot be combined with other options"
    );
    assert_eq!(
        complaint(&["--output", "x", "--help"]),
        "--help cannot be combined with other options"
    );
    assert_eq!(complaint(&["--bogus", "1"]), "unknown option: --bogus");
    assert_eq!(complaint(&["output"]), "unknown option: output");
    assert_eq!(complaint(&["--output"]), "missing value for --output");
    assert_eq!(
        complaint(&["--output", "--listen", "x"]),
        "missing value for --output"
    );
    assert_eq!(
        complaint(&["--output", "a", "--output", "b"]),
        "duplicate option: --output"
    );
    let read = options(&["--listen", "[::1]:5", "--output", "-dir"]);
    assert_eq!(read.output().expect("output"), "-dir");
    assert_eq!(read.listen(), "[::1]:5");
    let empty = options(&[]);
    assert_eq!(
        empty.output().expect_err("required"),
        "--output is required"
    );
    assert_eq!(empty.listen(), "127.0.0.1:9092");
}

#[test]
fn limits_have_defaults_and_unreadable_numbers_are_named() {
    let config = options(&["--output", "x"]).limits().expect("defaults");
    assert_eq!(
        config,
        Config {
            connections: 16,
            queue: 128,
            payload: 4096,
            turns: 64,
            retained: 1_048_576,
            active: 16,
            run: 64,
            file: 67_108_864,
            summary: 4096,
            status: 4096,
        }
    );
    assert!(config.validate().is_ok());
    let given = options(&[
        "--max-connections",
        "+007",
        "--max-run-status-bytes",
        "18446744073709551615",
        "--payload-bytes",
        "65535",
    ])
    .limits()
    .expect("numbers");
    assert_eq!(given.connections, 7);
    assert_eq!(given.status, u64::MAX);
    assert_eq!(given.payload, 65_535);
    for (option, value) in [
        ("--max-connections", ""),
        ("--queue-records", "+"),
        ("--payload-bytes", "65536"),
        ("--turn-steps", "-1"),
        ("--retained-bytes", "1 "),
        ("--max-active-recordings", "x"),
        ("--max-recordings-per-run", "18446744073709551616"),
        ("--max-file-bytes", "99999999999999999999999"),
        ("--max-recording-summary-bytes", "1.0"),
        ("--max-run-status-bytes", "٣"),
    ] {
        assert_eq!(
            options(&[option, value]).limits().expect_err("unreadable"),
            format!("invalid {option}")
        );
    }
    assert_eq!(
        options(&["--max-run-status-bytes", "x", "--turn-steps", "y"])
            .limits()
            .expect_err("first unreadable"),
        "invalid --turn-steps"
    );
}

#[test]
fn infeasible_limits_are_refused_with_their_complaint() {
    let good = options(&[]).limits().expect("defaults");
    let cases = [
        (Config { file: 43, ..good }, "infeasible output limits"),
        (Config { summary: 0, ..good }, "infeasible output limits"),
        (Config { status: 0, ..good }, "infeasible output limits"),
        (
            Config { active: 0, ..good },
            "max active recordings must be positive and no greater than max connections",
        ),
        (
            Config { active: 17, ..good },
            "max active recordings must be positive and no greater than max connections",
        ),
        (
            Config { queue: 0, ..good },
            "receiver and recording limits must be positive",
        ),
        (
            Config { run: 0, ..good },
            "receiver and recording limits must be positive",
        ),
        (
            Config {
                file: u64::MAX,
                ..good
            },
            "output limit overflow",
        ),
        (
            Config {
                run: u64::MAX,
                ..good
            },
            "output limit overflow",
        ),
    ];
    for (config, expected) in cases {
        assert_eq!(config.validate().expect_err("refused"), expected);
    }
    assert!(Config { file: 44, ..good }.validate().is_ok());
}

fn id(sequence: usize) -> ConnectionId {
    ConnectionId::new(3, sequence)
}

fn record(sequence: usize, offset: u64, kind: RecordKind) -> Record {
    Record {
        connection: id(sequence),
        offset: WireOffset::new(offset),
        observed_at: Instant::now(),
        kind,
    }
}

fn connected(sequence: usize) -> Record {
    record(
        sequence,
        0,
        RecordKind::Connected {
            peer: "127.0.0.1:9".to_string(),
        },
    )
}

fn ended(sequence: usize, reason: EndReason) -> Record {
    record(sequence, 0, RecordKind::Ended { uuid: None, reason })
}

fn wire(sequence: usize, offset: u64, payload: &[u8]) -> Record {
    let bytes = ByteBudget::new(64).try_copy(payload).ok().expect("fits");
    record(sequence, offset, RecordKind::Wire { bytes })
}

fn config(run: u64, active: usize) -> Config {
    Config {
        run,
        active,
        ..options(&[]).limits().expect("defaults")
    }
}

fn perform(capture: &mut Capture, sequence: usize) -> Option<Cause> {
    loop {
        let outcome = match capture.step(id(sequence)) {
            Step::Rest => return None,
            Step::Write(..) => Outcome::Wrote(capture.chunk(id(sequence)).len()),
            Step::Seek | Step::Flush(..) => Outcome::Completed,
        };
        if let Some(cause) = capture.done(id(sequence), outcome) {
            return Some(cause);
        }
    }
}

fn open(capture: &mut Capture, sequence: usize) {
    assert_eq!(capture.connected(false), Admission::Granted);
    capture.opened(id(sequence));
    assert_eq!(perform(capture, sequence), None);
    assert_eq!(capture.receive(&connected(sequence)), Received::Due);
    assert_eq!(perform(capture, sequence), None);
}

fn clean_worker() -> WorkerEnd {
    WorkerEnd::Stopped(RunSummary::default())
}

#[test]
fn a_clean_recording_concludes_after_its_terminal_record_and_succeeds() {
    let mut capture = Capture::new(&config(2, 1));
    open(&mut capture, 2);
    assert_eq!(capture.receive(&wire(2, 0, &[1, 2])), Received::Due);
    assert_eq!(perform(&mut capture, 2), None);
    assert!(capture.conclude(id(2)).is_none());
    let end = ended(2, EndReason::CleanEof);
    assert_eq!(capture.receive(&end), Received::Due);
    assert_eq!(perform(&mut capture, 2), None);
    let conclusion = capture.conclude(id(2)).expect("concluded");
    assert_eq!(conclusion.outcome, RecordingOutcome::Observed);
    assert_eq!(conclusion.summary.wire_bytes, 2);
    assert_eq!(conclusion.summary.patch_bytes, 44);
    assert!(conclusion.receipt.is_none());
    assert_eq!(capture.first_open(), None);
    assert_eq!(capture.reserved(), 1);
    assert_eq!(capture.counts(), Counts::default());
    assert!(capture.succeeded(0, clean_worker(), false, false));
    assert!(!capture.succeeded(1, clean_worker(), false, false));
    assert!(!capture.succeeded(0, clean_worker(), true, false));
    assert!(!capture.succeeded(0, clean_worker(), false, true));
    assert!(!capture.succeeded(0, WorkerEnd::Panicked, false, false));
    assert!(!capture.succeeded(
        0,
        WorkerEnd::Failed(RunSummary::default()),
        false,
        false
    ));
    let abandoned = RunSummary {
        abandoned: 1,
        ..RunSummary::default()
    };
    assert!(!capture.succeeded(0, WorkerEnd::Stopped(abandoned), false, false));
    assert_eq!(WorkerEnd::Stopped(abandoned).summary(), Some(abandoned));
    assert_eq!(WorkerEnd::Panicked.summary(), None);
}

#[test]
fn admission_ends_with_the_run_allowance_and_with_open_recordings() {
    let mut capture = Capture::new(&config(2, 1));
    assert_eq!(capture.connected(true), Admission::Ignored);
    open(&mut capture, 5);
    assert_eq!(
        capture.connected(false),
        Admission::Refused(Cause::Local),
        "one recording is open"
    );
    assert_eq!(capture.receive(&ended(5, EndReason::Terminate)), Received::Due);
    assert_eq!(perform(&mut capture, 5), None);
    assert!(capture.conclude(id(5)).is_some());
    open(&mut capture, 6);
    assert_eq!(
        capture.connected(false),
        Admission::Refused(Cause::Admission),
        "admission is not released after clean completion"
    );
    assert_eq!(capture.reserved(), 2);
    assert_eq!(capture.counts().stopped, 1);
    assert_eq!(capture.counts().admission, 2);
    assert!(!capture.succeeded(0, clean_worker(), false, false));
}

#[test]
fn failures_leave_their_mark_on_the_run() {
    let mut capture = Capture::new(&config(9, 9));
    open(&mut capture, 2);
    assert!(capture.succeeded(0, clean_worker(), false, false));
    assert_eq!(
        capture.receive(&wire(2, 5, &[1])),
        Received::Failed(Cause::Local)
    );
    assert!(!capture.succeeded(0, clean_worker(), false, false));
    let mut refused = Capture::new(&config(9, 9));
    assert_eq!(refused.summary_refused(true), None);
    assert!(!refused.succeeded(0, clean_worker(), false, false));
}

#[test]
fn failed_recordings_drop_records_and_leave_a_receipt() {
    let mut capture = Capture::new(&config(9, 9));
    open(&mut capture, 2);
    assert_eq!(
        capture.receive(&wire(2, 5, &[1])),
        Received::Failed(Cause::Local),
        "wire offset disagrees"
    );
    assert_eq!(capture.receive(&wire(2, 0, &[1, 2, 3])), Received::Dropped);
    assert_eq!(capture.step(id(2)), Step::Rest);
    assert!(capture.conclude(id(2)).is_none());
    assert_eq!(capture.connected(false), Admission::Granted);
    assert_eq!(capture.files_refused(id(1)), Cause::Local);
    assert_eq!(capture.receive(&wire(7, 0, &[4, 5])), Received::Unowned);
    assert_eq!(capture.directory_refused(), Cause::Local);
    assert_eq!(capture.summary_refused(false), Some(Cause::Local));
    assert_eq!(capture.summary_refused(true), None);
    let counts = capture.counts();
    assert_eq!((counts.failed, counts.failed_bytes), (1, 3));
    assert_eq!((counts.unowned, counts.unowned_bytes), (1, 2));
    assert_eq!((counts.admission, counts.metadata), (1, 2));
    assert_eq!(capture.first_open(), Some(id(1)));
    let creation = capture.close(id(1)).expect("entry");
    assert_eq!(creation.receipt, Some(Receipt::from_creation()));
    assert_eq!(creation.outcome.text(), "failed");
    assert_eq!(capture.first_open(), Some(id(2)));
    let failed = capture.close(id(2)).expect("entry");
    let receipt = failed.receipt.expect("receipt");
    assert_eq!(receipt.stage, Some(RecordingStage::Validate));
    assert!(receipt.invalid);
    assert_eq!((receipt.dropped, receipt.bytes), (1, 3));
    assert!(capture.close(id(2)).is_none());
}

#[test]
fn an_output_failure_fails_the_recording_and_stops_the_run() {
    let mut capture = Capture::new(&config(9, 9));
    assert_eq!(capture.connected(false), Admission::Granted);
    capture.opened(id(4));
    assert!(matches!(capture.step(id(4)), Step::Write(..)));
    assert_eq!(capture.done(id(4), Outcome::Wrote(10)), None);
    assert_eq!(
        capture.done(id(4), Outcome::Failed(std::io::Error::other("disk"))),
        Some(Cause::Local)
    );
    let receipt = capture.close(id(4)).expect("entry").receipt.expect("receipt");
    assert_eq!(receipt.stage, Some(RecordingStage::Header));
    assert!(!receipt.invalid);
    assert_eq!(receipt.summary.header_bytes, 10);
}

#[test]
fn recordings_without_a_terminal_record_are_incomplete() {
    let mut capture = Capture::new(&config(9, 9));
    open(&mut capture, 2);
    capture.wind_up(id(2));
    assert_eq!(perform(&mut capture, 2), None);
    let conclusion = capture.close(id(2)).expect("entry");
    assert_eq!(conclusion.outcome, RecordingOutcome::Incomplete);
    assert_eq!(conclusion.outcome.text(), "incomplete");
    assert_eq!(conclusion.summary.patch_bytes, 44);
    assert!(!capture.succeeded(0, clean_worker(), false, false));
    let mut truncated = Capture::new(&config(9, 9));
    open(&mut truncated, 2);
    let reason = EndReason::Truncated(phonowire::FinishError::Failed);
    assert_eq!(truncated.receive(&ended(2, reason)), Received::Due);
    assert_eq!(perform(&mut truncated, 2), None);
    let conclusion = truncated.conclude(id(2)).expect("concluded");
    assert_eq!(conclusion.outcome, RecordingOutcome::Failed);
    assert!(!truncated.succeeded(0, clean_worker(), false, false));
}

#[test]
fn dropped_payloads_are_wire_and_audio_bytes() {
    assert_eq!(bytes(&wire(1, 0, &[1, 2, 3])), 3);
    assert_eq!(bytes(&connected(1)), 0);
    let mut budget = ByteBudget::new(64);
    let pcm = budget.try_copy(&[1, 2]).ok().expect("fits");
    assert_eq!(
        bytes(&record(
            1,
            0,
            RecordKind::Audio {
                uuid: Uuid::new([0; 16]),
                rate: SampleRate::Khz8,
                bytes: pcm
            }
        )),
        2
    );
    let error = budget.try_copy(&[1, 2]).ok().expect("fits");
    assert_eq!(bytes(&ended(1, EndReason::PeerError(error))), 0);
}

#[test]
fn recording_summaries_are_literal_json() {
    let summary = RecordingSummary {
        wire_bytes: 27,
        audio_bytes: 2,
        event_bytes: 300,
        header_bytes: 44,
        patch_bytes: 44,
        end: RecordingEnd::Observed(TerminalKind::Terminate),
    };
    assert_eq!(
        json_summary(id(2), "observed", summary, None),
        "{\"connection\":{\"instance\":3,\"sequence\":2},\"outcome\":\"observed\",\"recording\":{\"wire_bytes\":27,\"audio_bytes\":2,\"event_bytes\":300,\"header_bytes\":44,\"patch_bytes\":44,\"end\":\"Observed(Terminate)\"},\"failure\":{\"stage\":\"null\",\"class\":\"null\",\"dropped_records\":0,\"dropped_bytes\":0}}"
    );
    let receipt = Receipt {
        stage: Some(RecordingStage::FlushWave),
        invalid: true,
        summary,
        dropped: 4,
        bytes: 5,
    };
    assert!(json_summary(id(2), "failed", summary, Some(&receipt)).ends_with(
        "\"failure\":{\"stage\":\"flush_wave\",\"class\":\"invalid\",\"dropped_records\":4,\"dropped_bytes\":5}}"
    ));
    assert!(
        json_summary(id(2), "failed", RecordingSummary::default(), Some(&Receipt::from_creation()))
            .ends_with(
                "\"end\":\"Incomplete\"},\"failure\":{\"stage\":\"create\",\"class\":\"io\",\"dropped_records\":0,\"dropped_bytes\":0}}"
            )
    );
    for (failed, name) in [
        (RecordingStage::Validate, "validate"),
        (RecordingStage::Header, "header"),
        (RecordingStage::Wire, "wire"),
        (RecordingStage::Audio, "audio"),
        (RecordingStage::Events, "events"),
        (RecordingStage::Seek, "seek"),
        (RecordingStage::Patch, "patch"),
        (RecordingStage::FlushWire, "flush_wire"),
        (RecordingStage::FlushWave, "flush_wave"),
        (RecordingStage::FlushEvents, "flush_events"),
    ] {
        assert_eq!(stage(failed), name);
    }
    for kind in [
        TerminalKind::CleanEof,
        TerminalKind::PeerError,
        TerminalKind::InvalidMessage,
        TerminalKind::Decode,
        TerminalKind::Truncated,
        TerminalKind::Policy,
        TerminalKind::Transport,
        TerminalKind::ResourceRefused,
        TerminalKind::OffsetExhausted,
    ] {
        let end = RecordingEnd::Observed(kind);
        let summary = RecordingSummary { end, ..summary };
        assert!(json_summary(id(2), "x", summary, None)
            .contains(&format!("\"end\":\"{end:?}\"")));
    }
}

#[test]
fn run_status_is_literal_json() {
    assert_eq!(receiver_json(None), "null");
    let summary = RunSummary {
        accepted: 1,
        refused: 2,
        ended: 3,
        abandoned: 4,
        live: 5,
        raw_bytes_read: 6,
        raw_bytes_handed_off: 7,
        undelivered_raw_bytes: 8,
        records_handed_off: 9,
        undelivered_records: 10,
        retained_output_bytes: 11,
        fixed_buffer_capacity: 12,
        stopped_by: Some(StopCause::Requested),
        counters_complete: true,
        ..RunSummary::default()
    };
    let receiver = "{\"accepted\":1,\"refused\":2,\"ended\":3,\"abandoned\":4,\"live\":5,\"raw_bytes_read\":6,\"raw_bytes_handed_off\":7,\"undelivered_raw_bytes\":8,\"records_handed_off\":9,\"undelivered_records\":10,\"retained_output_bytes\":11,\"fixed_buffer_capacity\":12,\"stopped_by\":\"Some(Requested)\",\"counters_complete\":true}";
    assert_eq!(receiver_json(Some(summary)), receiver);
    assert!(receiver_json(Some(RunSummary {
        stopped_by: Some(StopCause::ConsumerDisconnected),
        counters_complete: false,
        ..summary
    }))
    .ends_with("\"stopped_by\":\"Some(ConsumerDisconnected)\",\"counters_complete\":false}"));
    assert!(receiver_json(Some(RunSummary::default())).contains("\"stopped_by\":\"None\""));
    let counts = Counts {
        admission: 2,
        stopped: 3,
        unowned: 4,
        unowned_bytes: 5,
        failed: 6,
        failed_bytes: 7,
        metadata: 8,
    };
    let mut info = StopInfo::default();
    let head = "{\"reserved_recordings\":1,\"admission_refused\":2,\"stopped_refused\":3,\"unowned_records\":4,\"unowned_bytes\":5,\"failed_records\":6,\"failed_bytes\":7,\"metadata_failures\":8,\"final_budget_used\":9,";
    assert_eq!(
        status_json(1, counts, 9, &info, None),
        format!("{head}\"first_stop_cause\":null,\"stop_wake_error\":null,\"signals\":0,\"receiver\":null}}")
    );
    assert!(!stop_wake_failed(&info));
    let mut won = false;
    count_signal(&mut info);
    assert!(claim_stop(&mut won, &mut info, Cause::Admission));
    info.wake = Some("broken pipe".to_string());
    assert_eq!(
        status_json(1, counts, 9, &info, Some(summary)),
        format!("{head}\"first_stop_cause\":\"admission_exhausted\",\"stop_wake_error\":\"broken pipe\",\"signals\":1,\"receiver\":{receiver}}}")
    );
    assert_eq!(Cause::Signal.text(), "signal");
    assert_eq!(Cause::Local.text(), "local_failure");
}
