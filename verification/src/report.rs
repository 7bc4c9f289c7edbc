//! Texts that the capture program leaves about recordings and runs.
use vstd::prelude::*;
use vstd::string::StringExecFns;

use crate::record::{ConnectionId, Ending};
use crate::recording::{
    class_of, RecordingEnd, RecordingError, RecordingFailure, RecordingStage, RecordingSummary, TerminalKind,
};
use crate::summary::{RunSummary, StopCause};
use crate::text::{decimal, push_decimal};

verus! {

/// Why a run is to stop.
#[derive(Clone, Copy, Debug, PartialEq, Eq, Structural)]
pub enum Cause {
    /// A signal arrived.
    Signal,
    /// Something failed here.
    Local,
    /// The run has admitted all its recordings.
    Admission,
}

/// The name of a cause.
pub open spec fn cause_name(cause: Cause) -> Seq<char> {
    match cause {
        Cause::Signal => "signal"@,
        Cause::Local => "local_failure"@,
        Cause::Admission => "admission_exhausted"@,
    }
}

impl Cause {
    /// Returns the name of a cause.
    #[must_use]
    pub fn text(self) -> (text: &'static str)
        ensures
            text@ == cause_name(self),
    {
        match self {
            Cause::Signal => "signal",
            Cause::Local => "local_failure",
            Cause::Admission => "admission_exhausted",
        }
    }
}

/// The name of a recording stage.
pub open spec fn stage_name(stage: RecordingStage) -> Seq<char> {
    match stage {
        RecordingStage::Validate => "validate"@,
        RecordingStage::Header => "header"@,
        RecordingStage::Wire => "wire"@,
        RecordingStage::Audio => "audio"@,
        RecordingStage::Events => "events"@,
        RecordingStage::Seek => "seek"@,
        RecordingStage::Patch => "patch"@,
        RecordingStage::FlushWire => "flush_wire"@,
        RecordingStage::FlushWave => "flush_wave"@,
        RecordingStage::FlushEvents => "flush_events"@,
    }
}

/// Returns the name of a recording stage.
#[must_use]
pub fn stage(failed: RecordingStage) -> (text: &'static str)
    ensures
        text@ == stage_name(failed),
{
    match failed {
        RecordingStage::Validate => "validate",
        RecordingStage::Header => "header",
        RecordingStage::Wire => "wire",
        RecordingStage::Audio => "audio",
        RecordingStage::Events => "events",
        RecordingStage::Seek => "seek",
        RecordingStage::Patch => "patch",
        RecordingStage::FlushWire => "flush_wire",
        RecordingStage::FlushWave => "flush_wave",
        RecordingStage::FlushEvents => "flush_events",
    }
}

/// What a failed recording leaves: where it failed, of what class the failure is,
/// what was confirmed before, and what was dropped after.
#[derive(Clone, Copy, Debug, PartialEq, Eq, Structural)]
pub struct Receipt {
    /// The stage that failed; none where the files could not be created.
    pub stage: Option<RecordingStage>,
    /// Whether a record was refused, as opposed to an output operation failing.
    pub invalid: bool,
    /// The confirmed output.
    pub summary: RecordingSummary,
    /// Records that arrived after the failure.
    pub dropped: u64,
    /// Payload bytes of those records.
    pub bytes: u64,
}

impl Receipt {
    /// What a recording error leaves.
    pub open spec fn of(error: RecordingError) -> Receipt {
        Receipt {
            stage: Some(error.at()),
            invalid: error.cause() is Invalid,
            summary: error.confirmed(),
            dropped: 0,
            bytes: 0,
        }
    }

    /// What a recording leaves whose files could not be created.
    pub open spec fn of_creation() -> Receipt {
        Receipt {
            stage: None,
            invalid: false,
            summary: RecordingSummary {
                wire_bytes: 0,
                audio_bytes: 0,
                event_bytes: 0,
                header_bytes: 0,
                patch_bytes: 0,
                end: RecordingEnd::Incomplete,
            },
            dropped: 0,
            bytes: 0,
        }
    }

    /// Returns what a recording error leaves.
    #[must_use]
    pub fn from_error(error: &RecordingError) -> (receipt: Receipt)
        ensures
            receipt == Receipt::of(*error),
    {
        Receipt {
            stage: Some(error.stage()),
            invalid: match error.failure() {
                RecordingFailure::Io(_) => false,
                RecordingFailure::Invalid(_) => true,
            },
            summary: *error.summary(),
            dropped: 0,
            bytes: 0,
        }
    }

    /// Returns what a recording leaves whose files could not be created.
    #[must_use]
    pub fn from_creation() -> (receipt: Receipt)
        ensures
            receipt == Receipt::of_creation(),
    {
        Receipt {
            stage: None,
            invalid: false,
            summary: RecordingSummary::default(),
            dropped: 0,
            bytes: 0,
        }
    }

    /// The name of the stage that failed.
    pub open spec fn stage_text(self) -> Seq<char> {
        match self.stage {
            Some(stage) => stage_name(stage),
            None => "create"@,
        }
    }

    /// The name of the failure's class.
    pub open spec fn class_text(self) -> Seq<char> {
        if self.invalid {
            "invalid"@
        } else {
            "io"@
        }
    }
}

/// The name of a terminal class.
pub open spec fn terminal_name(kind: TerminalKind) -> Seq<char> {
    match kind {
        TerminalKind::CleanEof => "CleanEof"@,
        TerminalKind::Terminate => "Terminate"@,
        TerminalKind::PeerError => "PeerError"@,
        TerminalKind::InvalidMessage => "InvalidMessage"@,
        TerminalKind::Decode => "Decode"@,
        TerminalKind::Truncated => "Truncated"@,
        TerminalKind::Policy => "Policy"@,
        TerminalKind::Transport => "Transport"@,
        TerminalKind::ResourceRefused => "ResourceRefused"@,
        TerminalKind::OffsetExhausted => "OffsetExhausted"@,
    }
}

fn terminal_text(kind: TerminalKind) -> (text: &'static str)
    ensures
        text@ == terminal_name(kind),
{
    match kind {
        TerminalKind::CleanEof => "CleanEof",
        TerminalKind::Terminate => "Terminate",
        TerminalKind::PeerError => "PeerError",
        TerminalKind::InvalidMessage => "InvalidMessage",
        TerminalKind::Decode => "Decode",
        TerminalKind::Truncated => "Truncated",
        TerminalKind::Policy => "Policy",
        TerminalKind::Transport => "Transport",
        TerminalKind::ResourceRefused => "ResourceRefused",
        TerminalKind::OffsetExhausted => "OffsetExhausted",
    }
}

/// The form of a recording's end.
pub open spec fn end_form(end: RecordingEnd) -> Seq<char> {
    match end {
        RecordingEnd::Incomplete => "Incomplete"@,
        RecordingEnd::Observed(kind) => "Observed("@ + terminal_name(kind) + ")"@,
    }
}

fn push_end(out: &mut String, end: RecordingEnd)
    ensures
        final(out)@ == old(out)@ + end_form(end),
{
    let ghost start = out@;
    match end {
        RecordingEnd::Incomplete => out.append("Incomplete"),
        RecordingEnd::Observed(kind) => {
            out.append("Observed(");
            out.append(terminal_text(kind));
            out.append(")");
            assert(out@ =~= start + end_form(end));
        },
    }
}

/// Whether an end is that of a complete and clean connection.
pub open spec fn is_clean(end: RecordingEnd) -> bool {
    end == RecordingEnd::Observed(TerminalKind::CleanEof) || end == RecordingEnd::Observed(
        TerminalKind::Terminate,
    )
}

/// Returns whether an end is that of a complete and clean connection.
#[must_use]
pub fn successful_terminal(end: RecordingEnd) -> (successful: bool)
    ensures
        successful == is_clean(end),
{
    matches!(end, RecordingEnd::Observed(TerminalKind::CleanEof | TerminalKind::Terminate))
}

/// The failure part of a recording's summary.
pub open spec fn failure_json(receipt: Option<Receipt>) -> Seq<char> {
    match receipt {
        None => "\"failure\":{\"stage\":\"null\",\"class\":\"null\",\"dropped_records\":0,\"dropped_bytes\":0}"@,
        Some(receipt) => "\"failure\":{\"stage\":\""@ + receipt.stage_text() + "\",\"class\":\""@
            + receipt.class_text() + "\",\"dropped_records\":"@ + decimal(receipt.dropped as nat)
            + ",\"dropped_bytes\":"@ + decimal(receipt.bytes as nat) + "}"@,
    }
}

/// The summary of a recording, as JSON.
pub open spec fn summary_json(
    id: (u64, usize),
    outcome: Seq<char>,
    summary: RecordingSummary,
    receipt: Option<Receipt>,
) -> Seq<char> {
    "{\"connection\":{\"instance\":"@ + decimal(id.0 as nat) + ",\"sequence\":"@ + decimal(
        id.1 as nat,
    ) + "},\"outcome\":\""@ + outcome + "\",\"recording\":{\"wire_bytes\":"@ + decimal(
        summary.wire_bytes as nat,
    ) + ",\"audio_bytes\":"@ + decimal(summary.audio_bytes as nat) + ",\"event_bytes\":"@
        + decimal(summary.event_bytes as nat) + ",\"header_bytes\":"@ + decimal(
        summary.header_bytes as nat,
    ) + ",\"patch_bytes\":"@ + decimal(summary.patch_bytes as nat) + ",\"end\":\""@ + end_form(
        summary.end,
    ) + "\"},"@ + failure_json(receipt) + "}"@
}

fn push_failure(out: &mut String, receipt: Option<&Receipt>)
    ensures
        final(out)@ == old(out)@ + failure_json(
            match receipt {
                Some(receipt) => Some(*receipt),
                None => None,
            },
        ),
{
    let ghost start = out@;
    match receipt {
        None => out.append(
            "\"failure\":{\"stage\":\"null\",\"class\":\"null\",\"dropped_records\":0,\"dropped_bytes\":0}",
        ),
        Some(receipt) => {
            out.append("\"failure\":{\"stage\":\"");
            match receipt.stage {
                Some(failed) => out.append(stage(failed)),
                None => out.append("create"),
            }
            out.append("\",\"class\":\"");
            if receipt.invalid {
                out.append("invalid");
            } else {
                out.append("io");
            }
            out.append("\",\"dropped_records\":");
            push_decimal(out, receipt.dropped);
            out.append(",\"dropped_bytes\":");
            push_decimal(out, receipt.bytes);
            out.append("}");
            assert(out@ =~= start + failure_json(Some(*receipt)));
        },
    }
}

/// Returns the summary of a recording, as JSON.
#[must_use]
pub fn json_summary(
    id: ConnectionId,
    outcome: &str,
    summary: RecordingSummary,
    receipt: Option<&Receipt>,
) -> (json: String)
    ensures
        json@ == summary_json(
            id@,
            outcome@,
            summary,
            match receipt {
                Some(receipt) => Some(*receipt),
                None => None,
            },
        ),
{
    let mut out = String::from_str("{\"connection\":{\"instance\":");
    push_decimal(&mut out, id.instance());
    out.append(",\"sequence\":");
    push_decimal(&mut out, id.sequence() as u64);
    out.append("},\"outcome\":\"");
    out.append(outcome);
    out.append("\",\"recording\":{\"wire_bytes\":");
    push_decimal(&mut out, summary.wire_bytes);
    out.append(",\"audio_bytes\":");
    push_decimal(&mut out, summary.audio_bytes);
    out.append(",\"event_bytes\":");
    push_decimal(&mut out, summary.event_bytes);
    out.append(",\"header_bytes\":");
    push_decimal(&mut out, summary.header_bytes);
    out.append(",\"patch_bytes\":");
    push_decimal(&mut out, summary.patch_bytes);
    out.append(",\"end\":\"");
    push_end(&mut out, summary.end);
    out.append("\"},");
    push_failure(&mut out, receipt);
    out.append("}");
    out
}

/// The form of the cause that stopped a worker.
pub open spec fn stop_form(cause: Option<StopCause>) -> Seq<char> {
    match cause {
        None => "None"@,
        Some(StopCause::Requested) => "Some(Requested)"@,
        Some(StopCause::ConsumerDisconnected) => "Some(ConsumerDisconnected)"@,
    }
}

fn stop_text(cause: Option<StopCause>) -> (text: &'static str)
    ensures
        text@ == stop_form(cause),
{
    match cause {
        None => "None",
        Some(StopCause::Requested) => "Some(Requested)",
        Some(StopCause::ConsumerDisconnected) => "Some(ConsumerDisconnected)",
    }
}

/// The form of a truth value.
pub open spec fn bool_form(value: bool) -> Seq<char> {
    if value {
        "true"@
    } else {
        "false"@
    }
}

/// The counters of a worker, as JSON.
pub open spec fn run_json(summary: RunSummary) -> Seq<char> {
    "{\"accepted\":"@ + decimal(summary.accepted as nat) + ",\"refused\":"@ + decimal(
        summary.refused as nat,
    ) + ",\"ended\":"@ + decimal(summary.ended as nat) + ",\"abandoned\":"@ + decimal(
        summary.abandoned as nat,
    ) + ",\"live\":"@ + decimal(summary.live as nat) + ",\"raw_bytes_read\":"@ + decimal(
        summary.raw_bytes_read as nat,
    ) + ",\"raw_bytes_handed_off\":"@ + decimal(summary.raw_bytes_handed_off as nat)
        + ",\"undelivered_raw_bytes\":"@ + decimal(summary.undelivered_raw_bytes as nat)
        + ",\"records_handed_off\":"@ + decimal(summary.records_handed_off as nat)
        + ",\"undelivered_records\":"@ + decimal(summary.undelivered_records as nat)
        + ",\"retained_output_bytes\":"@ + decimal(summary.retained_output_bytes as nat)
        + ",\"fixed_buffer_capacity\":"@ + decimal(summary.fixed_buffer_capacity as nat)
        + ",\"stopped_by\":\""@ + stop_form(summary.stopped_by) + "\",\"counters_complete\":"@
        + bool_form(summary.counters_complete) + "}"@
}

/// Returns the counters of a worker, as JSON.
#[must_use]
pub fn receiver_json(summary: Option<RunSummary>) -> (json: String)
    ensures
        json@ == match summary {
            Some(summary) => run_json(summary),
            None => "null"@,
        },
{
    let summary = match summary {
        Some(summary) => summary,
        None => return String::from_str("null"),
    };
    let mut out = String::from_str("{\"accepted\":");
    push_decimal(&mut out, summary.accepted as u64);
    out.append(",\"refused\":");
    push_decimal(&mut out, summary.refused as u64);
    out.append(",\"ended\":");
    push_decimal(&mut out, summary.ended as u64);
    out.append(",\"abandoned\":");
    push_decimal(&mut out, summary.abandoned as u64);
    out.append(",\"live\":");
    push_decimal(&mut out, summary.live as u64);
    out.append(",\"raw_bytes_read\":");
    push_decimal(&mut out, summary.raw_bytes_read);
    out.append(",\"raw_bytes_handed_off\":");
    push_decimal(&mut out, summary.raw_bytes_handed_off);
    out.append(",\"undelivered_raw_bytes\":");
    push_decimal(&mut out, summary.undelivered_raw_bytes);
    out.append(",\"records_handed_off\":");
    push_decimal(&mut out, summary.records_handed_off);
    out.append(",\"undelivered_records\":");
    push_decimal(&mut out, summary.undelivered_records as u64);
    out.append(",\"retained_output_bytes\":");
    push_decimal(&mut out, summary.retained_output_bytes as u64);
    out.append(",\"fixed_buffer_capacity\":");
    push_decimal(&mut out, summary.fixed_buffer_capacity as u64);
    out.append(",\"stopped_by\":\"");
    out.append(stop_text(summary.stopped_by));
    out.append("\",\"counters_complete\":");
    if summary.counters_complete {
        out.append("true");
    } else {
        out.append("false");
    }
    out.append("}");
    out
}

/// Counts of what a capture run refused, dropped or failed to write.
#[derive(Clone, Copy, Debug, PartialEq, Eq, Structural)]
pub struct Counts {
    /// Connections refused because no recording could be admitted.
    pub admission: u64,
    /// Connections refused because the run was stopping.
    pub stopped: u64,
    /// Records of connections without a recording.
    pub unowned: u64,
    /// Payload bytes of those records.
    pub unowned_bytes: u64,
    /// Records of failed recordings.
    pub failed: u64,
    /// Payload bytes of those records.
    pub failed_bytes: u64,
    /// Summaries that could not be written.
    pub metadata: u64,
}

impl Counts {
    /// Nothing counted.
    pub open spec fn none() -> Counts {
        Counts {
            admission: 0,
            stopped: 0,
            unowned: 0,
            unowned_bytes: 0,
            failed: 0,
            failed_bytes: 0,
            metadata: 0,
        }
    }
}

impl Default for Counts {
    fn default() -> (counts: Counts)
        ensures
            counts == Counts::none(),
    {
        Counts {
            admission: 0,
            stopped: 0,
            unowned: 0,
            unowned_bytes: 0,
            failed: 0,
            failed_bytes: 0,
            metadata: 0,
        }
    }
}

/// What is known of the request to stop a run.
pub struct StopInfo {
    /// The first cause, if one was claimed.
    pub cause: Option<Cause>,
    /// Why the worker could not be told, if it could not.
    pub wake: Option<String>,
    /// Signals that arrived.
    pub signals: u64,
}

impl Default for StopInfo {
    fn default() -> (info: StopInfo)
        ensures
            info.cause is None,
            info.wake is None,
            info.signals == 0,
    {
        StopInfo { cause: None, wake: None, signals: 0 }
    }
}

/// What a claim of the stop came to.
pub open spec fn claimed_as(
    won: bool,
    before: StopInfo,
    after: StopInfo,
    cause: Cause,
    claimed: bool,
) -> bool {
    &&& claimed == !won
    &&& after.cause == if claimed {
        Some(cause)
    } else {
        before.cause
    }
    &&& after.wake == before.wake
    &&& after.signals == before.signals
}

/// Claims the stop of a run for a cause; only the first claim succeeds, and its cause
/// stays.
pub fn claim_stop(won: &mut bool, info: &mut StopInfo, cause: Cause) -> (claimed: bool)
    ensures
        *final(won),
        claimed_as(*old(won), *old(info), *final(info), cause, claimed),
{
    if *won {
        return false;
    }
    *won = true;
    info.cause = Some(cause);
    true
}

/// Counts a signal, as far as the counter goes.
pub fn count_signal(info: &mut StopInfo)
    ensures
        final(info).signals == if old(info).signals == u64::MAX {
            u64::MAX
        } else {
            (old(info).signals + 1) as u64
        },
        final(info).cause == old(info).cause,
        final(info).wake == old(info).wake,
{
    info.signals = info.signals.saturating_add(1);
}

/// Returns whether the worker could not be told to stop.
#[must_use]
pub fn stop_wake_failed(info: &StopInfo) -> (failed: bool)
    ensures
        failed == info.wake is Some,
{
    info.wake.is_some()
}

/// The form of the first cause of a stop.
pub open spec fn first_cause_form(cause: Option<Cause>) -> Seq<char> {
    match cause {
        None => "null"@,
        Some(cause) => "\""@ + cause_name(cause) + "\""@,
    }
}

/// The form of the reason that the worker could not be told to stop.
pub open spec fn wake_form(wake: Option<String>) -> Seq<char> {
    match wake {
        None => "null"@,
        Some(reason) => "\""@ + reason@ + "\""@,
    }
}

/// The status of a run, as JSON.
pub open spec fn run_status(
    reserved: u64,
    counts: Counts,
    used: usize,
    stop: StopInfo,
    worker: Option<RunSummary>,
) -> Seq<char> {
    "{\"reserved_recordings\":"@ + decimal(reserved as nat) + ",\"admission_refused\":"@ + decimal(
        counts.admission as nat,
    ) + ",\"stopped_refused\":"@ + decimal(counts.stopped as nat) + ",\"unowned_records\":"@
        + decimal(counts.unowned as nat) + ",\"unowned_bytes\":"@ + decimal(
        counts.unowned_bytes as nat,
    ) + ",\"failed_records\":"@ + decimal(counts.failed as nat) + ",\"failed_bytes\":"@ + decimal(
        counts.failed_bytes as nat,
    ) + ",\"metadata_failures\":"@ + decimal(counts.metadata as nat) + ",\"final_budget_used\":"@
        + decimal(used as nat) + ",\"first_stop_cause\":"@ + first_cause_form(stop.cause)
        + ",\"stop_wake_error\":"@ + wake_form(stop.wake) + ",\"signals\":"@ + decimal(
        stop.signals as nat,
    ) + ",\"receiver\":"@ + match worker {
        Some(summary) => run_json(summary),
        None => "null"@,
    } + "}"@
}

/// Returns the status of a run, as JSON.
#[must_use]
pub fn status_json(
    reserved: u64,
    counts: Counts,
    used: usize,
    stop: &StopInfo,
    worker: Option<RunSummary>,
) -> (json: String)
    ensures
        json@ == run_status(reserved, counts, used, *stop, worker),
{
    let mut out = String::from_str("{\"reserved_recordings\":");
    push_decimal(&mut out, reserved);
    out.append(",\"admission_refused\":");
    push_decimal(&mut out, counts.admission);
    out.append(",\"stopped_refused\":");
    push_decimal(&mut out, counts.stopped);
    out.append(",\"unowned_records\":");
    push_decimal(&mut out, counts.unowned);
    out.append(",\"unowned_bytes\":");
    push_decimal(&mut out, counts.unowned_bytes);
    out.append(",\"failed_records\":");
    push_decimal(&mut out, counts.failed);
    out.append(",\"failed_bytes\":");
    push_decimal(&mut out, counts.failed_bytes);
    out.append(",\"metadata_failures\":");
    push_decimal(&mut out, counts.metadata);
    out.append(",\"final_budget_used\":");
    push_decimal(&mut out, used as u64);
    out.append(",\"first_stop_cause\":");
    let ghost before_cause = out@;
    match stop.cause {
        None => out.append("null"),
        Some(cause) => {
            out.append("\"");
            out.append(cause.text());
            out.append("\"");
        },
    }
    assert(out@ =~= before_cause + first_cause_form(stop.cause));
    out.append(",\"stop_wake_error\":");
    let ghost before_wake = out@;
    match &stop.wake {
        None => out.append("null"),
        Some(reason) => {
            out.append("\"");
            out.append(reason.as_str());
            out.append("\"");
        },
    }
    assert(out@ =~= before_wake + wake_form(stop.wake));
    out.append(",\"signals\":");
    push_decimal(&mut out, stop.signals);
    out.append(",\"receiver\":");
    let receiver = receiver_json(worker);
    out.append(receiver.as_str());
    out.append("}");
    out
}

/// An end is clean exactly if the connection ended at a frame boundary or by the peer's
/// termination. A rejection, a failure of framing, content, transport or resources, a
/// truncation, a peer error and a missing end are not clean.
pub proof fn law_only_clean_connections_end_cleanly(ending: Ending)
    ensures
        is_clean(RecordingEnd::Observed(class_of(ending))) <==> (ending is CleanEof || ending
            is Terminate),
        !is_clean(RecordingEnd::Incomplete),
{
}

/// Whatever class an end has, it is clean only as one of a connection that closed at a
/// frame boundary or was terminated by its peer.
pub proof fn law_clean_ends_have_two_classes(kind: TerminalKind)
    ensures
        is_clean(RecordingEnd::Observed(kind)) <==> (kind is CleanEof || kind is Terminate),
{
}

/// Whether a text tells a value under a name: somewhere the name stands, then the value,
/// and then a comma, a bracket or a quotation mark.
pub open spec fn tells(json: Seq<char>, name: Seq<char>, value: Seq<char>) -> bool {
    exists|before: Seq<char>|
        {
            let told = #[trigger] (before + name) + value;
            &&& told.len() < json.len()
            &&& told.is_prefix_of(json)
            &&& json[told.len() as int] == ',' || json[told.len() as int] == '}'
                || json[told.len() as int] == '"'
        }
}

proof fn lemma_earlier_part(json: Seq<char>, whole: Seq<char>, part: Seq<char>)
    requires
        (whole + part).is_prefix_of(json),
    ensures
        whole.is_prefix_of(json),
        part.len() > 0 ==> whole.len() < json.len() && json[whole.len() as int] == part[0],
{
    if part.len() > 0 {
        assert((whole + part)[whole.len() as int] == part[0]);
    }
    assert forall|i: int| 0 <= i < whole.len() implies #[trigger] whole[i] == json[i] by {
        assert((whole + part)[i] == whole[i]);
    }
}

proof fn lemma_told(json: Seq<char>, before: Seq<char>, name: Seq<char>, value: Seq<char>)
    requires
        ({
            let told = (before + name) + value;
            &&& told.len() < json.len()
            &&& told.is_prefix_of(json)
            &&& json[told.len() as int] == ',' || json[told.len() as int] == '}'
                || json[told.len() as int] == '"'
        }),
    ensures
        tells(json, name, value),
{
}

/// The report on a worker tells each counter under its own name.
pub proof fn law_worker_reports_tell_every_counter(summary: RunSummary)
    ensures
        ({
            let json = run_json(summary);
            &&& tells(json, "{\"accepted\":"@, decimal(summary.accepted as nat))
            &&& tells(json, ",\"refused\":"@, decimal(summary.refused as nat))
            &&& tells(json, ",\"ended\":"@, decimal(summary.ended as nat))
            &&& tells(json, ",\"abandoned\":"@, decimal(summary.abandoned as nat))
            &&& tells(json, ",\"live\":"@, decimal(summary.live as nat))
            &&& tells(json, ",\"raw_bytes_read\":"@, decimal(summary.raw_bytes_read as nat))
            &&& tells(json, ",\"raw_bytes_handed_off\":"@, decimal(summary.raw_bytes_handed_off as nat))
            &&& tells(json, ",\"undelivered_raw_bytes\":"@, decimal(summary.undelivered_raw_bytes as nat))
            &&& tells(json, ",\"records_handed_off\":"@, decimal(summary.records_handed_off as nat))
            &&& tells(json, ",\"undelivered_records\":"@, decimal(summary.undelivered_records as nat))
            &&& tells(json, ",\"retained_output_bytes\":"@, decimal(summary.retained_output_bytes as nat))
            &&& tells(json, ",\"fixed_buffer_capacity\":"@, decimal(summary.fixed_buffer_capacity as nat))
            &&& tells(json, ",\"stopped_by\":\""@, stop_form(summary.stopped_by))
            &&& tells(json, "\",\"counters_complete\":"@, bool_form(summary.counters_complete))
        }),
{
    reveal_strlit("{\"accepted\":");
    reveal_strlit(",\"refused\":");
    reveal_strlit(",\"ended\":");
    reveal_strlit(",\"abandoned\":");
    reveal_strlit(",\"live\":");
    reveal_strlit(",\"raw_bytes_read\":");
    reveal_strlit(",\"raw_bytes_handed_off\":");
    reveal_strlit(",\"undelivered_raw_bytes\":");
    reveal_strlit(",\"records_handed_off\":");
    reveal_strlit(",\"undelivered_records\":");
    reveal_strlit(",\"retained_output_bytes\":");
    reveal_strlit(",\"fixed_buffer_capacity\":");
    reveal_strlit(",\"stopped_by\":\"");
    reveal_strlit("\",\"counters_complete\":");
    reveal_strlit("}");
    let json = run_json(summary);
    let s0 = "{\"accepted\":"@;
    let s1 = s0 + decimal(summary.accepted as nat);
    let s2 = s1 + ",\"refused\":"@;
    let s3 = s2 + decimal(summary.refused as nat);
    let s4 = s3 + ",\"ended\":"@;
    let s5 = s4 + decimal(summary.ended as nat);
    let s6 = s5 + ",\"abandoned\":"@;
    let s7 = s6 + decimal(summary.abandoned as nat);
    let s8 = s7 + ",\"live\":"@;
    let s9 = s8 + decimal(summary.live as nat);
    let s10 = s9 + ",\"raw_bytes_read\":"@;
    let s11 = s10 + decimal(summary.raw_bytes_read as nat);
    let s12 = s11 + ",\"raw_bytes_handed_off\":"@;
    let s13 = s12 + decimal(summary.raw_bytes_handed_off as nat);
    let s14 = s13 + ",\"undelivered_raw_bytes\":"@;
    let s15 = s14 + decimal(summary.undelivered_raw_bytes as nat);
    let s16 = s15 + ",\"records_handed_off\":"@;
    let s17 = s16 + decimal(summary.records_handed_off as nat);
    let s18 = s17 + ",\"undelivered_records\":"@;
    let s19 = s18 + decimal(summary.undelivered_records as nat);
    let s20 = s19 + ",\"retained_output_bytes\":"@;
    let s21 = s20 + decimal(summary.retained_output_bytes as nat);
    let s22 = s21 + ",\"fixed_buffer_capacity\":"@;
    let s23 = s22 + decimal(summary.fixed_buffer_capacity as nat);
    let s24 = s23 + ",\"stopped_by\":\""@;
    let s25 = s24 + stop_form(summary.stopped_by);
    let s26 = s25 + "\",\"counters_complete\":"@;
    let s27 = s26 + bool_form(summary.counters_complete);
    let s28 = s27 + "}"@;
    assert(s28 == json);
    assert(json.is_prefix_of(json));
    lemma_earlier_part(json, s27, "}"@);
    lemma_earlier_part(json, s26, bool_form(summary.counters_complete));
    lemma_earlier_part(json, s25, "\",\"counters_complete\":"@);
    lemma_earlier_part(json, s24, stop_form(summary.stopped_by));
    lemma_earlier_part(json, s23, ",\"stopped_by\":\""@);
    lemma_earlier_part(json, s22, decimal(summary.fixed_buffer_capacity as nat));
    lemma_earlier_part(json, s21, ",\"fixed_buffer_capacity\":"@);
    lemma_earlier_part(json, s20, decimal(summary.retained_output_bytes as nat));
    lemma_earlier_part(json, s19, ",\"retained_output_bytes\":"@);
    lemma_earlier_part(json, s18, decimal(summary.undelivered_records as nat));
    lemma_earlier_part(json, s17, ",\"undelivered_records\":"@);
    lemma_earlier_part(json, s16, decimal(summary.records_handed_off as nat));
    lemma_earlier_part(json, s15, ",\"records_handed_off\":"@);
    lemma_earlier_part(json, s14, decimal(summary.undelivered_raw_bytes as nat));
    lemma_earlier_part(json, s13, ",\"undelivered_raw_bytes\":"@);
    lemma_earlier_part(json, s12, decimal(summary.raw_bytes_handed_off as nat));
    lemma_earlier_part(json, s11, ",\"raw_bytes_handed_off\":"@);
    lemma_earlier_part(json, s10, decimal(summary.raw_bytes_read as nat));
    lemma_earlier_part(json, s9, ",\"raw_bytes_read\":"@);
    lemma_earlier_part(json, s8, decimal(summary.live as nat));
    lemma_earlier_part(json, s7, ",\"live\":"@);
    lemma_earlier_part(json, s6, decimal(summary.abandoned as nat));
    lemma_earlier_part(json, s5, ",\"abandoned\":"@);
    lemma_earlier_part(json, s4, decimal(summary.ended as nat));
    lemma_earlier_part(json, s3, ",\"ended\":"@);
    lemma_earlier_part(json, s2, decimal(summary.refused as nat));
    lemma_earlier_part(json, s1, ",\"refused\":"@);
    lemma_earlier_part(json, s0, decimal(summary.accepted as nat));
    assert(Seq::<char>::empty() + "{\"accepted\":"@ =~= "{\"accepted\":"@);
    lemma_told(json, Seq::empty(), "{\"accepted\":"@, decimal(summary.accepted as nat));
    lemma_told(json, s1, ",\"refused\":"@, decimal(summary.refused as nat));
    lemma_told(json, s3, ",\"ended\":"@, decimal(summary.ended as nat));
    lemma_told(json, s5, ",\"abandoned\":"@, decimal(summary.abandoned as nat));
    lemma_told(json, s7, ",\"live\":"@, decimal(summary.live as nat));
    lemma_told(json, s9, ",\"raw_bytes_read\":"@, decimal(summary.raw_bytes_read as nat));
    lemma_told(json, s11, ",\"raw_bytes_handed_off\":"@, decimal(summary.raw_bytes_handed_off as nat));
    lemma_told(json, s13, ",\"undelivered_raw_bytes\":"@, decimal(summary.undelivered_raw_bytes as nat));
    lemma_told(json, s15, ",\"records_handed_off\":"@, decimal(summary.records_handed_off as nat));
    lemma_told(json, s17, ",\"undelivered_records\":"@, decimal(summary.undelivered_records as nat));
    lemma_told(json, s19, ",\"retained_output_bytes\":"@, decimal(summary.retained_output_bytes as nat));
    lemma_told(json, s21, ",\"fixed_buffer_capacity\":"@, decimal(summary.fixed_buffer_capacity as nat));
    lemma_told(json, s23, ",\"stopped_by\":\""@, stop_form(summary.stopped_by));
    lemma_told(json, s25, "\",\"counters_complete\":"@, bool_form(summary.counters_complete));
}

/// The summary of a recording tells its connection, its outcome, each count and its end
/// under its own name.
pub proof fn law_recording_reports_tell_every_count(
    id: (u64, usize),
    outcome: Seq<char>,
    summary: RecordingSummary,
    receipt: Option<Receipt>,
)
    ensures
        ({
            let json = summary_json(id, outcome, summary, receipt);
            &&& tells(json, "{\"connection\":{\"instance\":"@, decimal(id.0 as nat))
            &&& tells(json, ",\"sequence\":"@, decimal(id.1 as nat))
            &&& tells(json, "},\"outcome\":\""@, outcome)
            &&& tells(json, "\",\"recording\":{\"wire_bytes\":"@, decimal(summary.wire_bytes as nat))
            &&& tells(json, ",\"audio_bytes\":"@, decimal(summary.audio_bytes as nat))
            &&& tells(json, ",\"event_bytes\":"@, decimal(summary.event_bytes as nat))
            &&& tells(json, ",\"header_bytes\":"@, decimal(summary.header_bytes as nat))
            &&& tells(json, ",\"patch_bytes\":"@, decimal(summary.patch_bytes as nat))
            &&& tells(json, ",\"end\":\""@, end_form(summary.end))
        }),
{
    reveal_strlit("{\"connection\":{\"instance\":");
    reveal_strlit(",\"sequence\":");
    reveal_strlit("},\"outcome\":\"");
    reveal_strlit("\",\"recording\":{\"wire_bytes\":");
    reveal_strlit(",\"audio_bytes\":");
    reveal_strlit(",\"event_bytes\":");
    reveal_strlit(",\"header_bytes\":");
    reveal_strlit(",\"patch_bytes\":");
    reveal_strlit(",\"end\":\"");
    reveal_strlit("\"},");
    let json = summary_json(id, outcome, summary, receipt);
    let s0 = "{\"connection\":{\"instance\":"@;
    let s1 = s0 + decimal(id.0 as nat);
    let s2 = s1 + ",\"sequence\":"@;
    let s3 = s2 + decimal(id.1 as nat);
    let s4 = s3 + "},\"outcome\":\""@;
    let s5 = s4 + outcome;
    let s6 = s5 + "\",\"recording\":{\"wire_bytes\":"@;
    let s7 = s6 + decimal(summary.wire_bytes as nat);
    let s8 = s7 + ",\"audio_bytes\":"@;
    let s9 = s8 + decimal(summary.audio_bytes as nat);
    let s10 = s9 + ",\"event_bytes\":"@;
    let s11 = s10 + decimal(summary.event_bytes as nat);
    let s12 = s11 + ",\"header_bytes\":"@;
    let s13 = s12 + decimal(summary.header_bytes as nat);
    let s14 = s13 + ",\"patch_bytes\":"@;
    let s15 = s14 + decimal(summary.patch_bytes as nat);
    let s16 = s15 + ",\"end\":\""@;
    let s17 = s16 + end_form(summary.end);
    let s18 = s17 + "\"},"@;
    let s19 = s18 + failure_json(receipt);
    assert(s19 + "}"@ == json);
    assert(json.is_prefix_of(json));
    lemma_earlier_part(json, s19, "}"@);
    lemma_earlier_part(json, s18, failure_json(receipt));
    lemma_earlier_part(json, s17, "\"},"@);
    lemma_earlier_part(json, s16, end_form(summary.end));
    lemma_earlier_part(json, s15, ",\"end\":\""@);
    lemma_earlier_part(json, s14, decimal(summary.patch_bytes as nat));
    lemma_earlier_part(json, s13, ",\"patch_bytes\":"@);
    lemma_earlier_part(json, s12, decimal(summary.header_bytes as nat));
    lemma_earlier_part(json, s11, ",\"header_bytes\":"@);
    lemma_earlier_part(json, s10, decimal(summary.event_bytes as nat));
    lemma_earlier_part(json, s9, ",\"event_bytes\":"@);
    lemma_earlier_part(json, s8, decimal(summary.audio_bytes as nat));
    lemma_earlier_part(json, s7, ",\"audio_bytes\":"@);
    lemma_earlier_part(json, s6, decimal(summary.wire_bytes as nat));
    lemma_earlier_part(json, s5, "\",\"recording\":{\"wire_bytes\":"@);
    lemma_earlier_part(json, s4, outcome);
    lemma_earlier_part(json, s3, "},\"outcome\":\""@);
    lemma_earlier_part(json, s2, decimal(id.1 as nat));
    lemma_earlier_part(json, s1, ",\"sequence\":"@);
    lemma_earlier_part(json, s0, decimal(id.0 as nat));
    assert(Seq::<char>::empty() + "{\"connection\":{\"instance\":"@ =~= "{\"connection\":{\"instance\":"@);
    lemma_told(json, Seq::empty(), "{\"connection\":{\"instance\":"@, decimal(id.0 as nat));
    lemma_told(json, s1, ",\"sequence\":"@, decimal(id.1 as nat));
    lemma_told(json, s3, "},\"outcome\":\""@, outcome);
    lemma_told(json, s5, "\",\"recording\":{\"wire_bytes\":"@, decimal(summary.wire_bytes as nat));
    lemma_told(json, s7, ",\"audio_bytes\":"@, decimal(summary.audio_bytes as nat));
    lemma_told(json, s9, ",\"event_bytes\":"@, decimal(summary.event_bytes as nat));
    lemma_told(json, s11, ",\"header_bytes\":"@, decimal(summary.header_bytes as nat));
    lemma_told(json, s13, ",\"patch_bytes\":"@, decimal(summary.patch_bytes as nat));
    lemma_told(json, s15, ",\"end\":\""@, end_form(summary.end));
}

/// The status of a run tells each count, the first cause and the worker's report under
/// its own name.
pub proof fn law_run_reports_tell_every_count(
    reserved: u64,
    counts: Counts,
    used: usize,
    stop: StopInfo,
    worker: Option<RunSummary>,
)
    ensures
        ({
            let json = run_status(reserved, counts, used, stop, worker);
            &&& tells(json, "{\"reserved_recordings\":"@, decimal(reserved as nat))
            &&& tells(json, ",\"admission_refused\":"@, decimal(counts.admission as nat))
            &&& tells(json, ",\"stopped_refused\":"@, decimal(counts.stopped as nat))
            &&& tells(json, ",\"unowned_records\":"@, decimal(counts.unowned as nat))
            &&& tells(json, ",\"unowned_bytes\":"@, decimal(counts.unowned_bytes as nat))
            &&& tells(json, ",\"failed_records\":"@, decimal(counts.failed as nat))
            &&& tells(json, ",\"failed_bytes\":"@, decimal(counts.failed_bytes as nat))
            &&& tells(json, ",\"metadata_failures\":"@, decimal(counts.metadata as nat))
            &&& tells(json, ",\"final_budget_used\":"@, decimal(used as nat))
            &&& tells(json, ",\"first_stop_cause\":"@, first_cause_form(stop.cause))
            &&& tells(json, ",\"stop_wake_error\":"@, wake_form(stop.wake))
            &&& tells(json, ",\"signals\":"@, decimal(stop.signals as nat))
            &&& tells(json, ",\"receiver\":"@, worker_form(worker))
        }),
{
    reveal_strlit("{\"reserved_recordings\":");
    reveal_strlit(",\"admission_refused\":");
    reveal_strlit(",\"stopped_refused\":");
    reveal_strlit(",\"unowned_records\":");
    reveal_strlit(",\"unowned_bytes\":");
    reveal_strlit(",\"failed_records\":");
    reveal_strlit(",\"failed_bytes\":");
    reveal_strlit(",\"metadata_failures\":");
    reveal_strlit(",\"final_budget_used\":");
    reveal_strlit(",\"first_stop_cause\":");
    reveal_strlit(",\"stop_wake_error\":");
    reveal_strlit(",\"signals\":");
    reveal_strlit(",\"receiver\":");
    reveal_strlit("}");
    let json = run_status(reserved, counts, used, stop, worker);
    let s0 = "{\"reserved_recordings\":"@;
    let s1 = s0 + decimal(reserved as nat);
    let s2 = s1 + ",\"admission_refused\":"@;
    let s3 = s2 + decimal(counts.admission as nat);
    let s4 = s3 + ",\"stopped_refused\":"@;
    let s5 = s4 + decimal(counts.stopped as nat);
    let s6 = s5 + ",\"unowned_records\":"@;
    let s7 = s6 + decimal(counts.unowned as nat);
    let s8 = s7 + ",\"unowned_bytes\":"@;
    let s9 = s8 + decimal(counts.unowned_bytes as nat);
    let s10 = s9 + ",\"failed_records\":"@;
    let s11 = s10 + decimal(counts.failed as nat);
    let s12 = s11 + ",\"failed_bytes\":"@;
    let s13 = s12 + decimal(counts.failed_bytes as nat);
    let s14 = s13 + ",\"metadata_failures\":"@;
    let s15 = s14 + decimal(counts.metadata as nat);
    let s16 = s15 + ",\"final_budget_used\":"@;
    let s17 = s16 + decimal(used as nat);
    let s18 = s17 + ",\"first_stop_cause\":"@;
    let s19 = s18 + first_cause_form(stop.cause);
    let s20 = s19 + ",\"stop_wake_error\":"@;
    let s21 = s20 + wake_form(stop.wake);
    let s22 = s21 + ",\"signals\":"@;
    let s23 = s22 + decimal(stop.signals as nat);
    let s24 = s23 + ",\"receiver\":"@;
    let s25 = s24 + worker_form(worker);
    let s26 = s25 + "}"@;
    assert(s26 == json);
    assert(json.is_prefix_of(json));
    lemma_earlier_part(json, s25, "}"@);
    lemma_earlier_part(json, s24, worker_form(worker));
    lemma_earlier_part(json, s23, ",\"receiver\":"@);
    lemma_earlier_part(json, s22, decimal(stop.signals as nat));
    lemma_earlier_part(json, s21, ",\"signals\":"@);
    lemma_earlier_part(json, s20, wake_form(stop.wake));
    lemma_earlier_part(json, s19, ",\"stop_wake_error\":"@);
    lemma_earlier_part(json, s18, first_cause_form(stop.cause));
    lemma_earlier_part(json, s17, ",\"first_stop_cause\":"@);
    lemma_earlier_part(json, s16, decimal(used as nat));
    lemma_earlier_part(json, s15, ",\"final_budget_used\":"@);
    lemma_earlier_part(json, s14, decimal(counts.metadata as nat));
    lemma_earlier_part(json, s13, ",\"metadata_failures\":"@);
    lemma_earlier_part(json, s12, decimal(counts.failed_bytes as nat));
    lemma_earlier_part(json, s11, ",\"failed_bytes\":"@);
    lemma_earlier_part(json, s10, decimal(counts.failed as nat));
    lemma_earlier_part(json, s9, ",\"failed_records\":"@);
    lemma_earlier_part(json, s8, decimal(counts.unowned_bytes as nat));
    lemma_earlier_part(json, s7, ",\"unowned_bytes\":"@);
    lemma_earlier_part(json, s6, decimal(counts.unowned as nat));
    lemma_earlier_part(json, s5, ",\"unowned_records\":"@);
    lemma_earlier_part(json, s4, decimal(counts.stopped as nat));
    lemma_earlier_part(json, s3, ",\"stopped_refused\":"@);
    lemma_earlier_part(json, s2, decimal(counts.admission as nat));
    lemma_earlier_part(json, s1, ",\"admission_refused\":"@);
    lemma_earlier_part(json, s0, decimal(reserved as nat));
    assert(Seq::<char>::empty() + "{\"reserved_recordings\":"@ =~= "{\"reserved_recordings\":"@);
    lemma_told(json, Seq::empty(), "{\"reserved_recordings\":"@, decimal(reserved as nat));
    lemma_told(json, s1, ",\"admission_refused\":"@, decimal(counts.admission as nat));
    lemma_told(json, s3, ",\"stopped_refused\":"@, decimal(counts.stopped as nat));
    lemma_told(json, s5, ",\"unowned_records\":"@, decimal(counts.unowned as nat));
    lemma_told(json, s7, ",\"unowned_bytes\":"@, decimal(counts.unowned_bytes as nat));
    lemma_told(json, s9, ",\"failed_records\":"@, decimal(counts.failed as nat));
    lemma_told(json, s11, ",\"failed_bytes\":"@, decimal(counts.failed_bytes as nat));
    lemma_told(json, s13, ",\"metadata_failures\":"@, decimal(counts.metadata as nat));
    lemma_told(json, s15, ",\"final_budget_used\":"@, decimal(used as nat));
    lemma_told(json, s17, ",\"first_stop_cause\":"@, first_cause_form(stop.cause));
    lemma_told(json, s19, ",\"stop_wake_error\":"@, wake_form(stop.wake));
    lemma_told(json, s21, ",\"signals\":"@, decimal(stop.signals as nat));
    lemma_told(json, s23, ",\"receiver\":"@, worker_form(worker));
}

/// The report on a worker, if it left one.
pub open spec fn worker_form(worker: Option<RunSummary>) -> Seq<char> {
    match worker {
        Some(summary) => run_json(summary),
        None => "null"@,
    }
}

/// The failure part of a recording's summary tells the stage, the class and what was
/// dropped.
pub proof fn law_failure_reports_tell_every_count(receipt: Receipt)
    ensures
        ({
            let json = failure_json(Some(receipt));
            &&& tells(json, ",\"dropped_bytes\":"@, decimal(receipt.bytes as nat))
            &&& tells(json, "\",\"dropped_records\":"@, decimal(receipt.dropped as nat))
            &&& tells(json, "\",\"class\":\""@, receipt.class_text())
            &&& tells(json, "\"failure\":{\"stage\":\""@, receipt.stage_text())
        }),
{
    reveal_strlit("\"failure\":{\"stage\":\"");
    reveal_strlit("\",\"class\":\"");
    reveal_strlit("\",\"dropped_records\":");
    reveal_strlit(",\"dropped_bytes\":");
    reveal_strlit("}");
    let json = failure_json(Some(receipt));
    let s0 = "\"failure\":{\"stage\":\""@;
    let s1 = s0 + receipt.stage_text();
    let s2 = s1 + "\",\"class\":\""@;
    let s3 = s2 + receipt.class_text();
    let s4 = s3 + "\",\"dropped_records\":"@;
    let s5 = s4 + decimal(receipt.dropped as nat);
    let s6 = s5 + ",\"dropped_bytes\":"@;
    let s7 = s6 + decimal(receipt.bytes as nat);
    assert(s7 + "}"@ == json);
    assert(json.is_prefix_of(json));
    lemma_earlier_part(json, s7, "}"@);
    lemma_earlier_part(json, s6, decimal(receipt.bytes as nat));
    lemma_earlier_part(json, s5, ",\"dropped_bytes\":"@);
    lemma_earlier_part(json, s4, decimal(receipt.dropped as nat));
    lemma_earlier_part(json, s3, "\",\"dropped_records\":"@);
    lemma_earlier_part(json, s2, receipt.class_text());
    lemma_earlier_part(json, s1, "\",\"class\":\""@);
    lemma_told(json, s5, ",\"dropped_bytes\":"@, decimal(receipt.bytes as nat));
    lemma_told(json, s3, "\",\"dropped_records\":"@, decimal(receipt.dropped as nat));
    lemma_told(json, s1, "\",\"class\":\""@, receipt.class_text());
    assert(Seq::<char>::empty() + s0 =~= s0);
    lemma_told(json, Seq::empty(), s0, receipt.stage_text());
}

/// The receipt of a failure keeps the stage and the counts that the failure had
/// confirmed, tells a refused record from a failed output, and begins with nothing
/// dropped.
pub proof fn law_receipts_keep_what_was_confirmed(error: RecordingError)
    ensures
        Receipt::of(error).stage == Some(error.at()),
        Receipt::of(error).summary == error.confirmed(),
        Receipt::of(error).invalid <==> !(error.cause() is Io),
        Receipt::of(error).dropped == 0 && Receipt::of(error).bytes == 0,
        Receipt::of_creation().stage is None && !Receipt::of_creation().invalid,
{
}

/// The first claim of a stop wins, and its cause stays whatever is claimed after it.
pub proof fn law_the_first_cause_stays(
    start: StopInfo,
    first: StopInfo,
    second: StopInfo,
    cause: Cause,
    later: Cause,
    won: bool,
    again: bool,
)
    requires
        claimed_as(false, start, first, cause, won),
        claimed_as(true, first, second, later, again),
    ensures
        won && !again,
        second.cause == Some(cause),
        second.signals == start.signals,
        second.wake == start.wake,
{
}

/// Causes, stages and classes of an end are reported by their own names.
pub proof fn law_reports_use_the_names_of_things(
    cause: Cause,
    stage: RecordingStage,
    kind: TerminalKind,
)
    ensures
        cause is Signal ==> cause_name(cause) == "signal"@,
        cause is Local ==> cause_name(cause) == "local_failure"@,
        cause is Admission ==> cause_name(cause) == "admission_exhausted"@,
        stage is Validate ==> stage_name(stage) == "validate"@,
        stage is Header ==> stage_name(stage) == "header"@,
        stage is Wire ==> stage_name(stage) == "wire"@,
        stage is Audio ==> stage_name(stage) == "audio"@,
        stage is Events ==> stage_name(stage) == "events"@,
        stage is Seek ==> stage_name(stage) == "seek"@,
        stage is Patch ==> stage_name(stage) == "patch"@,
        stage is FlushWire ==> stage_name(stage) == "flush_wire"@,
        stage is FlushWave ==> stage_name(stage) == "flush_wave"@,
        stage is FlushEvents ==> stage_name(stage) == "flush_events"@,
        kind is CleanEof ==> terminal_name(kind) == "CleanEof"@,
        kind is Terminate ==> terminal_name(kind) == "Terminate"@,
        kind is PeerError ==> terminal_name(kind) == "PeerError"@,
        kind is InvalidMessage ==> terminal_name(kind) == "InvalidMessage"@,
        kind is Decode ==> terminal_name(kind) == "Decode"@,
        kind is Truncated ==> terminal_name(kind) == "Truncated"@,
        kind is Policy ==> terminal_name(kind) == "Policy"@,
        kind is Transport ==> terminal_name(kind) == "Transport"@,
        kind is ResourceRefused ==> terminal_name(kind) == "ResourceRefused"@,
        kind is OffsetExhausted ==> terminal_name(kind) == "OffsetExhausted"@,
{
}

} // verus!
