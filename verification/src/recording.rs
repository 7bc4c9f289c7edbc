//! Consumer-owned wire, PCM WAVE and diagnostic output of one connection.
use vstd::prelude::*;
use vstd::utf8::encode_utf8;

use crate::audio::SampleRate;
use crate::description::{clock_form, description, line_of, quoted_where_failed};
use crate::message::Uuid;
use crate::platform::{made_with, other_error, write_zero, ErrorKind};
use crate::record::{ConnectionId, Content, EndReason, Ending, Observation, Record, RecordKind};
use crate::transcript::wire_part;

verus! {

/// Bytes in a WAVE header.
pub const WAVE_HEADER_BYTES: usize = 44;

const RIFF_OVERHEAD: u64 = 36;

/// The output operation at which a recording stopped.
#[derive(Clone, Copy, Debug, PartialEq, Eq, Structural)]
pub enum RecordingStage {
    /// A record violated identity, ordering or format requirements.
    Validate,
    /// Writing the initial provisional WAVE header.
    Header,
    /// Preserving observed transport bytes.
    Wire,
    /// Writing accepted PCM samples.
    Audio,
    /// Writing one diagnostic description.
    Events,
    /// Seeking to the beginning of the WAVE header.
    Seek,
    /// Replacing the provisional WAVE sizes.
    Patch,
    /// Flushing the wire writer.
    FlushWire,
    /// Flushing the WAVE writer.
    FlushWave,
    /// Flushing the diagnostic writer.
    FlushEvents,
}

/// A terminal observation class preserved in a recording summary.
#[derive(Clone, Copy, Debug, PartialEq, Eq, Structural)]
pub enum TerminalKind {
    /// Clean transport EOF at a frame boundary.
    CleanEof,
    /// Explicit peer termination.
    Terminate,
    /// Opaque peer error.
    PeerError,
    /// Invalid typed message.
    InvalidMessage,
    /// Decoder failure.
    Decode,
    /// Truncated transport input.
    Truncated,
    /// Incoming policy rejection.
    Policy,
    /// Transport failure.
    Transport,
    /// Resource refusal.
    ResourceRefused,
    /// Exhausted byte offset.
    OffsetExhausted,
}

/// The class of a terminal result.
pub open spec fn class_of(ending: Ending) -> TerminalKind {
    match ending {
        Ending::CleanEof => TerminalKind::CleanEof,
        Ending::Terminate => TerminalKind::Terminate,
        Ending::PeerError(_) => TerminalKind::PeerError,
        Ending::InvalidMessage(_) => TerminalKind::InvalidMessage,
        Ending::Decode(_) => TerminalKind::Decode,
        Ending::Truncated(_) => TerminalKind::Truncated,
        Ending::Policy(_) => TerminalKind::Policy,
        Ending::Transport(_) => TerminalKind::Transport,
        Ending::ResourceRefused(_) => TerminalKind::ResourceRefused,
        Ending::OffsetExhausted => TerminalKind::OffsetExhausted,
    }
}

/// The terminal meaning of some observations: the class of the terminal one, or that
/// they are incomplete.
pub open spec fn end_of(told: Seq<Observation>) -> RecordingEnd
    decreases told.len(),
{
    if told.len() == 0 {
        RecordingEnd::Incomplete
    } else {
        match told.last().content {
            Content::Ended(_, ending) => RecordingEnd::Observed(class_of(ending)),
            _ => end_of(told.drop_last()),
        }
    }
}

impl TerminalKind {
    /// Returns the class of a terminal result.
    #[must_use]
    pub fn of(reason: &EndReason) -> (kind: TerminalKind)
        ensures
            kind == class_of(reason@),
    {
        match reason {
            EndReason::CleanEof => TerminalKind::CleanEof,
            EndReason::Terminate => TerminalKind::Terminate,
            EndReason::PeerError(_) => TerminalKind::PeerError,
            EndReason::InvalidMessage(_) => TerminalKind::InvalidMessage,
            EndReason::Decode(_) => TerminalKind::Decode,
            EndReason::Truncated(_) => TerminalKind::Truncated,
            EndReason::Policy(_) => TerminalKind::Policy,
            EndReason::Transport(_) => TerminalKind::Transport,
            EndReason::ResourceRefused(_) => TerminalKind::ResourceRefused,
            EndReason::OffsetExhausted => TerminalKind::OffsetExhausted,
        }
    }
}

/// Whether the consumer observed a terminal record before finalization.
#[derive(Clone, Copy, Debug, PartialEq, Eq, Structural)]
pub enum RecordingEnd {
    /// No terminal record was delivered; the accepted prefix is incomplete.
    Incomplete,
    /// A terminal record was accepted; its class does not imply successful media.
    Observed(TerminalKind),
}

impl Default for RecordingEnd {
    fn default() -> (end: RecordingEnd)
        ensures
            end is Incomplete,
    {
        RecordingEnd::Incomplete
    }
}

/// Confirmed bytes accepted by writers and the observed terminal class.
///
/// These counts include successful prefixes before a later write failure.
/// Flush completion does not imply filesystem synchronization or durability.
#[derive(Clone, Copy, Debug, PartialEq, Eq, Structural)]
pub struct RecordingSummary {
    /// Observed transport bytes accepted by the wire writer.
    pub wire_bytes: u64,
    /// PCM bytes accepted by the WAVE writer, excluding headers.
    pub audio_bytes: u64,
    /// Diagnostic bytes accepted by the event writer.
    pub event_bytes: u64,
    /// Initial WAVE header bytes accepted by its writer.
    pub header_bytes: u64,
    /// Final WAVE header bytes accepted during size replacement.
    pub patch_bytes: u64,
    /// Terminal observation accepted by the recording adapter.
    pub end: RecordingEnd,
}

impl Default for RecordingSummary {
    fn default() -> (summary: RecordingSummary)
        ensures
            summary == (RecordingSummary {
                wire_bytes: 0,
                audio_bytes: 0,
                event_bytes: 0,
                header_bytes: 0,
                patch_bytes: 0,
                end: RecordingEnd::Incomplete,
            }),
    {
        RecordingSummary {
            wire_bytes: 0,
            audio_bytes: 0,
            event_bytes: 0,
            header_bytes: 0,
            patch_bytes: 0,
            end: RecordingEnd::Incomplete,
        }
    }
}

/// A rejected record or finalization request.
#[derive(Clone, Copy, Debug, PartialEq, Eq, Structural)]
pub enum RecordingViolation {
    /// The recording has already failed and cannot mutate another writer.
    AfterFailure,
    /// A record follows the terminal observation.
    AfterEnd,
    /// The record names a different connection.
    Connection,
    /// Connection/session records occurred in an invalid order.
    Order,
    /// The record does not match the established session UUID.
    Uuid,
    /// Wire or protocol offsets disagree with the preserved prefix.
    Offset,
    /// PCM is not even-length, mono PCM16LE at the rate of the recording.
    AudioFormat,
    /// PCM would exceed the RIFF WAVE length domain.
    WaveSize,
}

/// An output error or invalid record.
#[derive(Debug)]
pub enum RecordingFailure {
    /// A writer returned an I/O error.
    Io(std::io::Error),
    /// A record failed validation before its output operation.
    Invalid(RecordingViolation),
}

/// A stopped recording with the original cause and confirmed output counts.
#[derive(Debug)]
pub struct RecordingError {
    stage: RecordingStage,
    failure: RecordingFailure,
    summary: RecordingSummary,
}

impl RecordingError {
    /// The failed operation.
    pub closed spec fn at(self) -> RecordingStage {
        self.stage
    }

    /// The original failure.
    pub closed spec fn cause(self) -> RecordingFailure {
        self.failure
    }

    /// The confirmed output prefix.
    pub closed spec fn confirmed(self) -> RecordingSummary {
        self.summary
    }

    /// Returns the failed operation.
    #[must_use]
    pub fn stage(&self) -> (stage: RecordingStage)
        ensures
            stage == self.at(),
    {
        self.stage
    }

    /// Returns the original failure.
    #[must_use]
    pub fn failure(&self) -> (failure: &RecordingFailure)
        ensures
            *failure == self.cause(),
    {
        &self.failure
    }

    /// Returns the confirmed output prefix at the failure boundary.
    #[must_use]
    pub fn summary(&self) -> (summary: &RecordingSummary)
        ensures
            *summary == self.confirmed(),
    {
        &self.summary
    }
}

/// A 16-bit number as two bytes, low byte first.
pub open spec fn little16(value: nat) -> Seq<u8> {
    seq![(value % 256) as u8, (value / 256 % 256) as u8]
}

/// A 32-bit number as four bytes, low byte first.
pub open spec fn little32(value: nat) -> Seq<u8> {
    seq![
        (value % 256) as u8,
        (value / 256 % 256) as u8,
        (value / 65_536 % 256) as u8,
        (value / 16_777_216 % 256) as u8,
    ]
}

/// The header of a RIFF WAVE file with that many bytes of mono PCM16LE: the RIFF
/// chunk with the length of what follows it, the format chunk (PCM, one channel,
/// sample rate, bytes per second, bytes per frame, bits per sample) and the head of
/// the data chunk.
#[verifier::opaque]
pub open spec fn header_of(audio: nat, rate: SampleRate) -> Seq<u8> {
    let hertz = rate.samples_per_second() as nat;
    seq![0x52u8, 0x49, 0x46, 0x46] + little32(audio + 36) + seq![0x57u8, 0x41, 0x56, 0x45] + seq![
        0x66u8,
        0x6d,
        0x74,
        0x20,
    ] + little32(16) + little16(1) + little16(1) + little32(hertz) + little32(2 * hertz) + little16(
        2,
    ) + little16(16) + seq![0x64u8, 0x61, 0x74, 0x61] + little32(audio)
}

proof fn lemma_header_length(audio: nat, rate: SampleRate)
    ensures
        header_of(audio, rate).len() == 44,
{
    reveal(header_of);
}

/// Whether that many PCM bytes can be told in a RIFF header.
pub open spec fn fits_riff(audio: nat) -> bool {
    audio + 36 <= u32::MAX
}

/// Returns the header of a WAVE file with that many bytes of PCM.
pub fn wave_header(audio_bytes: u64, rate: SampleRate) -> (result: Result<
    [u8; 44],
    RecordingViolation,
>)
    ensures
        match result {
            Ok(header) => fits_riff(audio_bytes as nat) && header@ == header_of(
                audio_bytes as nat,
                rate,
            ),
            Err(violation) => !fits_riff(audio_bytes as nat) && violation
                == RecordingViolation::WaveSize,
        },
{
    if audio_bytes > 0xffff_ffff - RIFF_OVERHEAD {
        return Err(RecordingViolation::WaveSize);
    }
    let data: u32 = audio_bytes as u32;
    let riff: u32 = data + 36;
    let hertz: u32 = rate.hertz();
    let speed: u32 = hertz * 2;
    let header: [u8; 44] = [
        0x52,
        0x49,
        0x46,
        0x46,
        (riff % 256) as u8,
        (riff / 256 % 256) as u8,
        (riff / 65_536 % 256) as u8,
        (riff / 16_777_216 % 256) as u8,
        0x57,
        0x41,
        0x56,
        0x45,
        0x66,
        0x6d,
        0x74,
        0x20,
        16,
        0,
        0,
        0,
        1,
        0,
        1,
        0,
        (hertz % 256) as u8,
        (hertz / 256 % 256) as u8,
        (hertz / 65_536 % 256) as u8,
        (hertz / 16_777_216 % 256) as u8,
        (speed % 256) as u8,
        (speed / 256 % 256) as u8,
        (speed / 65_536 % 256) as u8,
        (speed / 16_777_216 % 256) as u8,
        2,
        0,
        16,
        0,
        0x64,
        0x61,
        0x74,
        0x61,
        (data % 256) as u8,
        (data / 256 % 256) as u8,
        (data / 65_536 % 256) as u8,
        (data / 16_777_216 % 256) as u8,
    ];
    proof {
        reveal(header_of);
        assert(header@ =~= header_of(audio_bytes as nat, rate));
    }
    Ok(header)
}

/// Where a recording stands.
pub enum RecordingPhase {
    /// No record was accepted.
    AwaitingConnection,
    /// The connection was announced.
    AwaitingUuid,
    /// The session has this UUID.
    Active(Seq<u8>),
    /// The terminal record was accepted.
    Ended,
    /// The recording stopped at a failure.
    Failed,
}

/// The session UUID of a recording.
pub open spec fn recorded_identity(phase: RecordingPhase) -> Option<Seq<u8>> {
    match phase {
        RecordingPhase::Active(uuid) => Some(uuid),
        _ => None,
    }
}

/// Where a recording stands after an observation of the connection `from`, or why
/// the observation is refused.
///
/// `last` is the offset of the latest observation that is not wire bytes, and
/// `wire` and `audio` are the bytes accepted so far.
pub open spec fn judge(
    phase: RecordingPhase,
    id: (u64, usize),
    rate: SampleRate,
    last: u64,
    wire: nat,
    audio: nat,
    from: (u64, usize),
    observation: Observation,
) -> Result<RecordingPhase, RecordingViolation> {
    let offset = observation.offset;
    let content = observation.content;
    if phase is Failed {
        Err(RecordingViolation::AfterFailure)
    } else if phase is Ended {
        Err(RecordingViolation::AfterEnd)
    } else if from != id {
        Err(RecordingViolation::Connection)
    } else if phase is AwaitingConnection && !(content is Connected) {
        Err(RecordingViolation::Order)
    } else if !(content is Wire) && !(last <= offset <= wire) {
        Err(RecordingViolation::Offset)
    } else {
        match content {
            Content::Connected(_) => if phase is AwaitingConnection {
                Ok(RecordingPhase::AwaitingUuid)
            } else {
                Err(RecordingViolation::Order)
            },
            Content::Wire(_) => if offset == wire {
                Ok(phase)
            } else {
                Err(RecordingViolation::Offset)
            },
            Content::Started(uuid) => if phase is AwaitingUuid {
                Ok(RecordingPhase::Active(uuid))
            } else {
                Err(RecordingViolation::Order)
            },
            Content::Audio(uuid, declared, pcm) => if recorded_identity(phase) != Some(uuid) {
                Err(RecordingViolation::Uuid)
            } else if declared != rate || pcm.len() % 2 != 0 {
                Err(RecordingViolation::AudioFormat)
            } else if !fits_riff(audio + pcm.len()) {
                Err(RecordingViolation::WaveSize)
            } else {
                Ok(phase)
            },
            Content::Dtmf(uuid, _) => if recorded_identity(phase) != Some(uuid) {
                Err(RecordingViolation::Uuid)
            } else {
                Ok(phase)
            },
            Content::Ended(identity, _) => if recorded_identity(phase) != identity {
                Err(RecordingViolation::Uuid)
            } else {
                Ok(RecordingPhase::Ended)
            },
        }
    }
}

/// The PCM bytes in some observations, one behind the other.
pub open spec fn pcm_part(observations: Seq<Observation>) -> Seq<u8>
    decreases observations.len(),
{
    if observations.len() == 0 {
        Seq::empty()
    } else {
        match observations.last().content {
            Content::Audio(_, _, pcm) => pcm_part(observations.drop_last()) + pcm,
            _ => pcm_part(observations.drop_last()),
        }
    }
}

#[derive(Clone, Copy)]
enum State {
    AwaitingConnection,
    AwaitingUuid,
    Active(Uuid),
    Ended,
    Failed,
}

impl State {
    spec fn phase(self) -> RecordingPhase {
        match self {
            State::AwaitingConnection => RecordingPhase::AwaitingConnection,
            State::AwaitingUuid => RecordingPhase::AwaitingUuid,
            State::Active(uuid) => RecordingPhase::Active(uuid@),
            State::Ended => RecordingPhase::Ended,
            State::Failed => RecordingPhase::Failed,
        }
    }
}

#[derive(Clone, Copy)]
enum Work {
    Header,
    Idle,
    Wire,
    Audio,
    Describe,
    Seek,
    Patch,
    FlushWire,
    FlushWave,
    FlushEvents,
    Finished,
}

/// One of the three outputs.
#[derive(Clone, Copy, Debug, PartialEq, Eq, Structural)]
pub enum Output {
    /// Exact observed wire bytes.
    Wire,
    /// WAVE audio.
    Wave,
    /// Diagnostic text.
    Events,
}

/// The output operation that is due.
#[derive(Clone, Copy, Debug, PartialEq, Eq, Structural)]
pub enum Step {
    /// Nothing: the recording takes records, or has failed or finished.
    Rest,
    /// Write some of [`Recording::chunk`] to an output.
    Write(RecordingStage, Output),
    /// Seek the WAVE output to its beginning.
    Seek,
    /// Flush an output.
    Flush(RecordingStage, Output),
}

/// What an output operation came to.
pub enum Outcome {
    /// The writer accepted that many bytes.
    Wrote(usize),
    /// The write was interrupted before it accepted anything.
    Interrupted,
    /// The seek or the flush completed.
    Completed,
    /// The operation failed.
    Failed(std::io::Error),
}

/// Whether a recording stopped at an output failure of its own, of this kind.
pub open spec fn failed_with(cause: RecordingFailure, kind: ErrorKind) -> bool {
    cause matches RecordingFailure::Io(failure) && made_with(failure, kind)
}

/// Records one connection into caller-owned wire, WAVE and diagnostic writers.
///
/// The recording decides what is written; its owner performs the operation that
/// [`Recording::step`] names on empty writers positioned at zero, and reports the
/// outcome. A failure stops all further operations.
pub struct Recording {
    id: ConnectionId,
    rate: SampleRate,
    state: State,
    next: State,
    last_event_offset: u64,
    next_event_offset: u64,
    next_end: RecordingEnd,
    summary: RecordingSummary,
    work: Work,
    buffer: Vec<u8>,
    text: Vec<u8>,
    at: usize,
    told: Ghost<Seq<Observation>>,
    lines: Ghost<Seq<u8>>,
    wire: Ghost<Seq<u8>>,
    pcm: Ghost<Seq<u8>>,
    wave: Ghost<Seq<u8>>,
    events: Ghost<Seq<u8>>,
}

impl Recording {
    /// The recorded connection.
    pub closed spec fn connection(self) -> (u64, usize) {
        self.id@
    }

    /// The declared rate of the recorded audio.
    pub closed spec fn sample_rate(self) -> SampleRate {
        self.rate
    }

    /// Where the recording stands.
    pub closed spec fn phase(self) -> RecordingPhase {
        self.state.phase()
    }

    /// The offset of the latest observation that is not wire bytes.
    pub closed spec fn last_offset(self) -> u64 {
        self.last_event_offset
    }

    /// The confirmed counts.
    pub closed spec fn counts(self) -> RecordingSummary {
        self.summary
    }

    /// The observations that were accepted, in order.
    pub closed spec fn told(self) -> Seq<Observation> {
        self.told@
    }

    /// The diagnostic text of those observations.
    pub closed spec fn lines(self) -> Seq<u8> {
        self.lines@
    }

    /// What the wire writer holds.
    pub closed spec fn wire_output(self) -> Seq<u8> {
        self.wire@
    }

    /// What the WAVE writer holds.
    pub closed spec fn wave_output(self) -> Seq<u8> {
        self.wave@
    }

    /// What the diagnostic writer holds.
    pub closed spec fn event_output(self) -> Seq<u8> {
        self.events@
    }

    /// The bytes that are due to be written.
    pub closed spec fn due(self) -> Seq<u8> {
        match self.work {
            Work::Describe => self.text@.subrange(self.at as int, self.text@.len() as int),
            _ => self.buffer@.subrange(self.at as int, self.buffer@.len() as int),
        }
    }

    /// The operation that is due.
    pub closed spec fn due_step(self) -> Step {
        if self.state is Failed {
            Step::Rest
        } else {
            match self.work {
                Work::Header => Step::Write(RecordingStage::Header, Output::Wave),
                Work::Wire => Step::Write(RecordingStage::Wire, Output::Wire),
                Work::Audio => Step::Write(RecordingStage::Audio, Output::Wave),
                Work::Describe => Step::Write(RecordingStage::Events, Output::Events),
                Work::Seek => Step::Seek,
                Work::Patch => Step::Write(RecordingStage::Patch, Output::Wave),
                Work::FlushWire => Step::Flush(RecordingStage::FlushWire, Output::Wire),
                Work::FlushWave => Step::Flush(RecordingStage::FlushWave, Output::Wave),
                Work::FlushEvents => Step::Flush(RecordingStage::FlushEvents, Output::Events),
                Work::Idle | Work::Finished => Step::Rest,
            }
        }
    }

    /// Whether the recording takes the next record or can be finished.
    pub closed spec fn idle(self) -> bool {
        self.work is Idle && !(self.state is Failed)
    }

    /// Whether the recording was finished.
    pub closed spec fn finished(self) -> bool {
        self.work is Finished && !(self.state is Failed)
    }

    /// Whether the recording stopped at a failure.
    pub open spec fn failed(self) -> bool {
        self.phase() is Failed
    }

    spec fn wave_sound(self) -> bool {
        let first = header_of(0, self.rate);
        let last = header_of(self.pcm@.len(), self.rate);
        let header = self.summary.header_bytes as int;
        let patch = self.summary.patch_bytes as int;
        if header < 44 {
            &&& self.wave@ == first.take(header)
            &&& self.pcm@.len() == 0
            &&& patch == 0
        } else {
            &&& header == 44
            &&& patch <= 44
            &&& self.wave@ == last.take(patch) + first.skip(patch) + self.pcm@
        }
    }

    spec fn outputs_sound(self) -> bool {
        &&& self.summary.wire_bytes == self.wire@.len()
        &&& self.summary.audio_bytes == self.pcm@.len()
        &&& self.summary.event_bytes == self.events@.len()
        &&& fits_riff(self.pcm@.len())
        &&& self.wave_sound()
        &&& self.wire@.is_prefix_of(wire_part(self.told@))
        &&& self.pcm@.is_prefix_of(pcm_part(self.told@))
        &&& self.events@.is_prefix_of(self.lines@)
    }

    spec fn told_all(self) -> bool {
        &&& self.wire@ == wire_part(self.told@)
        &&& self.pcm@ == pcm_part(self.told@)
        &&& self.events@ == self.lines@
        &&& self.summary.header_bytes == 44
    }

    spec fn end_sound(self) -> bool {
        match self.work {
            Work::Wire | Work::Audio | Work::Describe => self.next_end == end_of(self.told@),
            _ => self.summary.end == end_of(self.told@),
        }
    }

    spec fn work_sound(self) -> bool {
        let rest = self.due();
        match self.work {
            Work::Header => {
                &&& self.buffer@ == header_of(0, self.rate)
                &&& self.at == self.summary.header_bytes
                &&& self.at < 44
                &&& self.told@.len() == 0
                &&& self.lines@.len() == 0
                &&& self.summary.patch_bytes == 0
                &&& self.state is AwaitingConnection
            },
            Work::Idle => self.told_all() && self.summary.patch_bytes == 0,
            Work::Wire => {
                &&& self.at < self.buffer@.len()
                &&& self.summary.header_bytes == 44
                &&& self.summary.patch_bytes == 0
                &&& self.wire@ + rest == wire_part(self.told@)
                &&& self.wire@.len() + rest.len() <= u64::MAX
                &&& self.pcm@ == pcm_part(self.told@)
                &&& self.events@ + self.text@ == self.lines@
            },
            Work::Audio => {
                &&& self.at < self.buffer@.len()
                &&& self.summary.header_bytes == 44
                &&& self.summary.patch_bytes == 0
                &&& self.pcm@ + rest == pcm_part(self.told@)
                &&& fits_riff(self.pcm@.len() + rest.len())
                &&& self.wire@ == wire_part(self.told@)
                &&& self.events@ + self.text@ == self.lines@
            },
            Work::Describe => {
                &&& self.at < self.text@.len()
                &&& self.summary.header_bytes == 44
                &&& self.summary.patch_bytes == 0
                &&& self.wire@ == wire_part(self.told@)
                &&& self.pcm@ == pcm_part(self.told@)
                &&& self.events@ + rest == self.lines@
                &&& self.events@.len() + rest.len() <= u64::MAX
            },
            Work::Seek => self.told_all() && self.summary.patch_bytes == 0,
            Work::Patch => {
                &&& self.told_all()
                &&& self.buffer@ == header_of(self.pcm@.len(), self.rate)
                &&& self.at == self.summary.patch_bytes
                &&& self.at < 44
            },
            Work::FlushWire | Work::FlushWave | Work::FlushEvents | Work::Finished => {
                &&& self.told_all()
                &&& self.summary.patch_bytes == 44
            },
        }
    }

    /// The counts say what the writers hold, and what they hold is the beginning of
    /// what the accepted observations call for.
    pub closed spec fn wf(self) -> bool {
        &&& self.outputs_sound()
        &&& !(self.state is Failed) ==> self.work_sound() && self.end_sound()
        &&& !(self.next is Failed)
    }

    /// Creates a recording of 8 kHz audio.
    #[must_use]
    pub fn new(id: ConnectionId) -> (recording: Recording)
        ensures
            recording.begun(id@, SampleRate::Khz8),
    {
        Recording::with_sample_rate(id, SampleRate::Khz8)
    }

    /// What a new recording is: nothing is written, and the provisional header is
    /// due.
    pub open spec fn begun(self, id: (u64, usize), rate: SampleRate) -> bool {
        &&& self.wf()
        &&& self.connection() == id
        &&& self.sample_rate() == rate
        &&& self.phase() is AwaitingConnection
        &&& self.last_offset() == 0
        &&& self.told() == Seq::<Observation>::empty()
        &&& self.lines() == Seq::<u8>::empty()
        &&& self.wire_output() == Seq::<u8>::empty()
        &&& self.wave_output() == Seq::<u8>::empty()
        &&& self.event_output() == Seq::<u8>::empty()
        &&& self.counts() == (RecordingSummary {
            wire_bytes: 0,
            audio_bytes: 0,
            event_bytes: 0,
            header_bytes: 0,
            patch_bytes: 0,
            end: RecordingEnd::Incomplete,
        })
        &&& self.due_step() == Step::Write(RecordingStage::Header, Output::Wave)
        &&& self.due() == header_of(0, rate)
    }

    /// Creates a recording of audio at a declared rate; a provisional empty WAVE
    /// header is due to be written.
    #[must_use]
    pub fn with_sample_rate(id: ConnectionId, rate: SampleRate) -> (recording: Recording)
        ensures
            recording.begun(id@, rate),
    {
        let mut buffer: Vec<u8> = Vec::new();
        if let Ok(header) = wave_header(0, rate) {
            buffer.extend_from_slice(&header);
            assert(buffer@ =~= header_of(0, rate));
        }
        let recording = Recording {
            id,
            rate,
            state: State::AwaitingConnection,
            next: State::AwaitingConnection,
            last_event_offset: 0,
            next_event_offset: 0,
            next_end: RecordingEnd::Incomplete,
            summary: RecordingSummary::default(),
            work: Work::Header,
            buffer,
            text: Vec::new(),
            at: 0,
            told: Ghost(Seq::empty()),
            lines: Ghost(Seq::empty()),
            wire: Ghost(Seq::empty()),
            pcm: Ghost(Seq::empty()),
            wave: Ghost(Seq::empty()),
            events: Ghost(Seq::empty()),
        };
        proof {
            lemma_header_length(0, rate);
            assert(header_of(0, rate).take(0) =~= Seq::<u8>::empty());
            assert(buffer@.subrange(0, 44) =~= buffer@);
        }
        recording
    }

    /// Returns the operation that is due.
    #[must_use]
    pub fn step(&self) -> (step: Step)
        ensures
            step == self.due_step(),
    {
        if let State::Failed = self.state {
            return Step::Rest;
        }
        match self.work {
            Work::Header => Step::Write(RecordingStage::Header, Output::Wave),
            Work::Wire => Step::Write(RecordingStage::Wire, Output::Wire),
            Work::Audio => Step::Write(RecordingStage::Audio, Output::Wave),
            Work::Describe => Step::Write(RecordingStage::Events, Output::Events),
            Work::Seek => Step::Seek,
            Work::Patch => Step::Write(RecordingStage::Patch, Output::Wave),
            Work::FlushWire => Step::Flush(RecordingStage::FlushWire, Output::Wire),
            Work::FlushWave => Step::Flush(RecordingStage::FlushWave, Output::Wave),
            Work::FlushEvents => Step::Flush(RecordingStage::FlushEvents, Output::Events),
            Work::Idle | Work::Finished => Step::Rest,
        }
    }

    /// Returns the bytes that are due to be written.
    #[must_use]
    pub fn chunk(&self) -> (bytes: &[u8])
        requires
            self.wf(),
            self.due_step() is Write,
        ensures
            bytes@ == self.due(),
            bytes@.len() > 0,
    {
        proof {
            lemma_header_length(0, self.rate);
            lemma_header_length(self.pcm@.len(), self.rate);
        }
        if let Work::Describe = self.work {
            let size: usize = self.text.len();
            &self.text.as_slice()[self.at..size]
        } else {
            let size: usize = self.buffer.len();
            &self.buffer.as_slice()[self.at..size]
        }
    }

    /// A recording that takes records has not failed.
    pub proof fn lemma_idle_has_not_failed(self)
        requires
            self.idle(),
        ensures
            !self.failed(),
    {
    }

    /// A recording that takes records has no operation due.
    pub proof fn lemma_idle_has_nothing_due(self)
        requires
            self.idle(),
        ensures
            self.due_step() is Rest,
    {
    }

    /// Returns whether the recording takes the next record or can be finished.
    #[must_use]
    pub fn is_idle(&self) -> (idle: bool)
        ensures
            idle == self.idle(),
    {
        matches!(self.work, Work::Idle) && !matches!(self.state, State::Failed)
    }

    /// Returns whether the terminal record was accepted.
    #[must_use]
    pub fn has_ended(&self) -> (ended: bool)
        ensures
            ended == self.phase() is Ended,
    {
        matches!(self.state, State::Ended)
    }

    /// Returns whether the recording was finished.
    #[must_use]
    pub fn is_finished(&self) -> (finished: bool)
        ensures
            finished == self.finished(),
    {
        matches!(self.work, Work::Finished) && !matches!(self.state, State::Failed)
    }

    /// Returns the confirmed counts.
    #[must_use]
    pub fn summary(&self) -> (summary: RecordingSummary)
        ensures
            summary == self.counts(),
    {
        self.summary
    }
}

impl Recording {
    /// What holds once the output of the accepted record is complete: where the
    /// recording stands, the latest offset, and the observed end.
    pub closed spec fn after(self) -> (RecordingPhase, u64, RecordingEnd) {
        (self.next.phase(), self.next_event_offset, self.next_end)
    }

    /// The connection, the rate and all outputs and counts are those of `other`.
    pub open spec fn same_outputs(self, other: Recording) -> bool {
        &&& self.connection() == other.connection()
        &&& self.sample_rate() == other.sample_rate()
        &&& self.counts() == other.counts()
        &&& self.wire_output() == other.wire_output()
        &&& self.wave_output() == other.wave_output()
        &&& self.event_output() == other.event_output()
    }

    /// The accepted observations are those of `other`.
    pub open spec fn same_story(self, other: Recording) -> bool {
        &&& self.told() == other.told()
        &&& self.lines() == other.lines()
    }

    /// The recording stopped at a stage, with what was confirmed before.
    pub open spec fn stopped(self, stage: RecordingStage, error: RecordingError) -> bool {
        &&& self.failed()
        &&& self.due_step() is Rest
        &&& error.at() == stage
        &&& error.confirmed() == self.counts()
    }

    fn invalid(&mut self, violation: RecordingViolation) -> (error: RecordingError)
        requires
            old(self).outputs_sound(),
            !(old(self).next is Failed),
        ensures
            final(self).wf(),
            final(self).same_outputs(*old(self)),
            final(self).same_story(*old(self)),
            final(self).stopped(RecordingStage::Validate, error),
            error.cause() == RecordingFailure::Invalid(violation),
    {
        self.state = State::Failed;
        RecordingError {
            stage: RecordingStage::Validate,
            failure: RecordingFailure::Invalid(violation),
            summary: self.summary,
        }
    }

    fn stop(&mut self, stage: RecordingStage, failure: std::io::Error) -> (error: RecordingError)
        requires
            old(self).outputs_sound(),
            !(old(self).next is Failed),
        ensures
            final(self).wf(),
            final(self).same_outputs(*old(self)),
            final(self).same_story(*old(self)),
            final(self).stopped(stage, error),
            error.cause() == RecordingFailure::Io(failure),
    {
        self.state = State::Failed;
        RecordingError { stage, failure: RecordingFailure::Io(failure), summary: self.summary }
    }

    /// Checks a record against the connection, the order of a session, the offsets,
    /// the audio format and the WAVE size.
    fn validate(&self, record: &Record) -> (result: Result<State, RecordingViolation>)
        requires
            self.outputs_sound(),
        ensures
            match result {
                Ok(next) => !(next is Failed) && judge(
                    self.phase(),
                    self.connection(),
                    self.rate,
                    self.last_event_offset,
                    self.summary.wire_bytes as nat,
                    self.summary.audio_bytes as nat,
                    record.connection@,
                    record@,
                ) == Ok::<_, RecordingViolation>(next.phase()),
                Err(violation) => judge(
                    self.phase(),
                    self.connection(),
                    self.rate,
                    self.last_event_offset,
                    self.summary.wire_bytes as nat,
                    self.summary.audio_bytes as nat,
                    record.connection@,
                    record@,
                ) == Err::<RecordingPhase, _>(violation),
            },
    {
        let uuid = match self.state {
            State::Failed => return Err(RecordingViolation::AfterFailure),
            State::Ended => return Err(RecordingViolation::AfterEnd),
            State::AwaitingConnection | State::AwaitingUuid => None,
            State::Active(uuid) => Some(uuid),
        };
        if !record.connection.same(self.id) {
            return Err(RecordingViolation::Connection);
        }
        if matches!(self.state, State::AwaitingConnection) && !matches!(
            record.kind,
            RecordKind::Connected { .. }
        ) {
            return Err(RecordingViolation::Order);
        }
        let offset: u64 = record.offset.get();
        if !matches!(record.kind, RecordKind::Wire { .. }) && (offset < self.last_event_offset
            || offset > self.summary.wire_bytes) {
            return Err(RecordingViolation::Offset);
        }
        match &record.kind {
            RecordKind::Connected { .. } => {
                if !matches!(self.state, State::AwaitingConnection) {
                    return Err(RecordingViolation::Order);
                }
                Ok(State::AwaitingUuid)
            },
            RecordKind::Wire { .. } => {
                if offset != self.summary.wire_bytes {
                    return Err(RecordingViolation::Offset);
                }
                Ok(self.state)
            },
            RecordKind::Started { uuid } => {
                if !matches!(self.state, State::AwaitingUuid) {
                    return Err(RecordingViolation::Order);
                }
                Ok(State::Active(*uuid))
            },
            RecordKind::Audio { uuid: identity, rate, bytes } => {
                if uuid != Some(*identity) {
                    return Err(RecordingViolation::Uuid);
                }
                if *rate != self.rate || bytes.as_slice().len() % 2 != 0 {
                    return Err(RecordingViolation::AudioFormat);
                }
                match self.summary.audio_bytes.checked_add(bytes.as_slice().len() as u64) {
                    None => Err(RecordingViolation::WaveSize),
                    Some(next) => match wave_header(next, self.rate) {
                        Ok(_) => Ok(self.state),
                        Err(violation) => Err(violation),
                    },
                }
            },
            RecordKind::Dtmf { uuid: identity, .. } => {
                if uuid != Some(*identity) {
                    return Err(RecordingViolation::Uuid);
                }
                Ok(self.state)
            },
            RecordKind::Ended { uuid: identity, .. } => {
                if uuid != *identity {
                    return Err(RecordingViolation::Uuid);
                }
                Ok(State::Ended)
            },
        }
    }

    /// Makes the diagnostic text due, or completes the record if there is none.
    fn begin_describing(&mut self) -> (result: Result<(), RecordingError>)
        requires
            old(self).outputs_sound(),
            !(old(self).state is Failed),
            !(old(self).next is Failed),
            old(self).summary.header_bytes == 44,
            old(self).summary.patch_bytes == 0,
            old(self).wire@ == wire_part(old(self).told@),
            old(self).pcm@ == pcm_part(old(self).told@),
            old(self).events@ + old(self).text@ == old(self).lines@,
            old(self).next_end == end_of(old(self).told@),
        ensures
            final(self).wf(),
            final(self).same_story(*old(self)),
            final(self).describing(*old(self), old(self).text@, result),
    {
        let size: usize = self.text.len();
        if self.summary.event_bytes.checked_add(size as u64).is_none() {
            return Err(self.stop(RecordingStage::Events, other_error("output count overflow")));
        }
        self.at = 0;
        if size == 0 {
            assert(self.events@ + self.text@ =~= self.events@);
            self.complete();
        } else {
            self.work = Work::Describe;
            assert(self.text@.subrange(0, size as int) =~= self.text@);
        }
        Ok(())
    }

    /// The diagnostic text of a record is due, unless its length cannot be counted.
    pub open spec fn describing(
        self,
        old: Recording,
        text: Seq<u8>,
        result: Result<(), RecordingError>,
    ) -> bool {
        if old.counts().event_bytes + text.len() > u64::MAX {
            &&& self.same_outputs(old)
            &&& result matches Err(error)
            &&& self.stopped(RecordingStage::Events, error)
            &&& failed_with(error.cause(), ErrorKind::Other)
        } else {
            &&& result is Ok
            &&& if text.len() == 0 {
                self.completed(old)
            } else {
                &&& self.same_outputs(old)
                &&& self.phase() == old.phase()
                &&& self.last_offset() == old.last_offset()
                &&& self.after() == old.after()
                &&& !self.failed()
                &&& self.due_step() == Step::Write(RecordingStage::Events, Output::Events)
                &&& self.due() == text
            }
        }
    }

    /// The output of a record is complete: the recording stands where the record
    /// puts it, and takes the next.
    pub open spec fn completed(self, old: Recording) -> bool {
        &&& self.idle()
        &&& self.due_step() is Rest
        &&& self.wire_output() == old.wire_output()
        &&& self.wave_output() == old.wave_output()
        &&& self.event_output() == old.event_output()
        &&& self.connection() == old.connection()
        &&& self.sample_rate() == old.sample_rate()
        &&& self.phase() == old.after().0
        &&& self.last_offset() == old.after().1
        &&& self.counts() == (RecordingSummary { end: old.after().2, ..old.counts() })
    }

    fn complete(&mut self)
        requires
            old(self).outputs_sound(),
            old(self).told_all(),
            old(self).next_end == end_of(old(self).told@),
            old(self).summary.patch_bytes == 0,
            !(old(self).next is Failed),
        ensures
            final(self).wf(),
            final(self).same_story(*old(self)),
            final(self).completed(*old(self)),
    {
        self.last_event_offset = self.next_event_offset;
        self.summary.end = self.next_end;
        self.state = self.next;
        self.work = Work::Idle;
    }
}

/// The bytes that an observation adds to the wire or the WAVE output.
pub open spec fn payload_of(content: Content) -> Seq<u8> {
    match content {
        Content::Wire(bytes) => bytes,
        Content::Audio(_, _, pcm) => pcm,
        _ => Seq::empty(),
    }
}

impl Recording {
    /// The judgement of this recording on an observation of a connection.
    pub open spec fn verdict(self, from: (u64, usize), observation: Observation) -> Result<
        RecordingPhase,
        RecordingViolation,
    > {
        judge(
            self.phase(),
            self.connection(),
            self.sample_rate(),
            self.last_offset(),
            self.counts().wire_bytes as nat,
            self.counts().audio_bytes as nat,
            from,
            observation,
        )
    }

    /// An observation was taken in: its payload is due, or else its diagnostic
    /// text; or its bytes cannot be counted.
    pub open spec fn taken_in(
        self,
        old: Recording,
        observation: Observation,
        text: Seq<u8>,
        next: RecordingPhase,
        result: Result<(), RecordingError>,
    ) -> bool {
        let payload = payload_of(observation.content);
        let expected = (
            next,
            if observation.content is Wire {
                old.last_offset()
            } else {
                observation.offset as u64
            },
            match observation.content {
                Content::Ended(_, ending) => RecordingEnd::Observed(class_of(ending)),
                _ => old.counts().end,
            },
        );
        if observation.content is Wire && old.counts().wire_bytes + payload.len() > u64::MAX {
            &&& self.same_outputs(old)
            &&& self.same_story(old)
            &&& result matches Err(error)
            &&& self.stopped(RecordingStage::Wire, error)
            &&& failed_with(error.cause(), ErrorKind::Other)
        } else {
            &&& self.told() == old.told().push(observation)
            &&& self.lines() == old.lines() + text
            &&& if payload.len() > 0 {
                &&& result is Ok
                &&& self.same_outputs(old)
                &&& self.phase() == old.phase()
                &&& self.last_offset() == old.last_offset()
                &&& self.after() == expected
                &&& self.due() == payload
                &&& self.due_step() == if observation.content is Wire {
                    Step::Write(RecordingStage::Wire, Output::Wire)
                } else {
                    Step::Write(RecordingStage::Audio, Output::Wave)
                }
            } else if old.counts().event_bytes + text.len() > u64::MAX {
                &&& self.same_outputs(old)
                &&& result matches Err(error)
                &&& self.stopped(RecordingStage::Events, error)
                &&& failed_with(error.cause(), ErrorKind::Other)
            } else if text.len() > 0 {
                &&& result is Ok
                &&& self.same_outputs(old)
                &&& self.phase() == old.phase()
                &&& self.last_offset() == old.last_offset()
                &&& self.after() == expected
                &&& self.due() == text
                &&& self.due_step() == Step::Write(RecordingStage::Events, Output::Events)
            } else {
                &&& result is Ok
                &&& self.idle()
                &&& self.due_step() is Rest
                &&& self.wire_output() == old.wire_output()
                &&& self.wave_output() == old.wave_output()
                &&& self.event_output() == old.event_output()
                &&& (self.phase(), self.last_offset()) == (expected.0, expected.1)
                &&& self.counts() == (RecordingSummary { end: expected.2, ..old.counts() })
            }
        }
    }

    /// Takes a record in with its diagnostic line: its payload, if it has any, is
    /// then due to be written, and after it the line. A refused record touches no
    /// output and stops the recording.
    #[verifier::rlimit(40)]
    pub fn accept(&mut self, record: &Record, line: &str) -> (result: Result<(), RecordingError>)
        requires
            old(self).wf(),
            old(self).idle() || old(self).failed(),
        ensures
            final(self).wf(),
            final(self).connection() == old(self).connection(),
            final(self).sample_rate() == old(self).sample_rate(),
            match old(self).verdict(record.connection@, record@) {
                Err(violation) => {
                    &&& final(self).same_outputs(*old(self))
                    &&& final(self).same_story(*old(self))
                    &&& result matches Err(error)
                    &&& final(self).stopped(RecordingStage::Validate, error)
                    &&& error.cause() == RecordingFailure::Invalid(violation)
                },
                Ok(next) => final(self).taken_in(
                    *old(self),
                    record@,
                    encode_utf8(line@),
                    next,
                    result,
                ),
            },
    {
        let ghost before = *self;
        let next = match self.validate(record) {
            Ok(next) => next,
            Err(violation) => return Err(self.invalid(violation)),
        };
        let ghost observation = record@;
        let ghost text = encode_utf8(line@);
        if let RecordKind::Wire { bytes } = &record.kind {
            if self.summary.wire_bytes.checked_add(bytes.as_slice().len() as u64).is_none() {
                return Err(self.stop(RecordingStage::Wire, other_error("output count overflow")));
            }
        }
        self.next = next;
        self.next_event_offset = match &record.kind {
            RecordKind::Wire { .. } => self.last_event_offset,
            _ => record.offset.get(),
        };
        self.next_end = match &record.kind {
            RecordKind::Ended { reason, .. } => RecordingEnd::Observed(TerminalKind::of(reason)),
            _ => self.summary.end,
        };
        self.text.clear();
        self.text.extend_from_slice(line.as_bytes());
        self.buffer.clear();
        self.at = 0;
        proof {
            self.told@ = before.told@.push(observation);
            self.lines@ = before.lines@ + text;
            assert(self.told@.drop_last() =~= before.told@);
            assert(self.told@.last() == observation);
            assert(self.text@ =~= text);
        }
        match &record.kind {
            RecordKind::Wire { bytes } => {
                self.buffer.extend_from_slice(bytes.as_slice());
                assert(self.buffer@ =~= bytes@);
                assert(self.buffer@.subrange(0, self.buffer@.len() as int) =~= bytes@);
                if self.buffer.len() > 0 {
                    self.work = Work::Wire;
                    return Ok(());
                }
                assert(self.wire@ + bytes@ =~= self.wire@);
            },
            RecordKind::Audio { bytes, .. } => {
                self.buffer.extend_from_slice(bytes.as_slice());
                assert(self.buffer@ =~= bytes@);
                assert(self.buffer@.subrange(0, self.buffer@.len() as int) =~= bytes@);
                if self.buffer.len() > 0 {
                    self.work = Work::Audio;
                    return Ok(());
                }
                assert(self.pcm@ + bytes@ =~= self.pcm@);
            },
            _ => {},
        }
        self.begin_describing()
    }

    /// A record was refused and stopped the recording before any output, or was taken
    /// in with its own diagnostic line.
    pub open spec fn recorded(
        self,
        old: Recording,
        record: Record,
        result: Result<(), RecordingError>,
    ) -> bool {
        match old.verdict(record.connection@, record@) {
            Err(violation) => {
                &&& self.same_outputs(old)
                &&& self.same_story(old)
                &&& result matches Err(error)
                &&& self.stopped(RecordingStage::Validate, error)
                &&& error.cause() == RecordingFailure::Invalid(violation)
            },
            Ok(next) => exists|failure: Seq<char>|
                self.taken_in(
                    old,
                    record@,
                    encode_utf8(
                        line_of(
                            old.connection(),
                            record.offset@,
                            clock_form(record.observed_at),
                            record.kind@,
                            #[trigger] quoted_where_failed(record.kind@, failure),
                        ),
                    ),
                    next,
                    result,
                ),
        }
    }

    /// Takes a record in with its own diagnostic line, in which the text of a failed
    /// socket operation is the platform's.
    pub fn record(&mut self, record: &Record) -> (result: Result<(), RecordingError>)
        requires
            old(self).wf(),
            old(self).idle() || old(self).failed(),
        ensures
            final(self).wf(),
            final(self).connection() == old(self).connection(),
            final(self).sample_rate() == old(self).sample_rate(),
            final(self).recorded(*old(self), *record, result),
    {
        let line = description(self.id, record);
        self.accept(record, line.as_str())
    }

    /// The finalization began, unless the recording had failed.
    pub open spec fn finishing(self, old: Recording, result: Result<(), RecordingError>) -> bool {
        &&& self.same_outputs(old)
        &&& self.same_story(old)
        &&& if old.failed() {
            &&& result matches Err(error)
            &&& self.stopped(RecordingStage::Validate, error)
            &&& error.cause() == RecordingFailure::Invalid(RecordingViolation::AfterFailure)
        } else {
            &&& result is Ok
            &&& self.phase() == old.phase()
            &&& self.due_step() is Seek
        }
    }

    /// Begins the finalization: seek, final header and flushes become due.
    pub fn finish(&mut self) -> (result: Result<(), RecordingError>)
        requires
            old(self).wf(),
            old(self).idle() || old(self).failed(),
        ensures
            final(self).wf(),
            final(self).finishing(*old(self), result),
    {
        if let State::Failed = self.state {
            return Err(self.invalid(RecordingViolation::AfterFailure));
        }
        self.work = Work::Seek;
        Ok(())
    }
}

/// Counts after a writer accepted bytes at a stage.
pub open spec fn counted(summary: RecordingSummary, stage: RecordingStage, bytes: nat) -> RecordingSummary {
    match stage {
        RecordingStage::Header => RecordingSummary {
            header_bytes: (summary.header_bytes + bytes) as u64,
            ..summary
        },
        RecordingStage::Wire => RecordingSummary {
            wire_bytes: (summary.wire_bytes + bytes) as u64,
            ..summary
        },
        RecordingStage::Audio => RecordingSummary {
            audio_bytes: (summary.audio_bytes + bytes) as u64,
            ..summary
        },
        RecordingStage::Events => RecordingSummary {
            event_bytes: (summary.event_bytes + bytes) as u64,
            ..summary
        },
        RecordingStage::Patch => RecordingSummary {
            patch_bytes: (summary.patch_bytes + bytes) as u64,
            ..summary
        },
        _ => summary,
    }
}

/// A sequence with some bytes replaced from a place on.
pub open spec fn overwritten(whole: Seq<u8>, from: nat, bytes: Seq<u8>) -> Seq<u8> {
    whole.take(from as int) + bytes + whole.skip((from + bytes.len()) as int)
}

impl Recording {
    /// The writer of the due step took the first `count` of the due bytes: they lie
    /// behind what the output held, and in the place of the old header while that is
    /// replaced.
    pub open spec fn wrote(self, old: Recording, stage: RecordingStage, count: nat) -> bool {
        let bytes = old.due().take(count as int);
        &&& self.connection() == old.connection()
        &&& self.sample_rate() == old.sample_rate()
        &&& self.wire_output() == if stage is Wire {
            old.wire_output() + bytes
        } else {
            old.wire_output()
        }
        &&& self.event_output() == if stage is Events {
            old.event_output() + bytes
        } else {
            old.event_output()
        }
        &&& self.wave_output() == match stage {
            RecordingStage::Header | RecordingStage::Audio => old.wave_output() + bytes,
            RecordingStage::Patch => overwritten(
                old.wave_output(),
                old.counts().patch_bytes as nat,
                bytes,
            ),
            _ => old.wave_output(),
        }
    }

    /// What follows when the writer of a stage took all that was due.
    pub open spec fn wrote_all(
        self,
        old: Recording,
        stage: RecordingStage,
        result: Result<(), RecordingError>,
    ) -> bool {
        let counts = counted(old.counts(), stage, old.due().len());
        match stage {
            RecordingStage::Header => {
                &&& result is Ok
                &&& self.idle()
                &&& self.phase() == old.phase()
                &&& self.last_offset() == old.last_offset()
                &&& self.counts() == counts
            },
            RecordingStage::Wire | RecordingStage::Audio => {
                &&& self.counts() == counts || (old.pending_text().len() == 0 && self.counts() == (
                RecordingSummary { end: old.after().2, ..counts }))
                &&& if old.counts().event_bytes + old.pending_text().len() > u64::MAX {
                    &&& result matches Err(error)
                    &&& self.stopped(RecordingStage::Events, error)
                    &&& failed_with(error.cause(), ErrorKind::Other)
                } else if old.pending_text().len() > 0 {
                    &&& result is Ok
                    &&& self.counts() == counts
                    &&& self.phase() == old.phase()
                    &&& self.last_offset() == old.last_offset()
                    &&& self.after() == old.after()
                    &&& self.due_step() == Step::Write(RecordingStage::Events, Output::Events)
                    &&& self.due() == old.pending_text()
                } else {
                    &&& result is Ok
                    &&& self.idle()
                    &&& self.phase() == old.after().0
                    &&& self.last_offset() == old.after().1
                }
            },
            RecordingStage::Events => {
                &&& result is Ok
                &&& self.idle()
                &&& self.due_step() is Rest
                &&& self.phase() == old.after().0
                &&& self.last_offset() == old.after().1
                &&& self.counts() == (RecordingSummary { end: old.after().2, ..counts })
            },
            _ => {
                &&& result is Ok
                &&& self.counts() == counts
                &&& self.phase() == old.phase()
                &&& self.due_step() == Step::Flush(RecordingStage::FlushWire, Output::Wire)
            },
        }
    }

    /// The diagnostic text that follows the payload.
    pub closed spec fn pending_text(self) -> Seq<u8> {
        self.text@
    }

    /// Some of the due bytes were written: the rest of them, or else what follows, is
    /// due.
    pub open spec fn advanced(
        self,
        old: Recording,
        stage: RecordingStage,
        count: nat,
        result: Result<(), RecordingError>,
    ) -> bool {
        &&& self.wrote(old, stage, count)
        &&& if count < old.due().len() {
            &&& result is Ok
            &&& self.due_step() == old.due_step()
            &&& self.due() == old.due().skip(count as int)
            &&& self.phase() == old.phase()
            &&& self.last_offset() == old.last_offset()
            &&& self.after() == old.after()
            &&& self.pending_text() == old.pending_text()
            &&& self.counts() == counted(old.counts(), stage, count)
        } else {
            self.wrote_all(old, stage, result)
        }
    }

    fn advance_header(&mut self, count: usize) -> (result: Result<(), RecordingError>)
        requires
            old(self).wf(),
            !(old(self).state is Failed),
            old(self).work is Header,
            0 < count <= old(self).due().len(),
        ensures
            final(self).wf(),
            final(self).same_story(*old(self)),
            final(self).advanced(*old(self), RecordingStage::Header, count as nat, result),
    {
        let ghost before = *self;
        let ghost rest = self.due();
        let ghost bytes = rest.take(count as int);
        let size: usize = self.buffer.len();
        proof {
            lemma_header_length(0, self.rate);
            lemma_header_length(self.pcm@.len(), self.rate);
        }
        self.at = self.at + count;
        self.summary.header_bytes = self.summary.header_bytes + count as u64;
        proof {
            let first = header_of(0, self.rate);
            self.wave@ = before.wave@ + bytes;
            assert(self.wave@ =~= first.take(self.at as int));
            assert(self.due() =~= rest.skip(count as int));
            if self.at == 44 {
                assert(header_of(self.pcm@.len(), self.rate).take(0) + first.skip(0) + self.pcm@
                    =~= self.wave@);
                assert(self.wire@ =~= wire_part(self.told@));
                assert(self.pcm@ =~= pcm_part(self.told@));
                assert(self.events@ =~= self.lines@);
            }
        }
        if self.at == size {
            self.work = Work::Idle;
        }
        Ok(())
    }

    fn advance_wire(&mut self, count: usize) -> (result: Result<(), RecordingError>)
        requires
            old(self).wf(),
            !(old(self).state is Failed),
            old(self).work is Wire,
            0 < count <= old(self).due().len(),
        ensures
            final(self).wf(),
            final(self).same_story(*old(self)),
            final(self).advanced(*old(self), RecordingStage::Wire, count as nat, result),
    {
        let ghost before = *self;
        let ghost rest = self.due();
        let ghost bytes = rest.take(count as int);
        let size: usize = self.buffer.len();
        proof {
            lemma_header_length(0, self.rate);
            lemma_header_length(self.pcm@.len(), self.rate);
        }
        self.at = self.at + count;
        self.summary.wire_bytes = self.summary.wire_bytes + count as u64;
        proof {
            self.wire@ = before.wire@ + bytes;
            assert(self.due() =~= rest.skip(count as int));
            assert(self.wire@ + self.due() =~= before.wire@ + rest);
            assert(self.wire@.is_prefix_of(wire_part(self.told@)));
        }
        if self.at == size {
            assert(self.wire@ + self.due() =~= self.wire@);
            return self.begin_describing();
        }
        Ok(())
    }

    fn advance_audio(&mut self, count: usize) -> (result: Result<(), RecordingError>)
        requires
            old(self).wf(),
            !(old(self).state is Failed),
            old(self).work is Audio,
            0 < count <= old(self).due().len(),
        ensures
            final(self).wf(),
            final(self).same_story(*old(self)),
            final(self).advanced(*old(self), RecordingStage::Audio, count as nat, result),
    {
        let ghost before = *self;
        let ghost rest = self.due();
        let ghost bytes = rest.take(count as int);
        let size: usize = self.buffer.len();
        proof {
            lemma_header_length(0, self.rate);
            lemma_header_length(self.pcm@.len(), self.rate);
        }
        self.at = self.at + count;
        self.summary.audio_bytes = self.summary.audio_bytes + count as u64;
        proof {
            let first = header_of(0, self.rate);
            self.pcm@ = before.pcm@ + bytes;
            self.wave@ = before.wave@ + bytes;
            assert(self.due() =~= rest.skip(count as int));
            assert(self.pcm@ + self.due() =~= before.pcm@ + rest);
            assert(self.pcm@.is_prefix_of(pcm_part(self.told@)));
            assert(header_of(before.pcm@.len(), self.rate).take(0) =~= header_of(
                self.pcm@.len(),
                self.rate,
            ).take(0));
            assert(self.wave@ =~= header_of(self.pcm@.len(), self.rate).take(0) + first.skip(0)
                + self.pcm@);
        }
        if self.at == size {
            assert(self.pcm@ + self.due() =~= self.pcm@);
            return self.begin_describing();
        }
        Ok(())
    }

    fn advance_text(&mut self, count: usize) -> (result: Result<(), RecordingError>)
        requires
            old(self).wf(),
            !(old(self).state is Failed),
            old(self).work is Describe,
            0 < count <= old(self).due().len(),
        ensures
            final(self).wf(),
            final(self).same_story(*old(self)),
            final(self).advanced(*old(self), RecordingStage::Events, count as nat, result),
    {
        let ghost before = *self;
        let ghost rest = self.due();
        let ghost bytes = rest.take(count as int);
        let size: usize = self.text.len();
        proof {
            lemma_header_length(0, self.rate);
            lemma_header_length(self.pcm@.len(), self.rate);
        }
        self.at = self.at + count;
        self.summary.event_bytes = self.summary.event_bytes + count as u64;
        proof {
            self.events@ = before.events@ + bytes;
            assert(self.due() =~= rest.skip(count as int));
            assert(self.events@ + self.due() =~= before.events@ + rest);
            assert(self.events@.is_prefix_of(self.lines@));
        }
        if self.at == size {
            assert(self.events@ + self.due() =~= self.events@);
            self.complete();
        }
        Ok(())
    }

    fn advance_patch(&mut self, count: usize) -> (result: Result<(), RecordingError>)
        requires
            old(self).wf(),
            !(old(self).state is Failed),
            old(self).work is Patch,
            0 < count <= old(self).due().len(),
        ensures
            final(self).wf(),
            final(self).same_story(*old(self)),
            final(self).advanced(*old(self), RecordingStage::Patch, count as nat, result),
    {
        let ghost before = *self;
        let ghost rest = self.due();
        let ghost bytes = rest.take(count as int);
        let size: usize = self.buffer.len();
        proof {
            lemma_header_length(0, self.rate);
            lemma_header_length(self.pcm@.len(), self.rate);
        }
        self.at = self.at + count;
        self.summary.patch_bytes = self.summary.patch_bytes + count as u64;
        proof {
            let first = header_of(0, self.rate);
            let last = header_of(self.pcm@.len(), self.rate);
            let from = before.summary.patch_bytes as nat;
            self.wave@ = overwritten(before.wave@, from, bytes);
            assert(self.wave@ =~= last.take(self.at as int) + first.skip(self.at as int)
                + self.pcm@);
            assert(self.due() =~= rest.skip(count as int));
        }
        if self.at == size {
            self.work = Work::FlushWire;
        }
        Ok(())
    }

    /// What an operation that is no write leads to.
    pub open spec fn moved_on(self, old: Recording) -> bool {
        &&& self.same_outputs(old)
        &&& self.phase() == old.phase()
        &&& match old.due_step() {
            Step::Seek => {
                &&& self.due_step() == Step::Write(RecordingStage::Patch, Output::Wave)
                &&& self.due() == header_of(self.counts().audio_bytes as nat, self.sample_rate())
            },
            Step::Flush(RecordingStage::FlushWire, _) => self.due_step() == Step::Flush(
                RecordingStage::FlushWave,
                Output::Wave,
            ),
            Step::Flush(RecordingStage::FlushWave, _) => self.due_step() == Step::Flush(
                RecordingStage::FlushEvents,
                Output::Events,
            ),
            _ => self.finished(),
        }
    }

    /// The stage of the due step.
    pub open spec fn due_stage(self) -> RecordingStage {
        match self.due_step() {
            Step::Write(stage, _) => stage,
            Step::Flush(stage, _) => stage,
            Step::Seek => RecordingStage::Seek,
            Step::Rest => RecordingStage::Validate,
        }
    }

    fn due_stage_exec(&self) -> (stage: RecordingStage)
        ensures
            stage == self.due_stage(),
    {
        match self.step() {
            Step::Write(stage, _) => stage,
            Step::Flush(stage, _) => stage,
            Step::Seek => RecordingStage::Seek,
            Step::Rest => RecordingStage::Validate,
        }
    }

    /// Whether an outcome is one of the due operation.
    pub open spec fn expects(self, outcome: Outcome) -> bool {
        &&& !(self.due_step() is Rest)
        &&& match outcome {
            Outcome::Wrote(count) => self.due_step() is Write && count <= self.due().len(),
            Outcome::Interrupted => self.due_step() is Write,
            Outcome::Completed => !(self.due_step() is Write),
            Outcome::Failed(_) => true,
        }
    }

    /// What the outcome of the due operation leads to.
    pub open spec fn done_as(
        self,
        old: Recording,
        outcome: Outcome,
        result: Result<(), RecordingError>,
    ) -> bool {
        &&& self.same_story(old)
        &&& match outcome {
            Outcome::Failed(failure) => {
                &&& self.same_outputs(old)
                &&& result matches Err(error)
                &&& self.stopped(old.due_stage(), error)
                &&& error.cause() == RecordingFailure::Io(failure)
            },
            Outcome::Interrupted => result is Ok && self == old,
            Outcome::Completed => result is Ok && self.moved_on(old),
            Outcome::Wrote(count) => if count == 0 {
                &&& self.same_outputs(old)
                &&& result matches Err(error)
                &&& self.stopped(old.due_stage(), error)
                &&& failed_with(error.cause(), ErrorKind::WriteZero)
            } else {
                self.advanced(old, old.due_stage(), count as nat, result)
            },
        }
    }

    /// Accounts for what the due operation came to, and makes the next one due.
    ///
    /// A write that accepts nothing fails; an interrupted one stays due. Any failure
    /// stops the recording at its stage, with every accepted prefix counted.
    pub fn done(&mut self, outcome: Outcome) -> (result: Result<(), RecordingError>)
        requires
            old(self).wf(),
            old(self).expects(outcome),
        ensures
            final(self).wf(),
            final(self).done_as(*old(self), outcome, result),
    {
        match outcome {
            Outcome::Failed(failure) => {
                let stage = self.due_stage_exec();
                Err(self.stop(stage, failure))
            },
            Outcome::Interrupted => Ok(()),
            Outcome::Wrote(count) => {
                if count == 0 {
                    let stage = self.due_stage_exec();
                    return Err(self.stop(stage, write_zero("writer accepted no bytes")));
                }
                match self.work {
                    Work::Header => self.advance_header(count),
                    Work::Wire => self.advance_wire(count),
                    Work::Audio => self.advance_audio(count),
                    Work::Describe => self.advance_text(count),
                    _ => self.advance_patch(count),
                }
            },
            Outcome::Completed => {
                match self.work {
                    Work::Seek => {
                        self.buffer.clear();
                        self.at = 0;
                        if let Ok(header) = wave_header(self.summary.audio_bytes, self.rate) {
                            self.buffer.extend_from_slice(&header);
                            assert(self.buffer@ =~= header@);
                        }
                        proof {
                            lemma_header_length(self.pcm@.len(), self.rate);
                            assert(self.buffer@.subrange(0, 44) =~= self.buffer@);
                        }
                        self.work = Work::Patch;
                    },
                    Work::FlushWire => {
                        self.work = Work::FlushWave;
                    },
                    Work::FlushWave => {
                        self.work = Work::FlushEvents;
                    },
                    _ => {
                        self.work = Work::Finished;
                    },
                }
                Ok(())
            },
        }
    }
}

/// Whatever happened, even after a failure, each output holds the beginning of what
/// the accepted observations call for, and the counts say how much of it. The WAVE
/// output is the beginning of the provisional header or, behind a whole header of which
/// the counted part is patched, the beginning of the PCM.
pub proof fn law_outputs_are_counted_prefixes(recording: Recording)
    requires
        recording.wf(),
    ensures
        recording.wire_output().is_prefix_of(wire_part(recording.told())),
        recording.event_output().is_prefix_of(recording.lines()),
        recording.counts().wire_bytes == recording.wire_output().len(),
        recording.counts().event_bytes == recording.event_output().len(),
        recording.counts().header_bytes <= 44,
        recording.wave_output().len() == recording.counts().header_bytes
            + recording.counts().audio_bytes,
        ({
            let counts = recording.counts();
            let first = header_of(0, recording.sample_rate());
            let last = header_of(counts.audio_bytes as nat, recording.sample_rate());
            let pcm = pcm_part(recording.told());
            &&& counts.patch_bytes <= 44
            &&& counts.audio_bytes <= pcm.len()
            &&& if counts.header_bytes < 44 {
                &&& recording.wave_output() == first.take(counts.header_bytes as int)
                &&& counts.patch_bytes == 0
            } else {
                recording.wave_output() == last.take(counts.patch_bytes as int) + first.skip(
                    counts.patch_bytes as int,
                ) + pcm.take(counts.audio_bytes as int)
            }
        }),
{
    lemma_header_length(0, recording.rate);
    lemma_header_length(recording.pcm@.len(), recording.rate);
    let pcm = pcm_part(recording.told@);
    assert(pcm.take(recording.pcm@.len() as int) =~= recording.pcm@);
}

/// Between records every output is complete: the wire output is all wire bytes of
/// the accepted records, the WAVE output is the provisional header and all their
/// PCM, and the diagnostic output is all their lines.
pub proof fn law_outputs_between_records(recording: Recording)
    requires
        recording.wf(),
        recording.idle(),
    ensures
        recording.wire_output() == wire_part(recording.told()),
        recording.wave_output() == header_of(0, recording.sample_rate()) + pcm_part(
            recording.told(),
        ),
        recording.event_output() == recording.lines(),
{
    let first = header_of(0, recording.rate);
    let last = header_of(recording.pcm@.len(), recording.rate);
    lemma_header_length(0, recording.rate);
    lemma_header_length(recording.pcm@.len(), recording.rate);
    assert(last.take(0) + first.skip(0) + recording.pcm@ =~= first + recording.pcm@);
}

/// A finished recording is complete: its WAVE output is the header with the true
/// sizes and all PCM of the accepted records, nothing is missing from the other outputs,
/// and its end is the class of the terminal record, or incomplete without one.
pub proof fn law_finished_recording_is_complete(recording: Recording)
    requires
        recording.wf(),
        recording.finished(),
    ensures
        recording.wire_output() == wire_part(recording.told()),
        recording.wave_output() == header_of(
            pcm_part(recording.told()).len(),
            recording.sample_rate(),
        ) + pcm_part(recording.told()),
        recording.event_output() == recording.lines(),
        recording.counts().header_bytes == 44,
        recording.counts().patch_bytes == 44,
        recording.counts().end == end_of(recording.told()),
{
    let first = header_of(0, recording.rate);
    let last = header_of(recording.pcm@.len(), recording.rate);
    lemma_header_length(0, recording.rate);
    lemma_header_length(recording.pcm@.len(), recording.rate);
    assert(last.take(44) + first.skip(44) + recording.pcm@ =~= last + recording.pcm@);
}

/// The lengths that a WAVE header tells can be read back from it: the data chunk has
/// the length of the PCM, and the RIFF chunk that length and the 36 bytes between. The
/// format is one channel of 16-bit PCM at the rate, with whole samples as frames.
pub proof fn law_wave_headers_read_back(audio: nat, rate: SampleRate)
    requires
        audio <= 0xffff_ffff - 36,
    ensures
        ({
            let h = header_of(audio, rate);
            let channels = h[22] + 256 * h[23];
            let hertz = h[24] + 256 * h[25] + 65_536 * h[26] + 16_777_216 * h[27];
            let speed = h[28] + 256 * h[29] + 65_536 * h[30] + 16_777_216 * h[31];
            let frame = h[32] + 256 * h[33];
            let bits = h[34] + 256 * h[35];
            &&& h.len() == 44
            &&& h[40] + 256 * h[41] + 65_536 * h[42] + 16_777_216 * h[43] == audio
            &&& h[4] + 256 * h[5] + 65_536 * h[6] + 16_777_216 * h[7] == audio + 36
            &&& h[0] == 0x52 && h[1] == 0x49 && h[2] == 0x46 && h[3] == 0x46
            &&& h[8] == 0x57 && h[9] == 0x41 && h[10] == 0x56 && h[11] == 0x45
            &&& h[12] == 0x66 && h[13] == 0x6d && h[14] == 0x74 && h[15] == 0x20
            &&& h[36] == 0x64 && h[37] == 0x61 && h[38] == 0x74 && h[39] == 0x61
            &&& h[16] + 256 * h[17] + 65_536 * h[18] + 16_777_216 * h[19] == 36 - 20
            &&& h[20] + 256 * h[21] == 1
            &&& channels == 1
            &&& bits == 16
            &&& hertz == rate.samples_per_second()
            &&& 8 * frame == channels * bits
            &&& speed == 2 * hertz
        }),
        fits_riff(audio),
{
    let hertz = rate.samples_per_second() as nat;
    lemma_header_parts(audio, rate);
    lemma_little_numbers(audio);
    lemma_little_numbers(audio + 36);
    lemma_little_numbers(hertz);
    lemma_little_numbers(2 * hertz);
    lemma_little_numbers(16);
    lemma_little_numbers(1);
    lemma_little_numbers(2);
}

/// Numbers that fit can be read back from their bytes.
proof fn lemma_little_numbers(value: nat)
    requires
        value <= 0xffff_ffff,
    ensures
        ({
            let b = little32(value);
            b[0] + 256 * b[1] + 65_536 * b[2] + 16_777_216 * b[3] == value
        }),
        value <= 0xffff ==> ({
            let b = little16(value);
            b[0] + 256 * b[1] == value
        }),
{
}

/// Where the parts of a header stand.
proof fn lemma_header_parts(audio: nat, rate: SampleRate)
    ensures
        ({
            let h = header_of(audio, rate);
            let hertz = rate.samples_per_second() as nat;
            let riff = little32(audio + 36);
            let size = little32(16);
            let speed = little32(2 * hertz);
            let hz = little32(hertz);
            let data = little32(audio);
            &&& h.len() == 44
            &&& h[0] == 0x52 && h[1] == 0x49 && h[2] == 0x46 && h[3] == 0x46
            &&& h[4] == riff[0] && h[5] == riff[1] && h[6] == riff[2] && h[7] == riff[3]
            &&& h[8] == 0x57 && h[9] == 0x41 && h[10] == 0x56 && h[11] == 0x45
            &&& h[12] == 0x66 && h[13] == 0x6d && h[14] == 0x74 && h[15] == 0x20
            &&& h[16] == size[0] && h[17] == size[1] && h[18] == size[2] && h[19] == size[3]
            &&& h[20] == little16(1)[0] && h[21] == little16(1)[1]
            &&& h[22] == little16(1)[0] && h[23] == little16(1)[1]
            &&& h[24] == hz[0] && h[25] == hz[1] && h[26] == hz[2] && h[27] == hz[3]
            &&& h[28] == speed[0] && h[29] == speed[1] && h[30] == speed[2] && h[31] == speed[3]
            &&& h[32] == little16(2)[0] && h[33] == little16(2)[1]
            &&& h[34] == little16(16)[0] && h[35] == little16(16)[1]
            &&& h[36] == 0x64 && h[37] == 0x61 && h[38] == 0x74 && h[39] == 0x61
            &&& h[40] == data[0] && h[41] == data[1] && h[42] == data[2] && h[43] == data[3]
        }),
{
    reveal(header_of);
}

/// PCM fits a WAVE file exactly if the length of the RIFF chunk around it fits 32 bits.
pub proof fn law_riff_holds_what_its_length_field_can_tell(audio: nat)
    ensures
        fits_riff(audio) <==> audio + 36 <= 0xffff_ffff,
{
}

/// Headers differ wherever the length or the rate does.
pub proof fn law_wave_headers_differ(one: nat, other: nat, rate: SampleRate, other_rate: SampleRate)
    requires
        one <= 0xffff_ffff - 36,
        other <= 0xffff_ffff - 36,
        header_of(one, rate) == header_of(other, other_rate),
    ensures
        one == other,
        rate == other_rate,
{
    law_wave_headers_read_back(one, rate);
    law_wave_headers_read_back(other, other_rate);
}

/// The file of a finished recording is consistent: its data chunk ends where the file
/// does, its RIFF chunk too, and behind the header stand the PCM bytes of the accepted
/// records.
pub proof fn law_finished_wave_files_are_consistent(recording: Recording)
    requires
        recording.wf(),
        recording.finished(),
    ensures
        ({
            let file = recording.wave_output();
            &&& file.len() == 44 + (file[40] + 256 * file[41] + 65_536 * file[42] + 16_777_216
                * file[43])
            &&& file.len() == 8 + (file[4] + 256 * file[5] + 65_536 * file[6] + 16_777_216
                * file[7])
            &&& file[24] + 256 * file[25] + 65_536 * file[26] + 16_777_216 * file[27]
                == recording.sample_rate().samples_per_second()
            &&& file.skip(44) == pcm_part(recording.told())
        }),
{
    law_finished_recording_is_complete(recording);
    let pcm = pcm_part(recording.told());
    law_wave_headers_read_back(pcm.len(), recording.rate);
    let header = header_of(pcm.len(), recording.rate);
    let file = recording.wave_output();
    assert(file.skip(44) =~= pcm);
    assert forall|i: int| 0 <= i < 44 implies #[trigger] file[i] == header[i] by {}
}

/// The PCM of observations is that of the earlier ones and then that of the later ones,
/// and of one observation it is the payload of an audio record.
pub proof fn law_pcm_is_collected_in_order(
    first: Seq<Observation>,
    second: Seq<Observation>,
    one: Observation,
)
    ensures
        pcm_part(first + second) == pcm_part(first) + pcm_part(second),
        pcm_part(seq![one]) == match one.content {
            Content::Audio(_, _, pcm) => pcm,
            _ => Seq::<u8>::empty(),
        },
    decreases second.len(),
{
    let single = seq![one];
    assert(single.drop_last() =~= Seq::<Observation>::empty());
    assert(single.last() == one);
    assert(pcm_part(Seq::<Observation>::empty()) =~= Seq::<u8>::empty());
    if let Content::Audio(_, _, pcm) = one.content {
        assert(Seq::<u8>::empty() + pcm =~= pcm);
    }
    assert(pcm_part(single) == match one.content {
        Content::Audio(_, _, pcm) => pcm,
        _ => Seq::<u8>::empty(),
    });
    if second.len() == 0 {
        assert(first + second =~= first);
        assert(pcm_part(first) + Seq::<u8>::empty() =~= pcm_part(first));
    } else {
        let whole = first + second;
        assert(whole.drop_last() =~= first + second.drop_last());
        assert(whole.last() == second.last());
        law_pcm_is_collected_in_order(first, second.drop_last(), one);
        assert(pcm_part(whole) =~= pcm_part(first) + pcm_part(second));
    }
}

/// The class of a terminal result says which result it was.
pub proof fn law_classes_tell_results_apart(ending: Ending)
    ensures
        class_of(ending) is CleanEof <==> ending is CleanEof,
        class_of(ending) is Terminate <==> ending is Terminate,
        class_of(ending) is PeerError <==> ending is PeerError,
        class_of(ending) is InvalidMessage <==> ending is InvalidMessage,
        class_of(ending) is Decode <==> ending is Decode,
        class_of(ending) is Truncated <==> ending is Truncated,
        class_of(ending) is Policy <==> ending is Policy,
        class_of(ending) is Transport <==> ending is Transport,
        class_of(ending) is ResourceRefused <==> ending is ResourceRefused,
        class_of(ending) is OffsetExhausted <==> ending is OffsetExhausted,
{
}

/// Observations have an end exactly if a terminal one is among them, and what follows
/// the last terminal one does not change it.
pub proof fn law_ends_come_from_terminal_observations(
    before: Seq<Observation>,
    terminal: Observation,
    after: Seq<Observation>,
)
    requires
        forall|i: int| 0 <= i < after.len() ==> !((#[trigger] after[i]).content is Ended),
    ensures
        end_of(after) is Incomplete,
        terminal.content matches Content::Ended(_, ending) ==> end_of(
            before.push(terminal) + after,
        ) == RecordingEnd::Observed(class_of(ending)),
    decreases after.len(),
{
    let whole = before.push(terminal) + after;
    if after.len() == 0 {
        assert(whole =~= before.push(terminal));
    } else {
        let fewer = after.drop_last();
        assert(after.last() == after[after.len() - 1]);
        assert forall|i: int| 0 <= i < fewer.len() implies !((#[trigger] fewer[i]).content
            is Ended) by {
            assert(fewer[i] == after[i]);
        }
        law_ends_come_from_terminal_observations(before, terminal, fewer);
        assert(whole.drop_last() =~= before.push(terminal) + fewer);
        assert(whole.last() == after.last());
    }
}

/// A record that a recording accepts is one of its connection, comes before the end and
/// after the announcement, stands at a fitting offset, belongs to the session, and, if
/// it is audio, has the declared rate, whole samples and room in the file.
pub proof fn law_accepted_records_fit(
    phase: RecordingPhase,
    id: (u64, usize),
    rate: SampleRate,
    last: u64,
    wire: nat,
    audio: nat,
    from: (u64, usize),
    observation: Observation,
)
    requires
        judge(phase, id, rate, last, wire, audio, from, observation) is Ok,
    ensures
        from == id,
        !(phase is Ended) && !(phase is Failed),
        phase is AwaitingConnection <==> observation.content is Connected,
        !(observation.content is Wire) ==> last <= observation.offset <= wire,
        ({
            let next = judge(phase, id, rate, last, wire, audio, from, observation)->Ok_0;
            match observation.content {
                Content::Connected(_) => next is AwaitingUuid,
                Content::Wire(_) => observation.offset == wire && next == phase,
                Content::Started(uuid) => phase is AwaitingUuid && next == RecordingPhase::Active(
                    uuid,
                ),
                Content::Audio(uuid, declared, pcm) => {
                    &&& phase == RecordingPhase::Active(uuid)
                    &&& declared == rate
                    &&& pcm.len() % 2 == 0
                    &&& audio + pcm.len() + 36 <= 0xffff_ffff
                    &&& next == phase
                },
                Content::Dtmf(uuid, _) => phase == RecordingPhase::Active(uuid) && next == phase,
                Content::Ended(identity, _) => {
                    &&& next is Ended
                    &&& match identity {
                        Some(uuid) => phase == RecordingPhase::Active(uuid),
                        None => phase is AwaitingUuid,
                    }
                },
            }
        }),
{
}

/// A record that a recording refuses gives reason to: the recording failed or ended, or
/// the record is of another connection, out of order, at an offset that does not fit, of
/// another session, or audio of another format or beyond what a WAVE file holds.
pub proof fn law_refused_records_give_reason(
    phase: RecordingPhase,
    id: (u64, usize),
    rate: SampleRate,
    last: u64,
    wire: nat,
    audio: nat,
    from: (u64, usize),
    observation: Observation,
)
    requires
        judge(phase, id, rate, last, wire, audio, from, observation) is Err,
    ensures
        match judge(phase, id, rate, last, wire, audio, from, observation)->Err_0 {
            RecordingViolation::AfterFailure => phase is Failed,
            RecordingViolation::AfterEnd => phase is Ended,
            RecordingViolation::Connection => from != id,
            RecordingViolation::Order => match observation.content {
                Content::Connected(_) => !(phase is AwaitingConnection),
                Content::Started(_) => !(phase is AwaitingUuid),
                _ => phase is AwaitingConnection,
            },
            RecordingViolation::Offset => match observation.content {
                Content::Wire(_) => observation.offset != wire,
                _ => observation.offset < last || observation.offset > wire,
            },
            RecordingViolation::Uuid => match observation.content {
                Content::Audio(uuid, _, _) => phase != RecordingPhase::Active(uuid),
                Content::Dtmf(uuid, _) => phase != RecordingPhase::Active(uuid),
                Content::Ended(Some(uuid), _) => phase != RecordingPhase::Active(uuid),
                Content::Ended(None, _) => phase is Active,
                _ => false,
            },
            RecordingViolation::AudioFormat => observation.content matches Content::Audio(
                _,
                declared,
                pcm,
            ) && (declared != rate || pcm.len() % 2 == 1),
            RecordingViolation::WaveSize => observation.content matches Content::Audio(_, _, pcm)
                && audio + pcm.len() > 0xffff_ffff - 36,
        },
{
}

/// An accepted record is taken in whole: it is told behind those before it, its line
/// behind their lines, and its payload, if it has one, is due for the output of its kind,
/// before its line is. Behind it the recording stands in the phase that the record leads
/// to, at the record's offset unless it is a read, whose frames are still to be told, and
/// with the end that it had unless the record is the end.
pub proof fn law_accepted_records_are_taken_in_whole(
    old: Recording,
    recording: Recording,
    observation: Observation,
    text: Seq<u8>,
    next: RecordingPhase,
)
    requires
        recording.taken_in(old, observation, text, next, Ok(())),
    ensures
        recording.told() == old.told().push(observation),
        recording.lines() == old.lines() + text,
        ({
            match observation.content {
                Content::Wire(bytes) => bytes.len() > 0 ==> recording.due() == bytes
                    && recording.due_step() == Step::Write(RecordingStage::Wire, Output::Wire),
                Content::Audio(_, _, pcm) => pcm.len() > 0 ==> recording.due() == pcm
                    && recording.due_step() == Step::Write(RecordingStage::Audio, Output::Wave),
                _ => text.len() > 0 ==> recording.due() == text && recording.due_step()
                    == Step::Write(RecordingStage::Events, Output::Events),
            }
        }),
        ({
            let (phase, offset, end) = if recording.due_step() is Write {
                recording.after()
            } else {
                (recording.phase(), recording.last_offset(), recording.counts().end)
            };
            &&& phase == next
            &&& observation.content is Wire ==> offset == old.last_offset()
            &&& !(observation.content is Wire) ==> offset == observation.offset as u64
            &&& !(observation.content is Ended) ==> end == old.counts().end
        }),
{
}

/// A write that took some of the due bytes leaves the rest of them due, and an interrupted
/// one all of them: the same operation comes again, and the recording stands where it was.
pub proof fn law_short_writes_are_continued(
    old: Recording,
    short: Recording,
    stopped: Recording,
    count: usize,
    result: Result<(), RecordingError>,
    interrupted: Result<(), RecordingError>,
)
    requires
        0 < count < old.due().len(),
        short.done_as(old, Outcome::Wrote(count), result),
        stopped.done_as(old, Outcome::Interrupted, interrupted),
    ensures
        result is Ok && interrupted is Ok,
        short.due_step() == old.due_step(),
        old.due().take(count as int) + short.due() == old.due(),
        short.phase() == old.phase() && short.last_offset() == old.last_offset(),
        short.after() == old.after() && short.pending_text() == old.pending_text(),
        stopped == old,
{
    assert(old.due().take(count as int) + old.due().skip(count as int) =~= old.due());
}

/// A payload that was written whole is followed by the line of its record, and with the
/// line the record is over: the recording then stands where the record leads to and takes
/// the next one.
pub proof fn law_lines_follow_their_payloads(
    old: Recording,
    recording: Recording,
    count: usize,
    described: Recording,
    rest: usize,
)
    requires
        0 < count == old.due().len(),
        old.due_stage() is Wire || old.due_stage() is Audio,
        old.pending_text().len() > 0,
        recording.done_as(old, Outcome::Wrote(count), Ok(())),
        0 < rest == recording.due().len(),
        recording.due_stage() is Events,
        described.done_as(recording, Outcome::Wrote(rest), Ok(())),
    ensures
        recording.due() == old.pending_text(),
        recording.due_step() == Step::Write(RecordingStage::Events, Output::Events),
        recording.after() == old.after(),
        described.idle(),
        described.phase() == old.after().0,
        described.last_offset() == old.after().1,
        described.counts().end == old.after().2,
{
}

/// Every operation goes to the output of its stage, and no two stages are confused.
pub proof fn law_stages_name_their_outputs(recording: Recording)
    ensures
        match recording.due_step() {
            Step::Write(stage, output) => {
                &&& output is Wire <==> stage is Wire
                &&& output is Events <==> stage is Events
                &&& output is Wave <==> stage is Header || stage is Audio || stage is Patch
            },
            Step::Flush(stage, output) => {
                &&& output is Wire <==> stage is FlushWire
                &&& output is Wave <==> stage is FlushWave
                &&& output is Events <==> stage is FlushEvents
            },
            _ => true,
        },
{
}

/// Finalization leaves nothing out: the WAVE output is sought and its whole final header
/// written, then all three outputs are flushed one after the other, and only then is the
/// recording finished.
pub proof fn law_finalization_leaves_nothing_out(
    old: Recording,
    begun: Recording,
    sought: Recording,
    patched: Recording,
    wire: Recording,
    wave: Recording,
    events: Recording,
)
    requires
        begun.finishing(old, Ok(())),
        sought.moved_on(begun),
        patched.advanced(sought, RecordingStage::Patch, sought.due().len(), Ok(())),
        wire.moved_on(patched),
        wave.moved_on(wire),
        events.moved_on(wave),
    ensures
        begun.due_step() is Seek,
        sought.due_step() == Step::Write(RecordingStage::Patch, Output::Wave),
        sought.due() == header_of(sought.counts().audio_bytes as nat, sought.sample_rate()),
        patched.due_step() == Step::Flush(RecordingStage::FlushWire, Output::Wire),
        wire.due_step() == Step::Flush(RecordingStage::FlushWave, Output::Wave),
        wave.due_step() == Step::Flush(RecordingStage::FlushEvents, Output::Events),
        events.finished(),
        !wire.finished() && !wave.finished() && !sought.finished(),
{
}

/// A failed output operation stops the recording where it was, with its cause and the
/// counts so far, and one that was interrupted changes nothing.
pub proof fn law_failures_stop_where_they_happen(
    old: Recording,
    recording: Recording,
    outcome: Outcome,
    error: RecordingError,
)
    requires
        recording.done_as(old, outcome, Err(error)),
    ensures
        !(outcome is Interrupted) && !(outcome is Completed),
        outcome matches Outcome::Failed(failure) ==> error.cause() == RecordingFailure::Io(failure)
            && error.at() == old.due_stage() && error.confirmed() == old.counts(),
        outcome matches Outcome::Wrote(count) ==> count == 0 ==> error.at() == old.due_stage()
            && error.confirmed() == old.counts() && failed_with(
            error.cause(),
            ErrorKind::WriteZero,
        ),
        recording.failed(),
        recording.due_step() is Rest,
{
}

} // verus!
