//! Messages for people about the failures of the library.
use vstd::prelude::*;
use vstd::string::StringExecFns;

use crate::config::LimitsError;
use crate::decoder::{DecodeError, FinishError};
use crate::description::error_text;
use crate::encoder::EncodeError;
use crate::error::TypedMessageError;
use crate::memory::BudgetError;
use crate::recording::{RecordingError, RecordingFailure, RecordingStage, RecordingViolation};
use crate::session::{IncomingSessionError, Rejection};
use crate::summary::{ReceiverError, ReceiverFailure};
use crate::text::{decimal, push_decimal};

verus! {

/// The message about a typed-conversion failure.
pub open spec fn typed_message(error: TypedMessageError) -> Seq<char> {
    match error {
        TypedMessageError::TerminatePayload => "termination must carry no bytes under the typed policy"@,
        TypedMessageError::UuidLength => "UUID payload must contain exactly sixteen bytes"@,
        TypedMessageError::DtmfLength => "DTMF payload must contain exactly one byte"@,
        TypedMessageError::DtmfNotAscii => "DTMF byte must be ASCII"@,
        TypedMessageError::OddPcmLength => "PCM16LE payload must have an even byte length"@,
        TypedMessageError::UnknownTypeClassification => "an internal raw classification was inconsistent"@,
    }
}

impl TypedMessageError {
    /// Returns the message about the failure.
    #[must_use]
    pub fn message(self) -> (text: &'static str)
        ensures
            text@ == typed_message(self),
    {
        match self {
            TypedMessageError::TerminatePayload => "termination must carry no bytes under the typed policy",
            TypedMessageError::UuidLength => "UUID payload must contain exactly sixteen bytes",
            TypedMessageError::DtmfLength => "DTMF payload must contain exactly one byte",
            TypedMessageError::DtmfNotAscii => "DTMF byte must be ASCII",
            TypedMessageError::OddPcmLength => "PCM16LE payload must have an even byte length",
            TypedMessageError::UnknownTypeClassification => "an internal raw classification was inconsistent",
        }
    }
}

/// The message about a decoder error.
pub open spec fn decode_message(error: DecodeError) -> Seq<char> {
    match error {
        DecodeError::InvalidLength(inner) => "invalid declared message length: "@ + typed_message(
            inner,
        ),
        DecodeError::ResourceLimit { required, capacity } => "scratch capacity "@ + decimal(
            capacity as nat,
        ) + " is below required body length "@ + decimal(required as nat),
        DecodeError::InvalidContent(inner) => "invalid message content: "@ + typed_message(inner),
        DecodeError::Failed => "decoder is in a failed state"@,
    }
}

impl DecodeError {
    /// Returns the message about the error.
    #[must_use]
    pub fn message(self) -> (text: String)
        ensures
            text@ == decode_message(self),
    {
        match self {
            DecodeError::InvalidLength(inner) => {
                let mut text = String::from_str("invalid declared message length: ");
                text.append(inner.message());
                text
            },
            DecodeError::ResourceLimit { required, capacity } => {
                let mut text = String::from_str("scratch capacity ");
                push_decimal(&mut text, capacity as u64);
                text.append(" is below required body length ");
                push_decimal(&mut text, required as u64);
                text
            },
            DecodeError::InvalidContent(inner) => {
                let mut text = String::from_str("invalid message content: ");
                text.append(inner.message());
                text
            },
            DecodeError::Failed => String::from_str("decoder is in a failed state"),
        }
    }
}

/// The message about a truncation.
pub open spec fn finish_message(error: FinishError) -> Seq<char> {
    match error {
        FinishError::TruncatedHeader { expected, received } => "header ended after "@ + decimal(
            received as nat,
        ) + " of "@ + decimal(expected as nat) + " bytes"@,
        FinishError::TruncatedPayload { expected, received } => "payload ended after "@ + decimal(
            received as nat,
        ) + " of "@ + decimal(expected as nat) + " bytes"@,
        FinishError::Failed => "decoder is in a failed state"@,
    }
}

impl FinishError {
    /// Returns the message about the truncation.
    #[must_use]
    pub fn message(self) -> (text: String)
        ensures
            text@ == finish_message(self),
    {
        match self {
            FinishError::TruncatedHeader { expected, received } => {
                let mut text = String::from_str("header ended after ");
                push_decimal(&mut text, received as u64);
                text.append(" of ");
                push_decimal(&mut text, expected as u64);
                text.append(" bytes");
                text
            },
            FinishError::TruncatedPayload { expected, received } => {
                let mut text = String::from_str("payload ended after ");
                push_decimal(&mut text, received as u64);
                text.append(" of ");
                push_decimal(&mut text, expected as u64);
                text.append(" bytes");
                text
            },
            FinishError::Failed => String::from_str("decoder is in a failed state"),
        }
    }
}

/// The message about an encoding failure.
pub open spec fn encode_message(error: EncodeError) -> Seq<char> {
    match error {
        EncodeError::OutputTooShort { required, available } => "output has "@ + decimal(
            available as nat,
        ) + " bytes but frame requires "@ + decimal(required as nat),
    }
}

impl EncodeError {
    /// Returns the message about the failure.
    #[must_use]
    pub fn message(self) -> (text: String)
        ensures
            text@ == encode_message(self),
    {
        match self {
            EncodeError::OutputTooShort { required, available } => {
                let mut text = String::from_str("output has ");
                push_decimal(&mut text, available as u64);
                text.append(" bytes but frame requires ");
                push_decimal(&mut text, required as u64);
                text
            },
        }
    }
}

/// The message about a policy rejection.
pub open spec fn rejection_message(rejection: Rejection) -> Seq<char> {
    match rejection {
        Rejection::MissingUuid => "audio or DTMF arrived before UUID"@,
        Rejection::DuplicateUuid => "a second UUID arrived in the session"@,
        Rejection::UnsupportedRate(_) => "audio rate is outside the incoming profile"@,
        Rejection::UnsupportedDigit(_) => "DTMF digit is outside the incoming profile"@,
        Rejection::UnsupportedType(_) => "wire type is outside the incoming profile"@,
        Rejection::AfterEnd => "message arrived after the session ended"@,
    }
}

impl IncomingSessionError {
    /// Returns the message about the rejection.
    #[must_use]
    pub fn message(self) -> (text: &'static str)
        ensures
            text@ == rejection_message(self@),
    {
        match self {
            IncomingSessionError::MissingUuid => "audio or DTMF arrived before UUID",
            IncomingSessionError::DuplicateUuid => "a second UUID arrived in the session",
            IncomingSessionError::UnsupportedRate(_) => "audio rate is outside the incoming profile",
            IncomingSessionError::UnsupportedDigit(_) => "DTMF digit is outside the incoming profile",
            IncomingSessionError::UnsupportedType(_) => "wire type is outside the incoming profile",
            IncomingSessionError::AfterEnd => "message arrived after the session ended",
        }
    }
}

impl LimitsError {
    /// Returns the message about the refused limits.
    #[must_use]
    pub fn message(self) -> (text: &'static str)
        ensures
            text@ == match self {
                LimitsError::PayloadBelowUuid => "payload capacity is below 16 UUID bytes"@,
                LimitsError::FixedStorageOverflow => "fixed buffer capacity exceeds usize"@,
            },
    {
        match self {
            LimitsError::PayloadBelowUuid => "payload capacity is below 16 UUID bytes",
            LimitsError::FixedStorageOverflow => "fixed buffer capacity exceeds usize",
        }
    }
}

/// The message about a budget refusal.
pub open spec fn budget_message(error: BudgetError) -> Seq<char> {
    match error {
        BudgetError::TooLarge { required, capacity } => "requested "@ + decimal(required as nat)
            + " bytes exceeds capacity "@ + decimal(capacity as nat),
        BudgetError::Full { required, available } => "requested "@ + decimal(required as nat)
            + " bytes with only "@ + decimal(available as nat) + " available"@,
    }
}

impl BudgetError {
    /// Returns the message about the refusal.
    #[must_use]
    pub fn message(self) -> (text: String)
        ensures
            text@ == budget_message(self),
    {
        let mut text = String::from_str("requested ");
        match self {
            BudgetError::TooLarge { required, capacity } => {
                push_decimal(&mut text, required as u64);
                text.append(" bytes exceeds capacity ");
                push_decimal(&mut text, capacity as u64);
            },
            BudgetError::Full { required, available } => {
                push_decimal(&mut text, required as u64);
                text.append(" bytes with only ");
                push_decimal(&mut text, available as u64);
                text.append(" available");
            },
        }
        text
    }
}

/// The message about a receiver failure; `io` is that of a failed operation.
pub open spec fn receiver_message(failure: ReceiverFailure, io: Seq<char>) -> Seq<char> {
    match failure {
        ReceiverFailure::Io(_) => "receiver I/O failed: "@ + io,
        ReceiverFailure::BudgetTooSmall(error) => "receiver budget is too small: "@
            + budget_message(error),
        ReceiverFailure::InstanceExhausted => "receiver instance identities exhausted"@,
        ReceiverFailure::TokenExhausted => "receiver connection tokens exhausted"@,
        ReceiverFailure::BudgetAlreadySubscribed => "receiver budget already has an active worker"@,
        ReceiverFailure::CounterExhausted => "receiver observation counters exhausted"@,
    }
}

impl ReceiverError {
    /// Returns the message about the failure. That of a failed operation is the
    /// platform's.
    #[must_use]
    pub fn message(&self) -> (text: String)
        ensures
            exists|io: Seq<char>| text@ == #[trigger] receiver_message(self.cause(), io),
    {
        match self.failure() {
            ReceiverFailure::Io(error) => {
                let io = error_text(error);
                let mut text = String::from_str("receiver I/O failed: ");
                text.append(io.as_str());
                assert(text@ == receiver_message(self.cause(), io@));
                text
            },
            ReceiverFailure::BudgetTooSmall(error) => {
                let mut text = String::from_str("receiver budget is too small: ");
                let inner = error.message();
                text.append(inner.as_str());
                assert(text@ == receiver_message(self.cause(), Seq::empty()));
                text
            },
            ReceiverFailure::InstanceExhausted => {
                let text = String::from_str("receiver instance identities exhausted");
                assert(text@ == receiver_message(self.cause(), Seq::empty()));
                text
            },
            ReceiverFailure::TokenExhausted => {
                let text = String::from_str("receiver connection tokens exhausted");
                assert(text@ == receiver_message(self.cause(), Seq::empty()));
                text
            },
            ReceiverFailure::BudgetAlreadySubscribed => {
                let text = String::from_str("receiver budget already has an active worker");
                assert(text@ == receiver_message(self.cause(), Seq::empty()));
                text
            },
            ReceiverFailure::CounterExhausted => {
                let text = String::from_str("receiver observation counters exhausted");
                assert(text@ == receiver_message(self.cause(), Seq::empty()));
                text
            },
        }
    }
}

/// The diagnostic name of a recording stage.
pub open spec fn stage_form(stage: RecordingStage) -> Seq<char> {
    match stage {
        RecordingStage::Validate => "Validate"@,
        RecordingStage::Header => "Header"@,
        RecordingStage::Wire => "Wire"@,
        RecordingStage::Audio => "Audio"@,
        RecordingStage::Events => "Events"@,
        RecordingStage::Seek => "Seek"@,
        RecordingStage::Patch => "Patch"@,
        RecordingStage::FlushWire => "FlushWire"@,
        RecordingStage::FlushWave => "FlushWave"@,
        RecordingStage::FlushEvents => "FlushEvents"@,
    }
}

fn stage_text(stage: RecordingStage) -> (text: &'static str)
    ensures
        text@ == stage_form(stage),
{
    match stage {
        RecordingStage::Validate => "Validate",
        RecordingStage::Header => "Header",
        RecordingStage::Wire => "Wire",
        RecordingStage::Audio => "Audio",
        RecordingStage::Events => "Events",
        RecordingStage::Seek => "Seek",
        RecordingStage::Patch => "Patch",
        RecordingStage::FlushWire => "FlushWire",
        RecordingStage::FlushWave => "FlushWave",
        RecordingStage::FlushEvents => "FlushEvents",
    }
}

/// The diagnostic name of a recording violation.
pub open spec fn violation_form(violation: RecordingViolation) -> Seq<char> {
    match violation {
        RecordingViolation::AfterFailure => "AfterFailure"@,
        RecordingViolation::AfterEnd => "AfterEnd"@,
        RecordingViolation::Connection => "Connection"@,
        RecordingViolation::Order => "Order"@,
        RecordingViolation::Uuid => "Uuid"@,
        RecordingViolation::Offset => "Offset"@,
        RecordingViolation::AudioFormat => "AudioFormat"@,
        RecordingViolation::WaveSize => "WaveSize"@,
    }
}

fn violation_text(violation: RecordingViolation) -> (text: &'static str)
    ensures
        text@ == violation_form(violation),
{
    match violation {
        RecordingViolation::AfterFailure => "AfterFailure",
        RecordingViolation::AfterEnd => "AfterEnd",
        RecordingViolation::Connection => "Connection",
        RecordingViolation::Order => "Order",
        RecordingViolation::Uuid => "Uuid",
        RecordingViolation::Offset => "Offset",
        RecordingViolation::AudioFormat => "AudioFormat",
        RecordingViolation::WaveSize => "WaveSize",
    }
}

/// The message about a stopped recording; `io` is that of a failed operation.
pub open spec fn recording_message(
    stage: RecordingStage,
    failure: RecordingFailure,
    io: Seq<char>,
) -> Seq<char> {
    "recording "@ + stage_form(stage) + " failed: "@ + match failure {
        RecordingFailure::Io(_) => io,
        RecordingFailure::Invalid(violation) => violation_form(violation),
    }
}

impl RecordingError {
    /// Returns the message about the stopped recording. That of a failed operation is
    /// the platform's.
    #[must_use]
    pub fn message(&self) -> (text: String)
        ensures
            exists|io: Seq<char>|
                text@ == #[trigger] recording_message(self.at(), self.cause(), io),
    {
        let mut text = String::from_str("recording ");
        text.append(stage_text(self.stage()));
        text.append(" failed: ");
        match self.failure() {
            RecordingFailure::Io(error) => {
                let io = error_text(error);
                text.append(io.as_str());
                assert(text@ == recording_message(self.at(), self.cause(), io@));
            },
            RecordingFailure::Invalid(violation) => {
                text.append(violation_text(*violation));
                assert(text@ == recording_message(self.at(), self.cause(), Seq::empty()));
            },
        }
        text
    }
}

/// A message about two sizes tells both, each in its own place.
pub proof fn law_messages_tell_both_sizes(one: usize, other: usize)
    ensures
        budget_message(BudgetError::TooLarge { required: one, capacity: other }) == "requested "@
            + (decimal(one as nat) + (" bytes exceeds capacity "@ + decimal(other as nat))),
        budget_message(BudgetError::Full { required: one, available: other }) == "requested "@ + (
        decimal(one as nat) + (" bytes with only "@ + (decimal(other as nat) + " available"@))),
        decode_message(DecodeError::ResourceLimit { required: one, capacity: other })
            == "scratch capacity "@ + (decimal(other as nat) + (" is below required body length "@
            + decimal(one as nat))),
        encode_message(EncodeError::OutputTooShort { required: one, available: other })
            == "output has "@ + (decimal(other as nat) + (" bytes but frame requires "@ + decimal(
            one as nat,
        ))),
        finish_message(FinishError::TruncatedHeader { expected: one, received: other })
            == "header ended after "@ + (decimal(other as nat) + (" of "@ + (decimal(one as nat)
            + " bytes"@))),
        finish_message(FinishError::TruncatedPayload { expected: one, received: other })
            == "payload ended after "@ + (decimal(other as nat) + (" of "@ + (decimal(one as nat)
            + " bytes"@))),
{
}

/// Every rejection is told in its own words.
pub proof fn law_rejections_are_told_in_their_own_words(rejection: Rejection)
    ensures
        rejection is MissingUuid ==> rejection_message(rejection)
            == "audio or DTMF arrived before UUID"@,
        rejection is DuplicateUuid ==> rejection_message(rejection)
            == "a second UUID arrived in the session"@,
        rejection is UnsupportedRate ==> rejection_message(rejection)
            == "audio rate is outside the incoming profile"@,
        rejection is UnsupportedDigit ==> rejection_message(rejection)
            == "DTMF digit is outside the incoming profile"@,
        rejection is UnsupportedType ==> rejection_message(rejection)
            == "wire type is outside the incoming profile"@,
        rejection is AfterEnd ==> rejection_message(rejection)
            == "message arrived after the session ended"@,
{
}

/// The message about a stopped recording tells the stage at which it stopped by its name,
/// and behind it the violation by its name or what the platform says of the failure.
pub proof fn law_stopped_recordings_tell_stage_and_cause(
    stage: RecordingStage,
    violation: RecordingViolation,
    error: std::io::Error,
    io: Seq<char>,
)
    ensures
        ({
            let failed = recording_message(stage, RecordingFailure::Io(error), io);
            let front = failed.take(failed.len() - io.len());
            &&& failed.skip(failed.len() - io.len()) == io
            &&& recording_message(stage, RecordingFailure::Invalid(violation), io) == front
                + match violation {
                RecordingViolation::AfterFailure => "AfterFailure"@,
                RecordingViolation::AfterEnd => "AfterEnd"@,
                RecordingViolation::Connection => "Connection"@,
                RecordingViolation::Order => "Order"@,
                RecordingViolation::Uuid => "Uuid"@,
                RecordingViolation::Offset => "Offset"@,
                RecordingViolation::AudioFormat => "AudioFormat"@,
                RecordingViolation::WaveSize => "WaveSize"@,
            }
            &&& front == "recording "@ + match stage {
                RecordingStage::Validate => "Validate"@,
                RecordingStage::Header => "Header"@,
                RecordingStage::Wire => "Wire"@,
                RecordingStage::Audio => "Audio"@,
                RecordingStage::Events => "Events"@,
                RecordingStage::Seek => "Seek"@,
                RecordingStage::Patch => "Patch"@,
                RecordingStage::FlushWire => "FlushWire"@,
                RecordingStage::FlushWave => "FlushWave"@,
                RecordingStage::FlushEvents => "FlushEvents"@,
            } + " failed: "@
        }),
{
    let front = "recording "@ + stage_form(stage) + " failed: "@;
    let failed = recording_message(stage, RecordingFailure::Io(error), io);
    assert(failed =~= front + io);
    assert(failed.take(failed.len() - io.len()) =~= front);
    assert(failed.skip(failed.len() - io.len()) =~= io);
}

/// Every typed failure is told in its own words.
pub proof fn law_typed_failures_are_told_in_their_own_words(error: TypedMessageError)
    ensures
        error is TerminatePayload ==> typed_message(error)
            == "termination must carry no bytes under the typed policy"@,
        error is UuidLength ==> typed_message(error)
            == "UUID payload must contain exactly sixteen bytes"@,
        error is DtmfLength ==> typed_message(error)
            == "DTMF payload must contain exactly one byte"@,
        error is DtmfNotAscii ==> typed_message(error) == "DTMF byte must be ASCII"@,
        error is OddPcmLength ==> typed_message(error)
            == "PCM16LE payload must have an even byte length"@,
        error is UnknownTypeClassification ==> typed_message(error)
            == "an internal raw classification was inconsistent"@,
{
}

} // verus!
