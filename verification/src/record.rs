//! Owned observations produced by the receiver worker.
use vstd::prelude::*;

use crate::audio::SampleRate;
use crate::decoder::{DecodeError, FinishError};
use crate::error::TypedMessageError;
use crate::memory::{BudgetError, OwnedBytes};
use crate::message::{Dtmf, Uuid};
use crate::session::{identity_bytes, IncomingSessionError, Rejection};

verus! {

/// The monotonic clock reading of `std::time`, carried through unread.
#[verifier::external_type_specification]
#[verifier::external_body]
pub struct ExInstant(std::time::Instant);

/// The error of `std::io`, carried through as an opaque value.
#[verifier::external_type_specification]
#[verifier::external_body]
pub struct ExIoError(std::io::Error);

/// A worker-scoped connection identity.
#[derive(Clone, Copy, Debug, PartialEq, Eq, PartialOrd, Ord, Structural)]
pub struct ConnectionId {
    instance: u64,
    sequence: usize,
}

impl View for ConnectionId {
    type V = (u64, usize);

    closed spec fn view(&self) -> (u64, usize) {
        (self.instance, self.sequence)
    }
}

impl ConnectionId {
    /// Creates the identity of a connection within a receiver instance.
    #[must_use]
    pub fn new(instance: u64, sequence: usize) -> (id: ConnectionId)
        ensures
            id@ == (instance, sequence),
    {
        ConnectionId { instance, sequence }
    }

    /// Returns the receiver instance that admitted this connection.
    #[must_use]
    pub fn instance(self) -> (instance: u64)
        ensures
            instance == self@.0,
    {
        self.instance
    }

    /// Returns the connection sequence within its receiver instance.
    #[must_use]
    pub fn sequence(self) -> (sequence: usize)
        ensures
            sequence == self@.1,
    {
        self.sequence
    }

    /// Returns whether two identities name the same connection.
    #[must_use]
    pub fn same(self, other: ConnectionId) -> (same: bool)
        ensures
            same == (self@ == other@),
            same == (self == other),
    {
        self.instance == other.instance && self.sequence == other.sequence
    }
}

/// An absolute transport-byte offset for one connection.
#[derive(Clone, Copy, Debug, PartialEq, Eq, PartialOrd, Ord, Structural)]
pub struct WireOffset(u64);

impl View for WireOffset {
    type V = u64;

    closed spec fn view(&self) -> u64 {
        self.0
    }
}

impl WireOffset {
    /// Creates an absolute byte offset.
    #[must_use]
    pub fn new(value: u64) -> (offset: WireOffset)
        ensures
            offset@ == value,
    {
        WireOffset(value)
    }

    /// Returns the absolute byte offset.
    #[must_use]
    pub fn get(self) -> (value: u64)
        ensures
            value == self@,
    {
        self.0
    }
}

/// An owned receiver observation.
pub struct Record {
    /// Connection to which this observation belongs.
    pub connection: ConnectionId,
    /// Start of a transport read or end of a consumed protocol frame.
    pub offset: WireOffset,
    /// Instant at which the receiver observed this result.
    pub observed_at: std::time::Instant,
    /// The observed transport, protocol, or terminal state.
    pub kind: RecordKind,
}

/// The owned content of a receiver observation.
#[allow(inconsistent_fields)]
pub enum RecordKind {
    /// A connection was admitted from this peer.
    Connected {
        /// Remote peer address at admission.
        peer: String,
    },
    /// Bytes returned by a transport read before protocol interpretation.
    Wire {
        /// Owned bytes from one read chunk.
        bytes: OwnedBytes,
    },
    /// The session accepted its first UUID.
    Started {
        /// Accepted session UUID.
        uuid: Uuid,
    },
    /// The session accepted PCM bytes at their declared wire rate.
    Audio {
        /// Session UUID.
        uuid: Uuid,
        /// Declared sample rate.
        rate: SampleRate,
        /// Owned PCM payload.
        bytes: OwnedBytes,
    },
    /// The session accepted a DTMF digit.
    Dtmf {
        /// Session UUID.
        uuid: Uuid,
        /// Accepted digit.
        digit: Dtmf,
    },
    /// The connection reached a distinct terminal result.
    Ended {
        /// UUID established before termination, if any.
        uuid: Option<Uuid>,
        /// Terminal reason.
        reason: EndReason,
    },
}

/// A distinct connection terminal result.
pub enum EndReason {
    /// EOF followed a successful decoder finish.
    CleanEof,
    /// The peer sent a terminate message.
    Terminate,
    /// The peer sent an opaque error payload.
    PeerError(OwnedBytes),
    /// Typed conversion rejected a completed frame.
    InvalidMessage(TypedMessageError),
    /// Raw framing failed.
    Decode(DecodeError),
    /// EOF interrupted framing.
    Truncated(FinishError),
    /// Incoming session policy rejected a typed frame.
    Policy(IncomingSessionError),
    /// A socket operation failed.
    Transport(std::io::Error),
    /// Output retention could not reserve the requested bytes.
    ResourceRefused(BudgetError),
    /// A checked transport offset could no longer advance.
    OffsetExhausted,
}

/// A terminal result over plain bytes.
pub enum Ending {
    /// EOF at a frame boundary.
    CleanEof,
    /// A terminate message.
    Terminate,
    /// A peer error with these bytes.
    PeerError(Seq<u8>),
    /// A completed frame that is no valid message.
    InvalidMessage(TypedMessageError),
    /// A framing failure.
    Decode(DecodeError),
    /// EOF within a frame.
    Truncated(FinishError),
    /// A policy rejection.
    Policy(Rejection),
    /// A failed socket operation.
    Transport(std::io::Error),
    /// Refused retention.
    ResourceRefused(BudgetError),
    /// An offset beyond its range.
    OffsetExhausted,
}

/// The content of an observation over plain bytes.
pub enum Content {
    /// The peer's address.
    Connected(Seq<char>),
    /// Bytes of a transport read.
    Wire(Seq<u8>),
    /// The session's UUID.
    Started(Seq<u8>),
    /// UUID, declared rate and PCM bytes.
    Audio(Seq<u8>, SampleRate, Seq<u8>),
    /// UUID and DTMF byte.
    Dtmf(Seq<u8>, u8),
    /// UUID, if one was established, and terminal result.
    Ended(Option<Seq<u8>>, Ending),
}

impl Content {
    /// How many bytes of retained storage the content takes.
    pub open spec fn retained_bytes(self) -> nat {
        match self {
            Content::Wire(bytes) => bytes.len(),
            Content::Audio(_, _, bytes) => bytes.len(),
            Content::Ended(_, Ending::PeerError(bytes)) => bytes.len(),
            _ => 0,
        }
    }
}

/// An observation without its owner and its time: the offset and the content.
pub struct Observation {
    /// Absolute byte offset.
    pub offset: int,
    /// What was observed there.
    pub content: Content,
}

impl View for EndReason {
    type V = Ending;

    open spec fn view(&self) -> Ending {
        match self {
            EndReason::CleanEof => Ending::CleanEof,
            EndReason::Terminate => Ending::Terminate,
            EndReason::PeerError(bytes) => Ending::PeerError(bytes@),
            EndReason::InvalidMessage(error) => Ending::InvalidMessage(*error),
            EndReason::Decode(error) => Ending::Decode(*error),
            EndReason::Truncated(error) => Ending::Truncated(*error),
            EndReason::Policy(error) => Ending::Policy(error@),
            EndReason::Transport(error) => Ending::Transport(*error),
            EndReason::ResourceRefused(error) => Ending::ResourceRefused(*error),
            EndReason::OffsetExhausted => Ending::OffsetExhausted,
        }
    }
}

impl View for RecordKind {
    type V = Content;

    open spec fn view(&self) -> Content {
        match self {
            RecordKind::Connected { peer } => Content::Connected(peer@),
            RecordKind::Wire { bytes } => Content::Wire(bytes@),
            RecordKind::Started { uuid } => Content::Started(uuid@),
            RecordKind::Audio { uuid, rate, bytes } => Content::Audio(uuid@, *rate, bytes@),
            RecordKind::Dtmf { uuid, digit } => Content::Dtmf(uuid@, digit@),
            RecordKind::Ended { uuid, reason } => Content::Ended(identity_bytes(*uuid), reason@),
        }
    }
}

impl View for Record {
    type V = Observation;

    open spec fn view(&self) -> Observation {
        Observation { offset: self.offset@ as int, content: self.kind@ }
    }
}

impl RecordKind {
    /// The charged bytes in an observation, if it has any.
    pub open spec fn charged_bytes(self) -> Option<OwnedBytes> {
        match self {
            RecordKind::Wire { bytes } => Some(bytes),
            RecordKind::Audio { bytes, .. } => Some(bytes),
            RecordKind::Ended { reason: EndReason::PeerError(bytes), .. } => Some(bytes),
            _ => None,
        }
    }

    /// The charge entry of the bytes in an observation, if it has any.
    pub open spec fn charge(self) -> Option<(nat, usize)> {
        match self.charged_bytes() {
            Some(bytes) => Some(bytes.entry()),
            None => None,
        }
    }
}

impl Record {
    /// Returns how many bytes of retained storage the record takes.
    #[must_use]
    pub fn charged_capacity(&self) -> (charge: usize)
        ensures
            charge == self@.content.retained_bytes(),
            self.kind.charge() matches Some(entry) ==> charge == entry.1,
    {
        match &self.kind {
            RecordKind::Wire { bytes } => bytes.charged_capacity(),
            RecordKind::Audio { bytes, .. } => bytes.charged_capacity(),
            RecordKind::Ended { reason: EndReason::PeerError(bytes), .. } => {
                bytes.charged_capacity()
            },
            _ => 0,
        }
    }

    /// Gives up the record for the charged bytes in it, so that they can be
    /// released.
    pub fn into_bytes(self) -> (bytes: Option<OwnedBytes>)
        ensures
            bytes == self.kind.charged_bytes(),
    {
        match self.kind {
            RecordKind::Wire { bytes } => Some(bytes),
            RecordKind::Audio { bytes, .. } => Some(bytes),
            RecordKind::Ended { reason: EndReason::PeerError(bytes), .. } => Some(bytes),
            _ => None,
        }
    }
}

/// Only observations that hold bytes retain storage, and they retain all of them: what was
/// read, the audio of a frame and the data of a peer's error.
pub proof fn law_held_bytes_are_retained(content: Content, bytes: Seq<u8>)
    ensures
        content == Content::Wire(bytes) ==> content.retained_bytes() == bytes.len(),
        content matches Content::Audio(_, _, pcm) ==> pcm == bytes ==> content.retained_bytes()
            == bytes.len(),
        content matches Content::Ended(_, Ending::PeerError(data)) ==> data == bytes
            ==> content.retained_bytes() == bytes.len(),
        content.retained_bytes() > 0 ==> content is Wire || content is Audio || content is Ended,
        content matches Content::Ended(_, ending) ==> content.retained_bytes() > 0 ==> ending
            is PeerError,
{
}

} // verus!
