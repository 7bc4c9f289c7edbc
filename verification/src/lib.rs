//! `AudioSocket` framing, session policy, receiver scheduling and recording.
//!
//! Every function states what it returns or changes, over byte sequences and plain
//! values, and is proved to do so, except for a few that call `std` or `libc`: what
//! those state is taken on trust, each says so, and two state nothing of what they
//! return, the clock reading and the text of a platform's error. Sockets, threads and
//! files are left to the program that uses the library: it performs the operations
//! that the library asks for and reports what they came to.

pub mod accept;
pub mod audio;
pub mod capture;
pub mod config;
pub mod connection;
pub mod control;
pub mod decoder;
pub mod description;
pub mod encoder;
pub mod envelope;
pub mod error;
pub mod fifo;
pub mod handoff;
pub mod memory;
pub mod message;
pub mod options;
pub mod pass;
pub mod platform;
pub mod record;
pub mod recording;
pub mod replay;
pub mod report;
pub mod retention;
pub mod scheduler;
pub mod session;
pub mod signals;
pub mod summary;
pub mod task;
pub mod text;
pub mod transcript;
pub mod wire_type;
pub mod wording;
pub mod worker;

pub use audio::{AudioPayload, AudioPayloadError, SampleRate};
pub use config::{Limits, LimitsError, READ_BYTES};
pub use decoder::{DecodeError, DecodeOutcome, Decoder, FinishError, RawDecoder};
pub use encoder::{encode, encode_raw, EncodeError};
pub use envelope::{RawEnvelope, RawEnvelopeError};
pub use error::TypedMessageError;
pub use memory::{BudgetError, ByteBudget, OwnedBytes};
pub use message::{Dtmf, OpaquePayload, TypedMessage, Uuid};
pub use record::{ConnectionId, EndReason, Record, RecordKind, WireOffset};
pub use recording::{
    Recording, RecordingEnd, RecordingError, RecordingFailure, RecordingStage, RecordingSummary,
    RecordingViolation, TerminalKind,
};
pub use session::{
    IncomingEvent, IncomingProfile, IncomingSession, IncomingSessionError, SessionEnd,
};
pub use summary::{ReceiverError, ReceiverFailure, RunSummary, StopCause};
pub use wire_type::{KnownWireType, UnknownWireType, UnknownWireTypeError, WireType};
