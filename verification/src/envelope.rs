//! Raw envelopes and strict typed conversion.
use vstd::prelude::*;

use crate::audio::{declared_rate, AudioPayload, SampleRate};
use crate::error::TypedMessageError;
use crate::message::{Dtmf, Message, OpaquePayload, TypedMessage, Uuid};
use crate::wire_type::{known_type, KnownWireType, UnknownWireType, WireType};

verus! {

/// Bytes in a frame header: the type byte and the big-endian body length.
pub const HEADER_BYTES: usize = 3;

/// The longest body that the `u16` length field can declare.
pub const MAX_BODY_BYTES: usize = 65_535;

/// The policy violation in a body length declared for a wire type, if any.
pub open spec fn length_violation(byte: u8, length: nat) -> Option<TypedMessageError> {
    match known_type(byte) {
        Some(KnownWireType::Terminate) => if length != 0 {
            Some(TypedMessageError::TerminatePayload)
        } else {
            None
        },
        Some(KnownWireType::Uuid) => if length != 16 {
            Some(TypedMessageError::UuidLength)
        } else {
            None
        },
        Some(KnownWireType::Dtmf) => if length != 1 {
            Some(TypedMessageError::DtmfLength)
        } else {
            None
        },
        Some(KnownWireType::Error) | None => None,
        Some(_) => if length % 2 != 0 {
            Some(TypedMessageError::OddPcmLength)
        } else {
            None
        },
    }
}

/// The message that a frame of this type and body carries, or why it carries none.
pub open spec fn message_of(byte: u8, body: Seq<u8>) -> Result<Message, TypedMessageError> {
    match length_violation(byte, body.len()) {
        Some(error) => Err(error),
        None => match known_type(byte) {
            Some(KnownWireType::Terminate) => Ok(Message::Terminate),
            Some(KnownWireType::Uuid) => Ok(Message::Uuid(body)),
            Some(KnownWireType::Dtmf) => if body[0] < 128 {
                Ok(Message::Dtmf(body[0]))
            } else {
                Err(TypedMessageError::DtmfNotAscii)
            },
            Some(KnownWireType::Error) => Ok(Message::Error(body)),
            Some(pcm) => Ok(Message::Audio(declared_rate(pcm)->0, body)),
            None => Ok(Message::Unknown(byte, body)),
        },
    }
}

/// Checks a declared body length against the strict typed policy.
pub fn validate_typed_length(wire_type: WireType, length: usize) -> (result: Result<
    (),
    TypedMessageError,
>)
    ensures
        match result {
            Ok(()) => length_violation(wire_type@, length as nat) is None,
            Err(error) => length_violation(wire_type@, length as nat) == Some(error),
        },
{
    match wire_type.known() {
        Some(KnownWireType::Terminate) => if length != 0 {
            Err(TypedMessageError::TerminatePayload)
        } else {
            Ok(())
        },
        Some(KnownWireType::Uuid) => if length != 16 {
            Err(TypedMessageError::UuidLength)
        } else {
            Ok(())
        },
        Some(KnownWireType::Dtmf) => if length != 1 {
            Err(TypedMessageError::DtmfLength)
        } else {
            Ok(())
        },
        Some(KnownWireType::Error) | None => Ok(()),
        Some(_) => if length % 2 != 0 {
            Err(TypedMessageError::OddPcmLength)
        } else {
            Ok(())
        },
    }
}

/// Failure to form a raw envelope.
#[derive(Clone, Copy, Debug, PartialEq, Eq, Structural)]
pub enum RawEnvelopeError {
    /// Payload exceeds the u16 wire-length limit.
    PayloadTooLong,
}

/// A borrowed raw frame body paired with any wire type byte.
#[derive(Clone, Copy, Debug, PartialEq, Eq)]
pub struct RawEnvelope<'a> {
    wire_type: WireType,
    payload: &'a [u8],
}

impl<'a> RawEnvelope<'a> {
    #[verifier::type_invariant]
    spec fn bounded(self) -> bool {
        self.payload@.len() <= 65_535
    }

    /// The type byte of the frame.
    pub closed spec fn byte(self) -> u8 {
        self.wire_type@
    }

    /// The body of the frame.
    pub closed spec fn body(self) -> Seq<u8> {
        self.payload@
    }

    /// Preserves any wire type and a payload no longer than 65535 bytes.
    pub fn new(wire_type: WireType, payload: &'a [u8]) -> (result: Result<
        RawEnvelope<'a>,
        RawEnvelopeError,
    >)
        ensures
            match result {
                Ok(raw) => {
                    &&& payload@.len() <= 65_535
                    &&& raw.byte() == wire_type@
                    &&& raw.body() == payload@
                },
                Err(error) => payload@.len() > 65_535 && error == RawEnvelopeError::PayloadTooLong,
            },
    {
        if payload.len() > MAX_BODY_BYTES {
            return Err(RawEnvelopeError::PayloadTooLong);
        }
        Ok(RawEnvelope { wire_type, payload })
    }

    /// Pairs a wire type with a body whose length came out of a wire header.
    pub(crate) fn from_wire_bounded(wire_type: WireType, payload: &'a [u8]) -> (raw: RawEnvelope<
        'a,
    >)
        requires
            payload@.len() <= 65_535,
        ensures
            raw.byte() == wire_type@,
            raw.body() == payload@,
    {
        RawEnvelope { wire_type, payload }
    }

    /// Returns raw wire type without classifying it.
    #[must_use]
    pub fn wire_type(self) -> (wire_type: WireType)
        ensures
            wire_type@ == self.byte(),
    {
        self.wire_type
    }

    /// Returns the borrowed raw payload.
    #[must_use]
    pub fn payload(self) -> (payload: &'a [u8])
        ensures
            payload@ == self.body(),
            payload@.len() <= 65_535,
    {
        proof {
            use_type_invariant(self);
        }
        self.payload
    }

    /// Applies strict typed policies while preserving raw access on failure.
    pub fn typed(self) -> (result: Result<TypedMessage<'a>, TypedMessageError>)
        ensures
            match result {
                Ok(message) => message_of(self.byte(), self.body()) == Ok::<_, TypedMessageError>(
                    message@,
                ) && message@.valid(),
                Err(error) => message_of(self.byte(), self.body()) == Err::<Message, _>(error),
            },
    {
        proof {
            use_type_invariant(self);
        }
        match self.wire_type.known() {
            Some(KnownWireType::Terminate) => if self.payload.is_empty() {
                Ok(TypedMessage::Terminate)
            } else {
                Err(TypedMessageError::TerminatePayload)
            },
            Some(KnownWireType::Uuid) => self.uuid(),
            Some(KnownWireType::Dtmf) => self.dtmf(),
            Some(KnownWireType::Pcm8Khz) => self.audio(SampleRate::Khz8),
            Some(KnownWireType::Pcm12Khz) => self.audio(SampleRate::Khz12),
            Some(KnownWireType::Pcm16Khz) => self.audio(SampleRate::Khz16),
            Some(KnownWireType::Pcm24Khz) => self.audio(SampleRate::Khz24),
            Some(KnownWireType::Pcm32Khz) => self.audio(SampleRate::Khz32),
            Some(KnownWireType::Pcm44Khz) => self.audio(SampleRate::Khz44_1),
            Some(KnownWireType::Pcm48Khz) => self.audio(SampleRate::Khz48),
            Some(KnownWireType::Pcm96Khz) => self.audio(SampleRate::Khz96),
            Some(KnownWireType::Pcm192Khz) => self.audio(SampleRate::Khz192),
            Some(KnownWireType::Error) => match OpaquePayload::new(self.payload) {
                Ok(payload) => Ok(TypedMessage::Error(payload)),
                Err(_) => Err(TypedMessageError::UnknownTypeClassification),
            },
            None => self.unknown(),
        }
    }

    fn uuid(self) -> (result: Result<TypedMessage<'a>, TypedMessageError>)
        ensures
            match result {
                Ok(message) => self.body().len() == 16 && message@ == Message::Uuid(self.body()),
                Err(error) => self.body().len() != 16 && error == TypedMessageError::UuidLength,
            },
    {
        if self.payload.len() != 16 {
            return Err(TypedMessageError::UuidLength);
        }
        let mut bytes: [u8; 16] = [0; 16];
        let mut i: usize = 0;
        while i < 16
            invariant
                i <= 16,
                self.payload@.len() == 16,
                forall|k: int| 0 <= k < i ==> bytes@[k] == self.payload@[k],
            decreases 16 - i,
        {
            bytes[i] = self.payload[i];
            i = i + 1;
        }
        assert(bytes@ =~= self.payload@);
        Ok(TypedMessage::Uuid(Uuid::new(bytes)))
    }

    fn dtmf(self) -> (result: Result<TypedMessage<'a>, TypedMessageError>)
        ensures
            match result {
                Ok(message) => {
                    &&& self.body().len() == 1
                    &&& self.body()[0] < 128
                    &&& message@ == Message::Dtmf(self.body()[0])
                },
                Err(error) => if self.body().len() != 1 {
                    error == TypedMessageError::DtmfLength
                } else {
                    self.body()[0] >= 128 && error == TypedMessageError::DtmfNotAscii
                },
            },
    {
        if self.payload.len() != 1 {
            return Err(TypedMessageError::DtmfLength);
        }
        match Dtmf::new(self.payload[0]) {
            Ok(digit) => Ok(TypedMessage::Dtmf(digit)),
            Err(error) => Err(error),
        }
    }

    fn audio(self, rate: SampleRate) -> (result: Result<TypedMessage<'a>, TypedMessageError>)
        ensures
            match result {
                Ok(message) => self.body().len() % 2 == 0 && message@ == Message::Audio(
                    rate,
                    self.body(),
                ),
                Err(error) => self.body().len() % 2 != 0 && error
                    == TypedMessageError::OddPcmLength,
            },
    {
        proof {
            use_type_invariant(self);
        }
        match AudioPayload::new(self.payload) {
            Ok(payload) => Ok(TypedMessage::Audio { rate, payload }),
            Err(_) => Err(TypedMessageError::OddPcmLength),
        }
    }

    fn unknown(self) -> (result: Result<TypedMessage<'a>, TypedMessageError>)
        requires
            known_type(self.byte()) is None,
        ensures
            result matches Ok(message) && message@ == Message::Unknown(self.byte(), self.body()),
    {
        proof {
            use_type_invariant(self);
        }
        match (UnknownWireType::new(self.wire_type.value()), OpaquePayload::new(self.payload)) {
            (Ok(wire_type), Ok(payload)) => Ok(TypedMessage::Unknown { wire_type, payload }),
            _ => Err(TypedMessageError::UnknownTypeClassification),
        }
    }
}

} // verus!
