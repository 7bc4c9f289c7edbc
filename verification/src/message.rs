//! Validated typed message values.
use vstd::prelude::*;

use crate::audio::{AudioPayload, SampleRate};
use crate::envelope::RawEnvelopeError;
use crate::error::TypedMessageError;
use crate::wire_type::{known_type, UnknownWireType};

verus! {

/// A sixteen-byte protocol UUID with no application identity interpretation.
#[derive(Clone, Copy, Debug, Eq)]
pub struct Uuid([u8; 16]);

impl View for Uuid {
    type V = Seq<u8>;

    closed spec fn view(&self) -> Seq<u8> {
        self.0@
    }
}

impl vstd::std_specs::cmp::PartialEqSpecImpl for Uuid {
    open spec fn obeys_eq_spec() -> bool {
        true
    }

    open spec fn eq_spec(&self, other: &Uuid) -> bool {
        self@ == other@
    }
}

impl PartialEq for Uuid {
    fn eq(&self, other: &Uuid) -> (equal: bool) {
        let mut i: usize = 0;
        while i < 16
            invariant
                i <= 16,
                forall|k: int| 0 <= k < i ==> self.0@[k] == other.0@[k],
            decreases 16 - i,
        {
            if self.0[i] != other.0[i] {
                return false;
            }
            i = i + 1;
        }
        assert(self.0@ =~= other.0@);
        true
    }
}

impl Uuid {
    /// Creates a UUID from all sixteen protocol bytes.
    #[must_use]
    pub fn new(bytes: [u8; 16]) -> (uuid: Uuid)
        ensures
            uuid@ == bytes@,
    {
        Uuid(bytes)
    }

    /// Returns exact wire bytes.
    #[must_use]
    pub fn bytes(self) -> (bytes: [u8; 16])
        ensures
            bytes@ == self@,
    {
        self.0
    }
}

/// Two UUIDs with the same sixteen bytes are the same value.
pub proof fn law_uuid_is_its_bytes(a: Uuid, b: Uuid)
    ensures
        a@ == b@ <==> a == b,
        a@.len() == 16,
{
    if a@ == b@ {
        assert(a.0 =~= b.0);
    }
}

/// One validated ASCII DTMF byte.
#[derive(Clone, Copy, Debug, PartialEq, Eq, Structural)]
pub struct Dtmf(u8);

impl View for Dtmf {
    type V = u8;

    closed spec fn view(&self) -> u8 {
        self.0
    }
}

impl Dtmf {
    #[verifier::type_invariant]
    spec fn ascii(self) -> bool {
        self@ < 128
    }

    /// Validates one ASCII byte.
    pub fn new(value: u8) -> (result: Result<Dtmf, TypedMessageError>)
        ensures
            match result {
                Ok(digit) => value < 128 && digit@ == value,
                Err(error) => value >= 128 && error == TypedMessageError::DtmfNotAscii,
            },
    {
        if value >= 128 {
            return Err(TypedMessageError::DtmfNotAscii);
        }
        Ok(Dtmf(value))
    }

    /// Returns the original ASCII byte.
    #[must_use]
    pub fn value(self) -> (value: u8)
        ensures
            value == self@,
            value < 128,
    {
        proof {
            use_type_invariant(self);
        }
        self.0
    }
}

/// A borrowed opaque payload whose length fits the wire's `u16` field.
#[derive(Clone, Copy, Debug, PartialEq, Eq)]
pub struct OpaquePayload<'a>(&'a [u8]);

impl<'a> View for OpaquePayload<'a> {
    type V = Seq<u8>;

    closed spec fn view(&self) -> Seq<u8> {
        self.0@
    }
}

impl<'a> OpaquePayload<'a> {
    #[verifier::type_invariant]
    spec fn bounded(self) -> bool {
        self@.len() <= 65_535
    }

    /// Validates an opaque payload for a wire-representable typed message.
    pub fn new(bytes: &'a [u8]) -> (result: Result<OpaquePayload<'a>, RawEnvelopeError>)
        ensures
            match result {
                Ok(payload) => bytes@.len() <= 65_535 && payload@ == bytes@,
                Err(error) => bytes@.len() > 65_535 && error == RawEnvelopeError::PayloadTooLong,
            },
    {
        if bytes.len() > 65_535 {
            return Err(RawEnvelopeError::PayloadTooLong);
        }
        Ok(OpaquePayload(bytes))
    }

    /// Returns the original opaque bytes.
    #[must_use]
    pub fn bytes(self) -> (bytes: &'a [u8])
        ensures
            bytes@ == self@,
            bytes@.len() <= 65_535,
    {
        proof {
            use_type_invariant(self);
        }
        self.0
    }
}

/// A semantically validated `AudioSocket` message borrowing payloads where needed.
#[allow(inconsistent_fields)]
#[derive(Clone, Copy, Debug, PartialEq, Eq)]
pub enum TypedMessage<'a> {
    /// A zero-payload termination frame.
    Terminate,
    /// A protocol UUID frame.
    Uuid(Uuid),
    /// An ASCII DTMF frame.
    Dtmf(Dtmf),
    /// A PCM16LE frame with declared wire rate.
    Audio {
        /// Declared wire rate.
        rate: SampleRate,
        /// Borrowed PCM bytes.
        payload: AudioPayload<'a>,
    },
    /// A peer-provided opaque error payload.
    Error(OpaquePayload<'a>),
    /// An unassigned type and opaque payload.
    Unknown {
        /// Verified unassigned type.
        wire_type: UnknownWireType,
        /// Borrowed opaque payload.
        payload: OpaquePayload<'a>,
    },
}

/// What a typed message says, with every payload as the bytes it borrows.
pub enum Message {
    /// A termination.
    Terminate,
    /// The sixteen UUID bytes.
    Uuid(Seq<u8>),
    /// The DTMF byte.
    Dtmf(u8),
    /// PCM bytes at a declared rate.
    Audio(SampleRate, Seq<u8>),
    /// Opaque peer-error bytes.
    Error(Seq<u8>),
    /// An unassigned type byte with its opaque bytes.
    Unknown(u8, Seq<u8>),
}

impl Message {
    /// What the typed values guarantee of their contents.
    pub open spec fn valid(self) -> bool {
        match self {
            Message::Terminate => true,
            Message::Uuid(bytes) => bytes.len() == 16,
            Message::Dtmf(value) => value < 128,
            Message::Audio(_, pcm) => pcm.len() % 2 == 0 && pcm.len() <= 65_535,
            Message::Error(bytes) => bytes.len() <= 65_535,
            Message::Unknown(byte, bytes) => known_type(byte) is None && bytes.len() <= 65_535,
        }
    }
}

impl<'a> View for TypedMessage<'a> {
    type V = Message;

    open spec fn view(&self) -> Message {
        match self {
            TypedMessage::Terminate => Message::Terminate,
            TypedMessage::Uuid(uuid) => Message::Uuid(uuid@),
            TypedMessage::Dtmf(digit) => Message::Dtmf(digit@),
            TypedMessage::Audio { rate, payload } => Message::Audio(*rate, payload@),
            TypedMessage::Error(payload) => Message::Error(payload@),
            TypedMessage::Unknown { wire_type, payload } => Message::Unknown(
                wire_type@,
                payload@,
            ),
        }
    }
}

} // verus!
