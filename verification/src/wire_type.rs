//! Wire-type classification without losing unknown values.
use vstd::prelude::*;

verus! {

/// A raw `AudioSocket` type byte.
#[derive(Clone, Copy, Debug, PartialEq, Eq, Structural)]
pub struct WireType(u8);

impl View for WireType {
    type V = u8;

    closed spec fn view(&self) -> u8 {
        self.0
    }
}

impl WireType {
    /// Terminate-frame type byte.
    pub const TERMINATE: u8 = 0x00;

    /// UUID-frame type byte.
    pub const UUID: u8 = 0x01;

    /// DTMF-frame type byte.
    pub const DTMF: u8 = 0x03;

    /// Opaque peer-error type byte.
    pub const ERROR: u8 = 0xff;

    /// Creates a raw type byte, including unassigned values.
    #[must_use]
    pub fn new(value: u8) -> (wire_type: WireType)
        ensures
            wire_type@ == value,
    {
        WireType(value)
    }

    /// Returns the preserved numeric type byte.
    #[must_use]
    pub fn value(self) -> (value: u8)
        ensures
            value == self@,
    {
        self.0
    }

    /// Classifies this byte when it names a documented type.
    #[must_use]
    pub fn known(self) -> (known: Option<KnownWireType>)
        ensures
            known == known_type(self@),
    {
        match self.0 {
            0x00 => Some(KnownWireType::Terminate),
            0x01 => Some(KnownWireType::Uuid),
            0x03 => Some(KnownWireType::Dtmf),
            0x10 => Some(KnownWireType::Pcm8Khz),
            0x11 => Some(KnownWireType::Pcm12Khz),
            0x12 => Some(KnownWireType::Pcm16Khz),
            0x13 => Some(KnownWireType::Pcm24Khz),
            0x14 => Some(KnownWireType::Pcm32Khz),
            0x15 => Some(KnownWireType::Pcm44Khz),
            0x16 => Some(KnownWireType::Pcm48Khz),
            0x17 => Some(KnownWireType::Pcm96Khz),
            0x18 => Some(KnownWireType::Pcm192Khz),
            0xff => Some(KnownWireType::Error),
            _ => None,
        }
    }
}

/// Every documented `AudioSocket` wire type.
#[derive(Clone, Copy, Debug, PartialEq, Eq, Structural)]
pub enum KnownWireType {
    /// Termination.
    Terminate,
    /// UUID.
    Uuid,
    /// DTMF.
    Dtmf,
    /// PCM 8 kHz.
    Pcm8Khz,
    /// PCM 12 kHz.
    Pcm12Khz,
    /// PCM 16 kHz.
    Pcm16Khz,
    /// PCM 24 kHz.
    Pcm24Khz,
    /// PCM 32 kHz.
    Pcm32Khz,
    /// PCM 44.1 kHz.
    Pcm44Khz,
    /// PCM 48 kHz.
    Pcm48Khz,
    /// PCM 96 kHz.
    Pcm96Khz,
    /// PCM 192 kHz.
    Pcm192Khz,
    /// Opaque peer error.
    Error,
}

impl KnownWireType {
    /// The byte that carries this type on the wire.
    pub open spec fn byte(self) -> u8 {
        match self {
            KnownWireType::Terminate => 0x00,
            KnownWireType::Uuid => 0x01,
            KnownWireType::Dtmf => 0x03,
            KnownWireType::Pcm8Khz => 0x10,
            KnownWireType::Pcm12Khz => 0x11,
            KnownWireType::Pcm16Khz => 0x12,
            KnownWireType::Pcm24Khz => 0x13,
            KnownWireType::Pcm32Khz => 0x14,
            KnownWireType::Pcm44Khz => 0x15,
            KnownWireType::Pcm48Khz => 0x16,
            KnownWireType::Pcm96Khz => 0x17,
            KnownWireType::Pcm192Khz => 0x18,
            KnownWireType::Error => 0xff,
        }
    }
}

/// The documented type that a wire byte names, if it names one.
pub open spec fn known_type(byte: u8) -> Option<KnownWireType> {
    if byte == 0x00 {
        Some(KnownWireType::Terminate)
    } else if byte == 0x01 {
        Some(KnownWireType::Uuid)
    } else if byte == 0x03 {
        Some(KnownWireType::Dtmf)
    } else if byte == 0x10 {
        Some(KnownWireType::Pcm8Khz)
    } else if byte == 0x11 {
        Some(KnownWireType::Pcm12Khz)
    } else if byte == 0x12 {
        Some(KnownWireType::Pcm16Khz)
    } else if byte == 0x13 {
        Some(KnownWireType::Pcm24Khz)
    } else if byte == 0x14 {
        Some(KnownWireType::Pcm32Khz)
    } else if byte == 0x15 {
        Some(KnownWireType::Pcm44Khz)
    } else if byte == 0x16 {
        Some(KnownWireType::Pcm48Khz)
    } else if byte == 0x17 {
        Some(KnownWireType::Pcm96Khz)
    } else if byte == 0x18 {
        Some(KnownWireType::Pcm192Khz)
    } else if byte == 0xff {
        Some(KnownWireType::Error)
    } else {
        None
    }
}

/// Classification and wire bytes are inverse to each other: a byte is
/// classified as a type exactly when it is that type's byte.
pub proof fn law_classification_is_exact(byte: u8, known: KnownWireType)
    ensures
        known_type(byte) == Some(known) <==> byte == known.byte(),
{
}

/// A type byte that is not assigned by the documented protocol.
#[derive(Clone, Copy, Debug, PartialEq, Eq, Structural)]
pub struct UnknownWireType(u8);

impl View for UnknownWireType {
    type V = u8;

    closed spec fn view(&self) -> u8 {
        self.0
    }
}

impl UnknownWireType {
    #[verifier::type_invariant]
    spec fn unassigned(self) -> bool {
        known_type(self@) is None
    }

    /// Rejects bytes that identify a documented type.
    pub fn new(value: u8) -> (result: Result<UnknownWireType, UnknownWireTypeError>)
        ensures
            match result {
                Ok(unknown) => known_type(value) is None && unknown@ == value,
                Err(error) => known_type(value) is Some && error == UnknownWireTypeError::KnownType,
            },
    {
        if WireType::new(value).known().is_some() {
            Err(UnknownWireTypeError::KnownType)
        } else {
            Ok(UnknownWireType(value))
        }
    }

    /// Returns the preserved unassigned type byte.
    #[must_use]
    pub fn value(self) -> (value: u8)
        ensures
            value == self@,
            known_type(value) is None,
    {
        proof {
            use_type_invariant(self);
        }
        self.0
    }
}

/// Failure to create an unknown-type value.
#[derive(Clone, Copy, Debug, PartialEq, Eq, Structural)]
pub enum UnknownWireTypeError {
    /// The supplied byte is a known protocol type.
    KnownType,
}

/// The assigned bytes are those of the three control types, the nine PCM types in a row
/// and the peer error; every other byte is kept as an unknown one.
pub proof fn law_assigned_bytes(byte: u8)
    ensures
        known_type(byte) is Some <==> (byte == 0 || byte == 1 || byte == 3 || 0x10 <= byte <= 0x18
            || byte == 0xff),
        known_type(byte) is Some ==> known_type(byte)->0.byte() == byte,
        known_type(byte) == Some(KnownWireType::Terminate) <==> byte == 0,
        known_type(byte) == Some(KnownWireType::Uuid) <==> byte == 1,
        known_type(byte) == Some(KnownWireType::Dtmf) <==> byte == 3,
        known_type(byte) == Some(KnownWireType::Error) <==> byte == 0xff,
{
}

} // verus!
