//! PCM payload views and declared rates.
use vstd::prelude::*;

use crate::wire_type::KnownWireType;

verus! {

/// A documented PCM sample rate declared by the wire type.
#[derive(Clone, Copy, Debug, PartialEq, Eq, Structural)]
pub enum SampleRate {
    /// 8 kHz.
    Khz8,
    /// 12 kHz.
    Khz12,
    /// 16 kHz.
    Khz16,
    /// 24 kHz.
    Khz24,
    /// 32 kHz.
    Khz32,
    /// 44.1 kHz.
    Khz44_1,
    /// 48 kHz.
    Khz48,
    /// 96 kHz.
    Khz96,
    /// 192 kHz.
    Khz192,
}

impl SampleRate {
    /// The declared rate in samples per second.
    pub open spec fn samples_per_second(self) -> u32 {
        match self {
            SampleRate::Khz8 => 8_000,
            SampleRate::Khz12 => 12_000,
            SampleRate::Khz16 => 16_000,
            SampleRate::Khz24 => 24_000,
            SampleRate::Khz32 => 32_000,
            SampleRate::Khz44_1 => 44_100,
            SampleRate::Khz48 => 48_000,
            SampleRate::Khz96 => 96_000,
            SampleRate::Khz192 => 192_000,
        }
    }

    /// The wire type that declares this rate.
    pub open spec fn pcm_type(self) -> KnownWireType {
        match self {
            SampleRate::Khz8 => KnownWireType::Pcm8Khz,
            SampleRate::Khz12 => KnownWireType::Pcm12Khz,
            SampleRate::Khz16 => KnownWireType::Pcm16Khz,
            SampleRate::Khz24 => KnownWireType::Pcm24Khz,
            SampleRate::Khz32 => KnownWireType::Pcm32Khz,
            SampleRate::Khz44_1 => KnownWireType::Pcm44Khz,
            SampleRate::Khz48 => KnownWireType::Pcm48Khz,
            SampleRate::Khz96 => KnownWireType::Pcm96Khz,
            SampleRate::Khz192 => KnownWireType::Pcm192Khz,
        }
    }

    /// Returns the numeric declared rate.
    #[must_use]
    pub fn hertz(self) -> (hertz: u32)
        ensures
            hertz == self.samples_per_second(),
    {
        match self {
            SampleRate::Khz8 => 8_000,
            SampleRate::Khz12 => 12_000,
            SampleRate::Khz16 => 16_000,
            SampleRate::Khz24 => 24_000,
            SampleRate::Khz32 => 32_000,
            SampleRate::Khz44_1 => 44_100,
            SampleRate::Khz48 => 48_000,
            SampleRate::Khz96 => 96_000,
            SampleRate::Khz192 => 192_000,
        }
    }
}

/// The rate that a PCM wire type declares; other types declare none.
pub open spec fn declared_rate(known: KnownWireType) -> Option<SampleRate> {
    match known {
        KnownWireType::Pcm8Khz => Some(SampleRate::Khz8),
        KnownWireType::Pcm12Khz => Some(SampleRate::Khz12),
        KnownWireType::Pcm16Khz => Some(SampleRate::Khz16),
        KnownWireType::Pcm24Khz => Some(SampleRate::Khz24),
        KnownWireType::Pcm32Khz => Some(SampleRate::Khz32),
        KnownWireType::Pcm44Khz => Some(SampleRate::Khz44_1),
        KnownWireType::Pcm48Khz => Some(SampleRate::Khz48),
        KnownWireType::Pcm96Khz => Some(SampleRate::Khz96),
        KnownWireType::Pcm192Khz => Some(SampleRate::Khz192),
        _ => None,
    }
}

/// Failure to create a PCM payload.
#[derive(Clone, Copy, Debug, PartialEq, Eq, Structural)]
pub enum AudioPayloadError {
    /// PCM16LE samples take two bytes each, so the length must be even.
    OddLength,
    /// Payload exceeds the u16 wire-length limit.
    PayloadTooLong,
}

/// A borrowed, even-length PCM16LE byte payload that fits one frame.
#[derive(Clone, Copy, Debug, PartialEq, Eq)]
pub struct AudioPayload<'a>(&'a [u8]);

impl<'a> View for AudioPayload<'a> {
    type V = Seq<u8>;

    closed spec fn view(&self) -> Seq<u8> {
        self.0@
    }
}

impl<'a> AudioPayload<'a> {
    #[verifier::type_invariant]
    spec fn whole_samples(self) -> bool {
        self@.len() % 2 == 0 && self@.len() <= 65_535
    }

    /// Validates a PCM16LE payload for one frame.
    pub fn new(bytes: &'a [u8]) -> (result: Result<AudioPayload<'a>, AudioPayloadError>)
        ensures
            match result {
                Ok(payload) => {
                    &&& payload@ == bytes@
                    &&& bytes@.len() % 2 == 0
                    &&& bytes@.len() <= 65_535
                },
                Err(AudioPayloadError::PayloadTooLong) => bytes@.len() > 65_535,
                Err(AudioPayloadError::OddLength) => bytes@.len() <= 65_535 && bytes@.len() % 2 != 0,
            },
    {
        if bytes.len() > 65_535 {
            return Err(AudioPayloadError::PayloadTooLong);
        }
        if bytes.len() % 2 != 0 {
            return Err(AudioPayloadError::OddLength);
        }
        Ok(AudioPayload(bytes))
    }

    /// Returns original PCM bytes.
    #[must_use]
    pub fn bytes(self) -> (bytes: &'a [u8])
        ensures
            bytes@ == self@,
            bytes@.len() % 2 == 0,
            bytes@.len() <= 65_535,
    {
        proof {
            use_type_invariant(self);
        }
        self.0
    }
}

/// The nine PCM types stand in the order of their rates: a type declares the rate that it
/// travels under, and a greater rate has a greater byte.
pub proof fn law_rates_are_ordered_by_their_bytes(one: SampleRate, other: SampleRate)
    ensures
        0x10 <= one.pcm_type().byte() <= 0x18,
        declared_rate(one.pcm_type()) == Some(one),
        one.samples_per_second() < other.samples_per_second() <==> one.pcm_type().byte()
            < other.pcm_type().byte(),
        one.samples_per_second() == other.samples_per_second() <==> one == other,
{
}

/// The types that declare no rate are the control types and the peer error.
pub proof fn law_only_pcm_types_declare_rates(known: KnownWireType)
    ensures
        declared_rate(known) is Some <==> 0x10 <= known.byte() <= 0x18,
        declared_rate(known) is Some ==> declared_rate(known)->0.pcm_type() == known,
{
}

/// The rates are multiples of one another as their names say, from eight thousand
/// samples in a second on.
pub proof fn law_rates_are_their_names()
    ensures
        SampleRate::Khz8.samples_per_second() == 8 * 1000,
        2 * SampleRate::Khz12.samples_per_second() == 3 * SampleRate::Khz8.samples_per_second(),
        SampleRate::Khz16.samples_per_second() == 2 * SampleRate::Khz8.samples_per_second(),
        SampleRate::Khz24.samples_per_second() == 2 * SampleRate::Khz12.samples_per_second(),
        SampleRate::Khz32.samples_per_second() == 2 * SampleRate::Khz16.samples_per_second(),
        10 * SampleRate::Khz44_1.samples_per_second() == 441 * 1000,
        SampleRate::Khz48.samples_per_second() == 2 * SampleRate::Khz24.samples_per_second(),
        SampleRate::Khz96.samples_per_second() == 2 * SampleRate::Khz48.samples_per_second(),
        SampleRate::Khz192.samples_per_second() == 2 * SampleRate::Khz96.samples_per_second(),
{
}

} // verus!
