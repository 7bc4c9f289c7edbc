//! Read-back, fragmentation and messages of the codec on concrete values.
use phonowire::wire_type::KnownWireType;
use phonowire::{
    encode, encode_raw, DecodeError, DecodeOutcome, Decoder, EncodeError, FinishError,
    IncomingProfile, IncomingSessionError, RawDecoder, RawEnvelope, RawEnvelopeError, SampleRate,
    TypedMessage, TypedMessageError, UnknownWireType, UnknownWireTypeError, WireType,
};

fn raw(kind: u8, payload: &[u8]) -> RawEnvelope<'_> {
    RawEnvelope::new(WireType::new(kind), payload).expect("short payload")
}

#[test]
fn encoded_messages_are_read_back_in_order_under_every_cut() {
    let bodies: [(u8, &[u8]); 6] = [
        (WireType::UUID, &[7; 16]),
        (0x18, &[1, 2, 3, 4]),
        (WireType::DTMF, b"#"),
        (WireType::ERROR, &[9]),
        (0x42, &[]),
        (WireType::TERMINATE, &[]),
    ];
    let mut stream = Vec::new();
    for (kind, body) in bodies {
        let message = raw(kind, body).typed().expect("valid message");
        let mut typed = [0_u8; 32];
        let mut plain = [0_u8; 32];
        let length = encode(message, &mut typed).expect("fits");
        assert_eq!(encode_raw(raw(kind, body), &mut plain), Ok(length));
        assert_eq!(typed, plain);
        stream.extend_from_slice(&typed[..length]);
    }
    for cut in 0..=stream.len() {
        let mut scratch = [0_u8; 16];
        let mut decoder = Decoder::new(&mut scratch);
        let mut seen = 0;
        for part in [&stream[..cut], &stream[cut..]] {
            let mut input = part;
            loop {
                match decoder.feed(&mut input) {
                    Ok(DecodeOutcome::Frame(message)) => {
                        let (kind, body) = bodies[seen];
                        assert_eq!(Ok(message), raw(kind, body).typed());
                        seen += 1;
                    }
                    Ok(DecodeOutcome::NeedInput) => break,
                    Err(error) => panic!("valid stream refused: {error:?}"),
                }
            }
            assert!(input.is_empty());
        }
        assert_eq!(seen, bodies.len());
        assert_eq!(decoder.finish(), Ok(()));
    }
}

#[test]
fn classification_and_wire_bytes_are_inverse() {
    let known = [
        (0x00, KnownWireType::Terminate),
        (0x01, KnownWireType::Uuid),
        (0x03, KnownWireType::Dtmf),
        (0x10, KnownWireType::Pcm8Khz),
        (0x11, KnownWireType::Pcm12Khz),
        (0x12, KnownWireType::Pcm16Khz),
        (0x13, KnownWireType::Pcm24Khz),
        (0x14, KnownWireType::Pcm32Khz),
        (0x15, KnownWireType::Pcm44Khz),
        (0x16, KnownWireType::Pcm48Khz),
        (0x17, KnownWireType::Pcm96Khz),
        (0x18, KnownWireType::Pcm192Khz),
        (0xff, KnownWireType::Error),
    ];
    for byte in 0_u8..=u8::MAX {
        let expected = known
            .iter()
            .find(|(value, _)| *value == byte)
            .map(|(_, kind)| *kind);
        assert_eq!(WireType::new(byte).known(), expected);
        assert_eq!(WireType::new(byte).value(), byte);
    }
    assert_eq!(
        UnknownWireType::new(0xff),
        Err(UnknownWireTypeError::KnownType)
    );
    assert_eq!(
        RawEnvelope::new(WireType::new(2), &vec![0; 65_536]),
        Err(RawEnvelopeError::PayloadTooLong)
    );
}

#[test]
fn profiles_accept_exactly_their_rates() {
    let narrow = IncomingProfile::from_rates(&[SampleRate::Khz48, SampleRate::Khz8]);
    assert!(narrow.accepts(SampleRate::Khz8));
    assert!(narrow.accepts(SampleRate::Khz48));
    assert!(!narrow.accepts(SampleRate::Khz96));
    assert!(!IncomingProfile::from_rates(&[]).accepts(SampleRate::Khz8));
    assert!(IncomingProfile::default().accepts(SampleRate::Khz192));
}

#[test]
fn a_failed_decoder_absorbs_without_consuming() {
    let mut scratch = [0_u8; 1];
    let mut decoder = RawDecoder::new(&mut scratch);
    let mut input: &[u8] = &[9, 0, 2, 5, 5];
    assert!(decoder.feed(&mut input).is_err());
    for _ in 0..3 {
        assert_eq!(decoder.feed(&mut input), Err(DecodeError::Failed));
        assert_eq!(input, &[5, 5]);
    }
    assert_eq!(decoder.finish(), Err(FinishError::Failed));
}

#[test]
fn failures_tell_their_messages() {
    assert_eq!(
        DecodeError::ResourceLimit {
            required: 9,
            capacity: 4
        }
        .message(),
        "scratch capacity 4 is below required body length 9"
    );
    assert_eq!(
        DecodeError::InvalidLength(TypedMessageError::UuidLength).message(),
        format!(
            "invalid declared message length: {}",
            TypedMessageError::UuidLength.message()
        )
    );
    assert_eq!(
        DecodeError::InvalidContent(TypedMessageError::DtmfNotAscii).message(),
        "invalid message content: DTMF byte must be ASCII"
    );
    assert_eq!(DecodeError::Failed.message(), "decoder is in a failed state");
    assert_eq!(
        FinishError::TruncatedHeader {
            expected: 3,
            received: 2
        }
        .message(),
        "header ended after 2 of 3 bytes"
    );
    assert_eq!(
        FinishError::TruncatedPayload {
            expected: 30,
            received: 20
        }
        .message(),
        "payload ended after 20 of 30 bytes"
    );
    assert_eq!(FinishError::Failed.message(), "decoder is in a failed state");
    assert_eq!(
        EncodeError::OutputTooShort {
            required: 7,
            available: 0
        }
        .message(),
        "output has 0 bytes but frame requires 7"
    );
    assert_eq!(
        IncomingSessionError::MissingUuid.message(),
        "audio or DTMF arrived before UUID"
    );
    assert_eq!(
        IncomingSessionError::AfterEnd.message(),
        "message arrived after the session ended"
    );
    assert!(matches!(
        raw(0x00, &[]).typed(),
        Ok(TypedMessage::Terminate)
    ));
}

#[test]
fn refused_headers_and_failed_decoders_leave_the_scratch_alone() {
    let mut scratch = [9_u8; 4];
    let mut decoder = Decoder::new(&mut scratch);
    let mut input: &[u8] = &[0x01, 0, 5, 1, 2, 3];
    assert!(matches!(
        decoder.feed(&mut input),
        Err(DecodeError::InvalidLength(_))
    ));
    assert_eq!(input, [1, 2, 3]);
    assert_eq!(decoder.feed(&mut input), Err(DecodeError::Failed));
    assert_eq!(scratch, [9; 4]);
    let mut raw = RawDecoder::new(&mut scratch);
    let mut input: &[u8] = &[0x10, 0, 5, 1, 2];
    assert!(matches!(
        raw.feed(&mut input),
        Err(DecodeError::ResourceLimit {
            required: 5,
            capacity: 4
        })
    ));
    assert_eq!(scratch, [9; 4]);
    let mut raw = RawDecoder::new(&mut scratch);
    let mut input: &[u8] = &[0x10, 0, 2, 1, 2];
    assert!(raw.feed(&mut input).is_ok());
    assert_eq!(scratch, [1, 2, 9, 9]);
}
