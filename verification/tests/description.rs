//! Diagnostic lines of observations.
use phonowire::description::{describe, description};
use phonowire::{
    BudgetError, ByteBudget, ConnectionId, DecodeError, Dtmf, EndReason, FinishError,
    IncomingSessionError, Record, RecordKind, SampleRate, TypedMessageError, UnknownWireType, Uuid,
    WireOffset,
};
use std::time::Instant;

fn line(offset: u64, kind: RecordKind) -> String {
    let id = ConnectionId::new(9, 3);
    let record = Record {
        connection: id,
        offset: WireOffset::new(offset),
        observed_at: Instant::now(),
        kind,
    };
    let head = format!("instance=9 connection=3 offset={offset} observed=T ");
    let text = describe(id, &record, "T", "\"gone\"");
    assert!(text.starts_with(&head));
    let tail = text[head.len()..].to_string();
    let whole = description(id, &record);
    assert!(whole.starts_with(&format!("instance=9 connection=3 offset={offset} observed=")));
    assert!(whole.contains(&format!("{:?}", record.observed_at)));
    if !tail.contains("transport") {
        assert!(whole.ends_with(&tail));
    }
    tail
}

fn ended(uuid: Option<Uuid>, reason: EndReason) -> String {
    line(1, RecordKind::Ended { uuid, reason })
}

const UUID: [u8; 16] = [0, 1, 2, 3, 4, 5, 6, 7, 8, 9, 10, 11, 12, 13, 14, 255];

#[test]
fn contents_have_their_forms() {
    let mut budget = ByteBudget::new(64);
    let uuid = Uuid::new(UUID);
    let hex = format!("{:02x?}", UUID);
    assert_eq!(
        line(
            0,
            RecordKind::Connected {
                peer: "[::1]:7".to_string()
            }
        ),
        "connected peer=[::1]:7\n"
    );
    let bytes = budget.try_copy(&[0; 12]).ok().expect("bytes");
    assert_eq!(line(5, RecordKind::Wire { bytes }), "wire bytes=12\n");
    assert_eq!(
        line(u64::MAX, RecordKind::Started { uuid }),
        format!("started uuid={hex}\n")
    );
    let bytes = budget.try_copy(&[]).ok().expect("bytes");
    assert_eq!(
        line(
            9,
            RecordKind::Audio {
                uuid,
                rate: SampleRate::Khz44_1,
                bytes
            }
        ),
        format!("audio uuid={hex} rate=Khz44_1 bytes=0\n")
    );
}

#[test]
fn every_ascii_digit_is_quoted_as_a_character() {
    for value in 0_u8..128 {
        let digit = Dtmf::new(value).expect("ASCII");
        let uuid = Uuid::new(UUID);
        assert_eq!(
            line(4, RecordKind::Dtmf { uuid, digit }),
            format!("dtmf uuid={:02x?} digit={:?}\n", UUID, char::from(value))
        );
    }
}

#[test]
fn terminal_results_have_their_forms() {
    let uuid = Some(Uuid::new(UUID));
    let error = DecodeError::ResourceLimit {
        required: 70,
        capacity: 64,
    };
    assert_eq!(
        ended(uuid, EndReason::Decode(error)),
        format!("ended uuid={uuid:?} reason=decode detail={error:?}\n")
    );
    for error in [
        DecodeError::InvalidLength(TypedMessageError::OddPcmLength),
        DecodeError::InvalidContent(TypedMessageError::DtmfNotAscii),
        DecodeError::Failed,
    ] {
        assert_eq!(
            ended(None, EndReason::Decode(error)),
            format!("ended uuid=None reason=decode detail={error:?}\n")
        );
    }
    for error in [
        FinishError::TruncatedHeader {
            expected: 3,
            received: 1,
        },
        FinishError::TruncatedPayload {
            expected: 10,
            received: 0,
        },
        FinishError::Failed,
    ] {
        assert_eq!(
            ended(None, EndReason::Truncated(error)),
            format!("ended uuid=None reason=truncated detail={error:?}\n")
        );
    }
    for error in [
        TypedMessageError::TerminatePayload,
        TypedMessageError::UuidLength,
        TypedMessageError::DtmfLength,
        TypedMessageError::DtmfNotAscii,
        TypedMessageError::OddPcmLength,
        TypedMessageError::UnknownTypeClassification,
    ] {
        assert_eq!(
            ended(None, EndReason::InvalidMessage(error)),
            format!("ended uuid=None reason=invalid-message detail={error:?}\n")
        );
    }
    for error in [
        IncomingSessionError::MissingUuid,
        IncomingSessionError::DuplicateUuid,
        IncomingSessionError::UnsupportedRate(SampleRate::Khz192),
        IncomingSessionError::UnsupportedDigit(Dtmf::new(b'E').expect("ASCII")),
        IncomingSessionError::UnsupportedType(UnknownWireType::new(2).expect("unassigned")),
        IncomingSessionError::AfterEnd,
    ] {
        assert_eq!(
            ended(None, EndReason::Policy(error)),
            format!("ended uuid=None reason=policy detail={error:?}\n")
        );
    }
    for error in [
        BudgetError::TooLarge {
            required: 5,
            capacity: 4,
        },
        BudgetError::Full {
            required: 2,
            available: 1,
        },
    ] {
        assert_eq!(
            ended(None, EndReason::ResourceRefused(error)),
            format!("ended uuid=None reason=resource-refused detail={error:?}\n")
        );
    }
    assert_eq!(
        ended(None, EndReason::CleanEof),
        "ended uuid=None reason=clean-eof\n"
    );
    assert_eq!(
        ended(None, EndReason::Terminate),
        "ended uuid=None reason=terminate\n"
    );
    assert_eq!(
        ended(None, EndReason::OffsetExhausted),
        "ended uuid=None reason=offset-exhausted\n"
    );
    let bytes = ByteBudget::new(9).try_copy(&[1, 2]).ok().expect("bytes");
    assert_eq!(
        ended(None, EndReason::PeerError(bytes)),
        "ended uuid=None reason=peer-error bytes=2\n"
    );
    assert_eq!(
        ended(None, EndReason::Transport(std::io::Error::other("x"))),
        "ended uuid=None reason=transport detail=\"gone\"\n"
    );
}

#[test]
fn a_failed_socket_operation_is_told_quoted() {
    let id = ConnectionId::new(1, 2);
    let record = Record {
        connection: id,
        offset: WireOffset::new(0),
        observed_at: Instant::now(),
        kind: RecordKind::Ended {
            uuid: None,
            reason: EndReason::Transport(std::io::Error::other("tab\there \"now\"")),
        },
    };
    assert!(description(id, &record)
        .ends_with("reason=transport detail=\"tab\\there \\\"now\\\"\"\n"));
}
