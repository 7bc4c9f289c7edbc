//! Bounded encoding of one wire frame.
use vstd::prelude::*;

use crate::audio::SampleRate;
use crate::decoder::{
    behind, declared_length, drain_raw, drain_typed, finish_of, front, stored, typed_front, Assembly,
    DecodeError, FinishError, Front, TypedFront,
};
use crate::envelope::{length_violation, message_of, RawEnvelope, HEADER_BYTES};
use crate::error::TypedMessageError;
use crate::message::{Message, TypedMessage};
use crate::wire_type::{law_assigned_bytes, KnownWireType, WireType};

verus! {

/// Failure to encode a frame into the supplied destination.
#[derive(Clone, Copy, Debug, PartialEq, Eq, Structural)]
pub enum EncodeError {
    /// The destination cannot hold the complete frame and was not changed.
    OutputTooShort {
        /// Bytes required for the complete frame.
        required: usize,
        /// Bytes available in the destination.
        available: usize,
    },
}

/// The wire frame of a type byte and a body: type, big-endian length, body.
pub open spec fn frame(byte: u8, body: Seq<u8>) -> Seq<u8> {
    seq![byte, (body.len() / 256) as u8, (body.len() % 256) as u8] + body
}

/// The type byte that a message travels under.
pub open spec fn message_byte(message: Message) -> u8 {
    match message {
        Message::Terminate => KnownWireType::Terminate.byte(),
        Message::Uuid(_) => KnownWireType::Uuid.byte(),
        Message::Dtmf(_) => KnownWireType::Dtmf.byte(),
        Message::Audio(rate, _) => rate.pcm_type().byte(),
        Message::Error(_) => KnownWireType::Error.byte(),
        Message::Unknown(byte, _) => byte,
    }
}

/// The body that a message travels in.
pub open spec fn message_body(message: Message) -> Seq<u8> {
    match message {
        Message::Terminate => Seq::empty(),
        Message::Uuid(bytes) => bytes,
        Message::Dtmf(value) => seq![value],
        Message::Audio(_, pcm) => pcm,
        Message::Error(bytes) => bytes,
        Message::Unknown(_, bytes) => bytes,
    }
}

/// The wire frame of a message.
pub open spec fn message_frame(message: Message) -> Seq<u8> {
    frame(message_byte(message), message_body(message))
}

/// What encoding a frame does to its destination.
pub open spec fn encoded(
    frame: Seq<u8>,
    before: Seq<u8>,
    after: Seq<u8>,
    result: Result<usize, EncodeError>,
) -> bool {
    if before.len() < frame.len() {
        &&& after == before
        &&& result == Err::<usize, _>(
            EncodeError::OutputTooShort {
                required: frame.len() as usize,
                available: before.len() as usize,
            },
        )
    } else {
        &&& after == frame + before.subrange(frame.len() as int, before.len() as int)
        &&& result == Ok::<_, EncodeError>(frame.len() as usize)
    }
}

/// Encodes one validated typed message and returns its exact frame length.
///
/// The destination is unchanged when it is too short, and bytes behind the frame
/// are never touched.
pub fn encode(message: TypedMessage<'_>, destination: &mut [u8]) -> (result: Result<
    usize,
    EncodeError,
>)
    ensures
        encoded(message_frame(message@), old(destination)@, final(destination)@, result),
        message@.valid(),
{
    match message {
        TypedMessage::Terminate => {
            let empty: [u8; 0] = [];
            assert(empty@ =~= message_body(message@));
            write_frame(WireType::new(WireType::TERMINATE), &empty, destination)
        },
        TypedMessage::Uuid(uuid) => {
            let bytes = uuid.bytes();
            write_frame(WireType::new(WireType::UUID), &bytes, destination)
        },
        TypedMessage::Dtmf(digit) => {
            let bytes: [u8; 1] = [digit.value()];
            assert(bytes@ =~= message_body(message@));
            write_frame(WireType::new(WireType::DTMF), &bytes, destination)
        },
        TypedMessage::Audio { rate, payload } => {
            let wire_type = match rate {
                SampleRate::Khz8 => WireType::new(0x10),
                SampleRate::Khz12 => WireType::new(0x11),
                SampleRate::Khz16 => WireType::new(0x12),
                SampleRate::Khz24 => WireType::new(0x13),
                SampleRate::Khz32 => WireType::new(0x14),
                SampleRate::Khz44_1 => WireType::new(0x15),
                SampleRate::Khz48 => WireType::new(0x16),
                SampleRate::Khz96 => WireType::new(0x17),
                SampleRate::Khz192 => WireType::new(0x18),
            };
            write_frame(wire_type, payload.bytes(), destination)
        },
        TypedMessage::Error(payload) => write_frame(
            WireType::new(WireType::ERROR),
            payload.bytes(),
            destination,
        ),
        TypedMessage::Unknown { wire_type, payload } => write_frame(
            WireType::new(wire_type.value()),
            payload.bytes(),
            destination,
        ),
    }
}

/// Encodes one raw envelope and returns its exact frame length.
///
/// The destination is unchanged when it is too short, and bytes behind the frame
/// are never touched.
pub fn encode_raw(raw: RawEnvelope<'_>, destination: &mut [u8]) -> (result: Result<
    usize,
    EncodeError,
>)
    ensures
        encoded(frame(raw.byte(), raw.body()), old(destination)@, final(destination)@, result),
        raw.body().len() <= 65_535,
{
    write_frame(raw.wire_type(), raw.payload(), destination)
}

fn write_frame(wire_type: WireType, payload: &[u8], destination: &mut [u8]) -> (result: Result<
    usize,
    EncodeError,
>)
    requires
        payload@.len() <= 65_535,
    ensures
        encoded(frame(wire_type@, payload@), old(destination)@, final(destination)@, result),
{
    let length: usize = payload.len();
    let required: usize = HEADER_BYTES + length;
    if destination.len() < required {
        return Err(
            EncodeError::OutputTooShort { required, available: destination.len() },
        );
    }
    let ghost start = destination@;
    let ghost whole = frame(wire_type@, payload@);
    destination[0] = wire_type.value();
    destination[1] = (length / 256) as u8;
    destination[2] = (length % 256) as u8;
    let mut i: usize = 0;
    while i < length
        invariant
            i <= length,
            length == payload@.len(),
            length <= 65_535,
            destination@.len() == start.len(),
            start.len() >= 3 + length,
            whole == frame(wire_type@, payload@),
            destination@ =~= whole.subrange(0, 3 + i) + start.subrange(3 + i, start.len() as int),
        decreases length - i,
    {
        destination[HEADER_BYTES + i] = payload[i];
        i = i + 1;
    }
    assert(whole.subrange(0, 3 + length) =~= whole);
    Ok(required)
}

/// A frame at the front of the input is read back whole, and nothing behind it
/// is touched.
pub(crate) proof fn lemma_frame_at_front(byte: u8, body: Seq<u8>, more: Seq<u8>, capacity: usize, strict: bool)
    requires
        body.len() <= capacity,
        body.len() <= 65_535,
        strict ==> length_violation(byte, body.len()) is None,
    ensures
        front(frame(byte, body) + more, capacity, strict) == Front::Frame(byte, body),
        behind(frame(byte, body) + more, capacity, strict) == more,
{
    let bytes = frame(byte, body) + more;
    assert(declared_length(bytes) == body.len());
    assert(bytes.subrange(3, 3 + body.len() as int) =~= body);
    assert(bytes.subrange(3 + body.len() as int, bytes.len() as int) =~= more);
}

/// A valid message survives typed conversion of its own frame.
pub proof fn law_message_of_its_frame(message: Message)
    requires
        message.valid(),
    ensures
        message_of(message_byte(message), message_body(message)) == Ok::<_, TypedMessageError>(
            message,
        ),
        message_body(message).len() <= 65_535,
{
    match message {
        Message::Terminate => {},
        Message::Dtmf(_) => {},
        _ => {},
    }
}

/// The frames of some messages, one behind the other.
pub open spec fn message_stream(messages: Seq<Message>) -> Seq<u8>
    decreases messages.len(),
{
    if messages.len() == 0 {
        Seq::empty()
    } else {
        message_frame(messages[0]) + message_stream(messages.drop_first())
    }
}

/// Decoding gives back what was encoded: a typed decoder with room for every
/// body reads a stream of encoded messages as exactly those messages, in order,
/// and ends at a frame boundary.
pub proof fn law_decode_reads_back_encode(messages: Seq<Message>, capacity: usize)
    requires
        forall|i: int|
            0 <= i < messages.len() ==> (#[trigger] messages[i]).valid() && message_body(
                messages[i],
            ).len() <= capacity,
    ensures
        drain_typed(message_stream(messages), capacity) == (
            messages.map_values(|message: Message| TypedFront::Message(message)),
            Assembly::Pending(Seq::<u8>::empty()),
        ),
    decreases messages.len(),
{
    let expected = messages.map_values(|message: Message| TypedFront::Message(message));
    if messages.len() == 0 {
        assert(expected =~= Seq::<TypedFront>::empty());
        assert(typed_front(Seq::<u8>::empty(), capacity) is Incomplete);
    } else {
        let first = messages[0];
        let rest = messages.drop_first();
        law_message_of_its_frame(first);
        assert(length_violation(message_byte(first), message_body(first).len()) is None);
        lemma_frame_at_front(
            message_byte(first),
            message_body(first),
            message_stream(rest),
            capacity,
            true,
        );
        assert forall|i: int| 0 <= i < rest.len() implies (#[trigger] rest[i]).valid()
            && message_body(rest[i]).len() <= capacity by {
            assert(rest[i] == messages[i + 1]);
        }
        law_decode_reads_back_encode(rest, capacity);
        assert(expected =~= seq![TypedFront::Message(first)] + rest.map_values(
            |message: Message| TypedFront::Message(message),
        ));
    }
}

/// The frames of some envelopes (type byte and body), one behind the other.
pub open spec fn raw_stream(envelopes: Seq<(u8, Seq<u8>)>) -> Seq<u8>
    decreases envelopes.len(),
{
    if envelopes.len() == 0 {
        Seq::empty()
    } else {
        frame(envelopes[0].0, envelopes[0].1) + raw_stream(envelopes.drop_first())
    }
}

/// A raw decoder with room for every body reads a stream of encoded envelopes
/// back as exactly those envelopes, whatever their types and contents.
pub proof fn law_raw_decode_reads_back_encode(envelopes: Seq<(u8, Seq<u8>)>, capacity: usize)
    requires
        forall|i: int|
            0 <= i < envelopes.len() ==> (#[trigger] envelopes[i]).1.len() <= capacity
                && envelopes[i].1.len() <= 65_535,
    ensures
        drain_raw(raw_stream(envelopes), capacity) == (
            envelopes.map_values(|raw: (u8, Seq<u8>)| Front::Frame(raw.0, raw.1)),
            Assembly::Pending(Seq::<u8>::empty()),
        ),
    decreases envelopes.len(),
{
    let expected = envelopes.map_values(|raw: (u8, Seq<u8>)| Front::Frame(raw.0, raw.1));
    if envelopes.len() == 0 {
        assert(expected =~= Seq::<Front>::empty());
    } else {
        let first = envelopes[0];
        let rest = envelopes.drop_first();
        lemma_frame_at_front(first.0, first.1, raw_stream(rest), capacity, false);
        assert forall|i: int| 0 <= i < rest.len() implies (#[trigger] rest[i]).1.len() <= capacity
            && rest[i].1.len() <= 65_535 by {
            assert(rest[i] == envelopes[i + 1]);
        }
        law_raw_decode_reads_back_encode(rest, capacity);
        assert(expected =~= seq![Front::Frame(first.0, first.1)] + rest.map_values(
            |raw: (u8, Seq<u8>)| Front::Frame(raw.0, raw.1),
        ));
    }
}

/// Conversion loses nothing: the message of a frame travels under the frame's own type
/// byte and in its own body.
pub proof fn law_conversion_keeps_type_and_body(byte: u8, body: Seq<u8>)
    ensures
        message_of(byte, body) matches Ok(message) ==> {
            &&& message_byte(message) == byte
            &&& message_body(message) == body
            &&& body.len() <= 65_535 ==> message.valid()
        },
{
    law_assigned_bytes(byte);
    if let Ok(message) = message_of(byte, body) {
        assert(message_body(message) =~= body);
    }
}

/// Whether a frame is converted depends on its length and, for a key, on its byte being
/// ASCII, and a refusal says which rule it broke. Peer errors and unassigned types are
/// never refused.
pub proof fn law_refused_frames_give_reason(byte: u8, body: Seq<u8>)
    ensures
        match message_of(byte, body) {
            Err(TypedMessageError::TerminatePayload) => byte == 0 && body.len() > 0,
            Err(TypedMessageError::UuidLength) => byte == 1 && body.len() != 16,
            Err(TypedMessageError::DtmfLength) => byte == 3 && body.len() != 1,
            Err(TypedMessageError::DtmfNotAscii) => byte == 3 && body.len() == 1 && body[0] > 127,
            Err(TypedMessageError::OddPcmLength) => 0x10 <= byte <= 0x18 && body.len() % 2 == 1,
            Err(TypedMessageError::UnknownTypeClassification) => false,
            Ok(message) => {
                &&& message is Terminate <==> byte == 0
                &&& message is Uuid <==> byte == 1
                &&& message is Dtmf <==> byte == 3
                &&& message is Audio <==> 0x10 <= byte <= 0x18
                &&& message is Error <==> byte == 0xff
                &&& byte == 0 ==> body.len() == 0
                &&& byte == 1 ==> body.len() == 16
                &&& byte == 3 ==> body.len() == 1 && body[0] <= 127
                &&& 0x10 <= byte <= 0x18 ==> body.len() % 2 == 0
            },
        },
{
    law_assigned_bytes(byte);
}

/// A declared length is refused exactly where no body of that length could be
/// converted.
pub proof fn law_declared_lengths_are_refused_for_every_body(byte: u8, body: Seq<u8>)
    ensures
        length_violation(byte, body.len()) matches Some(error) ==> message_of(byte, body) == Err::<
            Message,
            _,
        >(error),
        length_violation(byte, body.len()) is None ==> (message_of(byte, body) is Ok
            || message_of(byte, body) == Err::<Message, _>(TypedMessageError::DtmfNotAscii)),
        length_violation(byte, body.len()) is None <==> {
            &&& byte == 0 ==> body.len() == 0
            &&& byte == 1 ==> body.len() == 16
            &&& byte == 3 ==> body.len() == 1
            &&& 0x10 <= byte <= 0x18 ==> body.len() % 2 == 0
        },
{
    law_assigned_bytes(byte);
}

/// A frame begins with its type and the length of its body, high byte first.
pub proof fn law_frames_tell_their_length(byte: u8, body: Seq<u8>)
    requires
        body.len() <= 65_535,
    ensures
        frame(byte, body).len() == body.len() + 3,
        frame(byte, body)[0] == byte,
        frame(byte, body)[1] * 256 + frame(byte, body)[2] == body.len(),
        frame(byte, body).skip(3) == body,
{
    assert(frame(byte, body).skip(3) =~= body);
}

/// What the front of an input is found to be is cut from it: a frame is its type, its
/// length and its body, and what is left is what stands behind it. A refusal for want
/// of room tells the declared length, and stops behind the header.
pub proof fn law_fronts_are_cut_from_the_input(bytes: Seq<u8>, capacity: usize, strict: bool)
    ensures
        ({
            let declared = bytes[1] * 256 + bytes[2];
            match front(bytes, capacity, strict) {
                Front::Frame(byte, body) => {
                    &&& bytes == frame(byte, body) + behind(bytes, capacity, strict)
                    &&& body.len() == declared
                    &&& declared <= capacity
                },
                Front::Incomplete => {
                    &&& behind(bytes, capacity, strict).len() == 0
                    &&& bytes.len() < 3 || (declared <= capacity && bytes.len() < 3 + declared)
                },
                Front::Refused(DecodeError::ResourceLimit { required, capacity: room }) => {
                    &&& bytes.len() >= 3
                    &&& required == declared
                    &&& room == capacity
                    &&& required > room
                    &&& behind(bytes, capacity, strict) == bytes.skip(3)
                },
                Front::Refused(DecodeError::InvalidLength(_)) => {
                    &&& strict
                    &&& bytes.len() >= 3
                    &&& {
                        ||| bytes[0] == 0 && declared != 0
                        ||| bytes[0] == 1 && declared != 16
                        ||| bytes[0] == 3 && declared != 1
                        ||| 0x10 <= bytes[0] <= 0x18 && declared % 2 == 1
                    }
                    &&& behind(bytes, capacity, strict) == bytes.skip(3)
                },
                Front::Refused(_) => false,
            }
        }),
{
    match front(bytes, capacity, strict) {
        Front::Frame(byte, body) => {
            assert(bytes =~= frame(byte, body) + behind(bytes, capacity, strict));
        },
        Front::Refused(_) => {
            law_assigned_bytes(bytes[0]);
            assert(behind(bytes, capacity, strict) =~= bytes.skip(3));
        },
        Front::Incomplete => {},
    }
}

/// The wire bytes of some frames, one behind the other.
pub open spec fn wire_of(yielded: Seq<Front>) -> Seq<u8>
    decreases yielded.len(),
{
    if yielded.len() == 0 {
        Seq::empty()
    } else {
        match yielded[0] {
            Front::Frame(byte, body) => frame(byte, body) + wire_of(yielded.drop_first()),
            _ => wire_of(yielded.drop_first()),
        }
    }
}

/// Decoding loses no byte: the frames that a raw decoder yields, encoded again, and the
/// bytes that it remembers are the input.
pub proof fn law_decoding_loses_no_byte(bytes: Seq<u8>, capacity: usize)
    ensures
        drain_raw(bytes, capacity) matches (yielded, Assembly::Pending(pending)) ==> wire_of(
            yielded,
        ) + pending == bytes,
        drain_raw(bytes, capacity) matches (yielded, Assembly::Failed) ==> wire_of(
            yielded,
        ).is_prefix_of(bytes),
    decreases bytes.len(),
{
    let (yielded, last) = drain_raw(bytes, capacity);
    law_fronts_are_cut_from_the_input(bytes, capacity, false);
    match front(bytes, capacity, false) {
        Front::Incomplete => {
            assert(Seq::<u8>::empty() + bytes =~= bytes);
        },
        Front::Frame(byte, body) => {
            let rest = behind(bytes, capacity, false);
            law_decoding_loses_no_byte(rest, capacity);
            let more = drain_raw(rest, capacity).0;
            assert(yielded.drop_first() =~= more);
            assert(wire_of(yielded) == frame(byte, body) + wire_of(more));
            if let Assembly::Pending(pending) = last {
                assert(wire_of(yielded) + pending =~= frame(byte, body) + (wire_of(more)
                    + pending));
            } else {
                assert(frame(byte, body) + rest =~= bytes);
                assert(wire_of(yielded).is_prefix_of(bytes)) by {
                    assert forall|i: int| 0 <= i < wire_of(yielded).len() implies #[trigger] wire_of(
                        yielded,
                    )[i] == bytes[i] by {
                        if i >= frame(byte, body).len() {
                            assert(wire_of(more)[i - frame(byte, body).len()] == rest[i - frame(
                                byte,
                                body,
                            ).len()]);
                        }
                    }
                }
            }
        },
        Front::Refused(_) => {
            assert(yielded.drop_first() =~= Seq::<Front>::empty());
            assert(yielded[0] is Refused);
            assert(wire_of(Seq::<Front>::empty()) =~= Seq::<u8>::empty());
            assert(wire_of(yielded) =~= Seq::<u8>::empty());
        },
    }
}

/// A truncation tells what is missing: an input that ends within a header or a body
/// would have gone on with exactly as many bytes as were expected and not received.
pub proof fn law_truncations_tell_what_is_missing(
    pending: Seq<u8>,
    missing: Seq<u8>,
    capacity: usize,
)
    requires
        front(pending, capacity, false) is Incomplete,
        capacity <= 65_535,
    ensures
        match finish_of(Assembly::Pending(pending)) {
            Ok(()) => pending.len() == 0,
            Err(FinishError::TruncatedHeader { expected, received }) => {
                &&& 0 < pending.len() < 3
                &&& received == pending.len()
                &&& expected == 3
            },
            Err(FinishError::TruncatedPayload { expected, received }) => {
                &&& pending.len() >= 3
                &&& received == pending.len() - 3
                &&& received < expected
                &&& missing.len() == expected - received ==> {
                    &&& front(pending + missing, capacity, false) is Frame
                    &&& behind(pending + missing, capacity, false).len() == 0
                }
            },
            Err(FinishError::Failed) => false,
        },
        finish_of(Assembly::Failed) == Err::<(), _>(FinishError::Failed),
{
    if pending.len() >= 3 {
        assert(declared_length(pending + missing) == declared_length(pending));
    }
}

/// Feeding touches no storage behind the body: what stood there stays, and the whole of
/// it where nothing of a body was taken.
pub proof fn law_storage_behind_the_body_stays(scratch: Seq<u8>, bytes: Seq<u8>, strict: bool)
    requires
        scratch.len() <= usize::MAX,
    ensures
        stored(scratch, bytes, strict).len() == scratch.len(),
        forall|i: int|
            bytes.len() - 3 <= i < scratch.len() && i >= 0 ==> #[trigger] stored(
                scratch,
                bytes,
                strict,
            )[i] == scratch[i],
        front(bytes, scratch.len() as usize, strict) matches Front::Frame(_, body) ==> stored(
            scratch,
            bytes,
            strict,
        ).take(body.len() as int) == body,
        front(bytes, scratch.len() as usize, strict) is Refused ==> stored(scratch, bytes, strict)
            == scratch,
        front(bytes, scratch.len() as usize, strict) is Incomplete && bytes.len() >= 3 ==> stored(
            scratch,
            bytes,
            strict,
        ).take(bytes.len() - 3) == bytes.skip(3),
{
    let after = stored(scratch, bytes, strict);
    match front(bytes, scratch.len() as usize, strict) {
        Front::Frame(_, body) => {
            assert(after.take(body.len() as int) =~= body);
        },
        Front::Incomplete => {
            if bytes.len() >= 3 {
                assert(after.take(bytes.len() - 3) =~= bytes.skip(3));
            }
        },
        Front::Refused(_) => {},
    }
}

/// Encoding writes the frame at the beginning of its destination and nothing behind it,
/// or, where the destination is too short, nothing at all, and tells both lengths.
pub proof fn law_encoding_writes_the_frame_or_nothing(
    frame: Seq<u8>,
    before: Seq<u8>,
    after: Seq<u8>,
    result: Result<usize, EncodeError>,
)
    requires
        encoded(frame, before, after, result),
        frame.len() <= usize::MAX,
        before.len() <= usize::MAX,
    ensures
        after.len() == before.len(),
        result is Ok <==> frame.len() <= before.len(),
        result matches Ok(length) ==> length == frame.len() && after.take(length as int) == frame
            && after.skip(length as int) == before.skip(length as int),
        result matches Err(EncodeError::OutputTooShort { required, available }) ==> after == before
            && required == frame.len() && available == before.len(),
{
    if let Ok(length) = result {
        assert(after.take(length as int) =~= frame);
        assert(after.skip(length as int) =~= before.skip(length as int));
    }
}

} // verus!
