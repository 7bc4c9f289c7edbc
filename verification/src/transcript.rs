//! What a connection has to tell its consumer, as a function of what it read.
use vstd::prelude::*;

use crate::audio::SampleRate;
use crate::decoder::{
    behind, finish_of, front, lemma_front_is_settled, Assembly, DecodeError, FinishError, Front,
};
use crate::encoder::{
    frame, law_conversion_keeps_type_and_body, law_fronts_are_cut_from_the_input,
    law_message_of_its_frame, law_refused_frames_give_reason, lemma_frame_at_front, message_body,
    message_byte, message_frame, message_stream,
};
use crate::envelope::message_of;
use crate::memory::BudgetError;
use crate::message::Message;
use crate::record::{Content, Ending, Observation};
use crate::session::{established, policy, End, Event, Phase, Rejection};

verus! {

/// What does not change during a connection.
pub struct Setting {
    /// The peer's address.
    pub peer: Seq<char>,
    /// The accepted rates.
    pub rates: Set<SampleRate>,
    /// The longest body that the decoder can assemble.
    pub capacity: usize,
    /// The greatest copy that the byte budget can ever retain.
    pub limit: usize,
}

/// Where an open connection stands between frames.
pub struct Standing {
    /// Where the session stands.
    pub phase: Phase,
    /// The bytes of the frame that is not complete yet.
    pub pending: Seq<u8>,
    /// The offset of the first of those bytes.
    pub base: int,
}

/// How the reads of a connection ended.
pub enum ReadEnd {
    /// The peer closed its side.
    Eof,
    /// A read failed.
    Failed(std::io::Error),
}

/// The refusal of a copy that no free capacity could ever serve.
pub open spec fn oversized(setting: Setting, required: nat) -> Ending {
    Ending::ResourceRefused(
        BudgetError::TooLarge { required: required as usize, capacity: setting.limit },
    )
}

/// The observation that an accepted session event makes, and the phase in which
/// the connection goes on, if it does.
pub open spec fn event_meaning(setting: Setting, phase: Phase, event: Event, offset: int) -> (
    Observation,
    Option<Phase>,
) {
    match event {
        Event::Started(uuid) => (
            Observation { offset, content: Content::Started(uuid) },
            Some(phase),
        ),
        Event::Dtmf(uuid, value) => (
            Observation { offset, content: Content::Dtmf(uuid, value) },
            Some(phase),
        ),
        Event::Audio(uuid, rate, pcm) => if pcm.len() > setting.limit {
            (
                Observation {
                    offset,
                    content: Content::Ended(Some(uuid), oversized(setting, pcm.len())),
                },
                None,
            )
        } else {
            (Observation { offset, content: Content::Audio(uuid, rate, pcm) }, Some(phase))
        },
        Event::Ended(uuid, End::Terminate) => (
            Observation { offset, content: Content::Ended(uuid, Ending::Terminate) },
            None,
        ),
        Event::Ended(uuid, End::PeerError(bytes)) => if bytes.len() > setting.limit {
            (
                Observation {
                    offset,
                    content: Content::Ended(uuid, oversized(setting, bytes.len())),
                },
                None,
            )
        } else {
            (
                Observation { offset, content: Content::Ended(uuid, Ending::PeerError(bytes)) },
                None,
            )
        },
        Event::Ended(uuid, End::EndOfInput) => (
            Observation { offset, content: Content::Ended(uuid, Ending::CleanEof) },
            None,
        ),
    }
}

/// The one observation that a complete frame makes, stamped with the offset of
/// its end, and the phase in which the connection goes on, if it does.
pub open spec fn frame_meaning(
    setting: Setting,
    phase: Phase,
    byte: u8,
    body: Seq<u8>,
    offset: int,
) -> (Observation, Option<Phase>) {
    match message_of(byte, body) {
        Err(error) => (
            Observation {
                offset,
                content: Content::Ended(established(phase), Ending::InvalidMessage(error)),
            },
            None,
        ),
        Ok(message) => match policy(phase, setting.rates, message) {
            (Err(rejection), _) => (
                Observation {
                    offset,
                    content: Content::Ended(established(phase), Ending::Policy(rejection)),
                },
                None,
            ),
            (Ok(event), next) => event_meaning(setting, next, event, offset),
        },
    }
}

/// The observations that the frames in `bytes` make, of which the first byte has
/// the offset `base`, and where the connection stands then, if it stays open.
pub open spec fn interpret(setting: Setting, phase: Phase, bytes: Seq<u8>, base: int) -> (
    Seq<Observation>,
    Option<Standing>,
)
    decreases bytes.len(),
{
    match front(bytes, setting.capacity, false) {
        Front::Incomplete => (Seq::empty(), Some(Standing { phase, pending: bytes, base })),
        Front::Refused(error) => (
            seq![
                Observation {
                    offset: base + 3,
                    content: Content::Ended(established(phase), Ending::Decode(error)),
                },
            ],
            None,
        ),
        Front::Frame(byte, body) => {
            let end = base + 3 + body.len();
            let (observation, next) = frame_meaning(setting, phase, byte, body, end);
            match next {
                None => (seq![observation], None),
                Some(then) => {
                    let (more, standing) = interpret(
                        setting,
                        then,
                        behind(bytes, setting.capacity, false),
                        end,
                    );
                    (seq![observation] + more, standing)
                },
            }
        },
    }
}

/// The bytes in some chunks.
pub open spec fn byte_count(chunks: Seq<Seq<u8>>) -> nat
    decreases chunks.len(),
{
    if chunks.len() == 0 {
        0
    } else {
        byte_count(chunks.drop_last()) + chunks.last().len()
    }
}

/// What one more chunk adds to an open connection that had read `read` bytes.
pub open spec fn chunk_course(setting: Setting, standing: Standing, read: nat, chunk: Seq<u8>) -> (
    Seq<Observation>,
    Option<Standing>,
) {
    if read + chunk.len() > u64::MAX {
        (
            seq![
                Observation {
                    offset: standing.base + standing.pending.len(),
                    content: Content::Ended(established(standing.phase), Ending::OffsetExhausted),
                },
            ],
            None,
        )
    } else if chunk.len() > setting.limit {
        (
            seq![
                Observation {
                    offset: read as int,
                    content: Content::Ended(
                        established(standing.phase),
                        oversized(setting, chunk.len()),
                    ),
                },
            ],
            None,
        )
    } else {
        let (more, then) = interpret(
            setting,
            standing.phase,
            standing.pending + chunk,
            standing.base,
        );
        (
            seq![Observation { offset: read as int, content: Content::Wire(chunk) }] + more,
            then,
        )
    }
}

/// The observations of a connection that read some chunks, in order, and where it
/// stands then, if it is open.
pub open spec fn course(setting: Setting, chunks: Seq<Seq<u8>>) -> (
    Seq<Observation>,
    Option<Standing>,
)
    decreases chunks.len(),
{
    if chunks.len() == 0 {
        (
            seq![Observation { offset: 0, content: Content::Connected(setting.peer) }],
            Some(Standing { phase: Phase::AwaitingUuid, pending: Seq::empty(), base: 0 }),
        )
    } else {
        let (earlier, standing) = course(setting, chunks.drop_last());
        match standing {
            None => (earlier, None),
            Some(standing) => {
                let (more, then) = chunk_course(
                    setting,
                    standing,
                    byte_count(chunks.drop_last()),
                    chunks.last(),
                );
                (earlier + more, then)
            },
        }
    }
}

/// The terminal observation of an open connection whose reads ended.
pub open spec fn closing(standing: Standing, end: ReadEnd) -> Observation {
    Observation {
        offset: standing.base + standing.pending.len(),
        content: Content::Ended(
            established(standing.phase),
            match end {
                ReadEnd::Failed(error) => Ending::Transport(error),
                ReadEnd::Eof => match finish_of(Assembly::Pending(standing.pending)) {
                    Ok(()) => Ending::CleanEof,
                    Err(error) => Ending::Truncated(error),
                },
            },
        ),
    }
}

/// Everything that a connection has to tell about the chunks that it read and the
/// way its reads ended, if they did; and where it stands then, if it is open.
pub open spec fn transcript(setting: Setting, chunks: Seq<Seq<u8>>, end: Option<ReadEnd>) -> (
    Seq<Observation>,
    Option<Standing>,
) {
    let (observations, standing) = course(setting, chunks);
    match (standing, end) {
        (Some(standing), Some(end)) => (observations.push(closing(standing, end)), None),
        _ => (observations, standing),
    }
}

proof fn lemma_interpreting_stays_live(setting: Setting, phase: Phase, bytes: Seq<u8>, base: int)
    requires
        !(phase is Ended),
    ensures
        interpret(setting, phase, bytes, base).1 matches Some(standing) ==> !(standing.phase
            is Ended),
    decreases bytes.len(),
{
    if let Front::Frame(byte, body) = front(bytes, setting.capacity, false) {
        let end = base + 3 + body.len();
        if let Some(then) = frame_meaning(setting, phase, byte, body, end).1 {
            lemma_interpreting_stays_live(
                setting,
                then,
                behind(bytes, setting.capacity, false),
                end,
            );
        }
    }
}

/// The session of an open connection has not ended.
pub(crate) proof fn lemma_open_sessions_are_live(setting: Setting, chunks: Seq<Seq<u8>>)
    ensures
        course(setting, chunks).1 matches Some(standing) ==> !(standing.phase is Ended),
    decreases chunks.len(),
{
    if chunks.len() > 0 {
        lemma_open_sessions_are_live(setting, chunks.drop_last());
        if let Some(standing) = course(setting, chunks.drop_last()).1 {
            lemma_interpreting_stays_live(
                setting,
                standing.phase,
                standing.pending + chunks.last(),
                standing.base,
            );
        }
    }
}

/// The bytes in some chunks, one behind the other.
pub open spec fn joined_bytes(chunks: Seq<Seq<u8>>) -> Seq<u8>
    decreases chunks.len(),
{
    if chunks.len() == 0 {
        Seq::empty()
    } else {
        joined_bytes(chunks.drop_last()) + chunks.last()
    }
}

/// Whether an observation is the outcome of decoding, not of the transport.
pub open spec fn is_protocol(observation: Observation) -> bool {
    !(observation.content is Connected) && !(observation.content is Wire)
}

/// The outcomes of decoding among some observations, in order.
pub open spec fn protocol_part(observations: Seq<Observation>) -> Seq<Observation>
    decreases observations.len(),
{
    if observations.len() == 0 {
        Seq::empty()
    } else if is_protocol(observations.last()) {
        protocol_part(observations.drop_last()).push(observations.last())
    } else {
        protocol_part(observations.drop_last())
    }
}

/// The wire bytes in some observations, one behind the other.
pub open spec fn wire_part(observations: Seq<Observation>) -> Seq<u8>
    decreases observations.len(),
{
    if observations.len() == 0 {
        Seq::empty()
    } else {
        match observations.last().content {
            Content::Wire(bytes) => wire_part(observations.drop_last()) + bytes,
            _ => wire_part(observations.drop_last()),
        }
    }
}

proof fn lemma_parts_of_sum(first: Seq<Observation>, second: Seq<Observation>)
    ensures
        protocol_part(first + second) == protocol_part(first) + protocol_part(second),
        wire_part(first + second) == wire_part(first) + wire_part(second),
    decreases second.len(),
{
    if second.len() == 0 {
        assert(first + second =~= first);
        assert(protocol_part(first) + Seq::<Observation>::empty() =~= protocol_part(first));
        assert(wire_part(first) + Seq::<u8>::empty() =~= wire_part(first));
    } else {
        let whole = first + second;
        assert(whole.drop_last() =~= first + second.drop_last());
        assert(whole.last() == second.last());
        lemma_parts_of_sum(first, second.drop_last());
        if is_protocol(second.last()) {
            assert(protocol_part(whole) =~= protocol_part(first) + protocol_part(second));
        }
        if let Content::Wire(bytes) = second.last().content {
            assert(wire_part(whole) =~= wire_part(first) + wire_part(second));
        }
    }
}

proof fn lemma_interpretation_is_protocol(
    setting: Setting,
    phase: Phase,
    bytes: Seq<u8>,
    base: int,
)
    ensures
        protocol_part(interpret(setting, phase, bytes, base).0) == interpret(
            setting,
            phase,
            bytes,
            base,
        ).0,
        wire_part(interpret(setting, phase, bytes, base).0) == Seq::<u8>::empty(),
    decreases bytes.len(),
{
    let observations = interpret(setting, phase, bytes, base).0;
    match front(bytes, setting.capacity, false) {
        Front::Incomplete => {},
        Front::Refused(_) => {
            lemma_single(observations[0]);
            assert(observations =~= seq![observations[0]]);
        },
        Front::Frame(byte, body) => {
            let end = base + 3 + body.len();
            let (observation, next) = frame_meaning(setting, phase, byte, body, end);
            lemma_single(observation);
            if let Some(then) = next {
                let rest = behind(bytes, setting.capacity, false);
                lemma_interpretation_is_protocol(setting, then, rest, end);
                lemma_parts_of_sum(seq![observation], interpret(setting, then, rest, end).0);
                assert(Seq::<u8>::empty() + Seq::<u8>::empty() =~= Seq::<u8>::empty());
            }
        },
    }
}

proof fn lemma_single(observation: Observation)
    ensures
        protocol_part(seq![observation]) == if is_protocol(observation) {
            seq![observation]
        } else {
            Seq::empty()
        },
        wire_part(seq![observation]) == match observation.content {
            Content::Wire(bytes) => bytes,
            _ => Seq::empty(),
        },
{
    let single = seq![observation];
    assert(single.drop_last() =~= Seq::<Observation>::empty());
    assert(single.last() == observation);
    assert(protocol_part(Seq::<Observation>::empty()) =~= Seq::<Observation>::empty());
    assert(wire_part(Seq::<Observation>::empty()) =~= Seq::<u8>::empty());
    assert(Seq::<Observation>::empty().push(observation) =~= single);
    if let Content::Wire(bytes) = observation.content {
        assert(Seq::<u8>::empty() + bytes =~= bytes);
    }
}

/// Interpreting bytes in two parts comes to the same as interpreting them at once.
pub proof fn law_interpretation_goes_on(
    setting: Setting,
    phase: Phase,
    first: Seq<u8>,
    second: Seq<u8>,
    base: int,
)
    ensures
        match interpret(setting, phase, first, base) {
            (observations, None) => interpret(setting, phase, first + second, base) == (
                observations,
                None::<Standing>,
            ),
            (observations, Some(standing)) => {
                let later = interpret(
                    setting,
                    standing.phase,
                    standing.pending + second,
                    standing.base,
                );
                interpret(setting, phase, first + second, base) == (
                    observations + later.0,
                    later.1,
                )
            },
        },
    decreases first.len(),
{
    match front(first, setting.capacity, false) {
        Front::Incomplete => {
            let later = interpret(setting, phase, first + second, base);
            assert(Seq::<Observation>::empty() + later.0 =~= later.0);
        },
        Front::Refused(_) => {
            lemma_front_is_settled(first, second, setting.capacity, false);
        },
        Front::Frame(byte, body) => {
            lemma_front_is_settled(first, second, setting.capacity, false);
            let end = base + 3 + body.len();
            let (observation, next) = frame_meaning(setting, phase, byte, body, end);
            if let Some(then) = next {
                let rest = behind(first, setting.capacity, false);
                law_interpretation_goes_on(setting, then, rest, second, end);
                if let (observations, Some(standing)) = interpret(setting, then, rest, end) {
                    let later = interpret(
                        setting,
                        standing.phase,
                        standing.pending + second,
                        standing.base,
                    );
                    assert(seq![observation] + (observations + later.0) =~= (seq![observation]
                        + observations) + later.0);
                }
            }
        },
    }
}

/// Whether some chunks can all be counted and retained.
pub open spec fn within_means(setting: Setting, chunks: Seq<Seq<u8>>) -> bool {
    &&& byte_count(chunks) <= u64::MAX
    &&& forall|i: int| 0 <= i < chunks.len() ==> (#[trigger] chunks[i]).len() <= setting.limit
}

/// How the transport cuts the input does not matter to what is decoded from it:
/// the protocol observations, with their offsets, and the standing of a
/// connection are those of interpreting all bytes at once.
pub proof fn law_read_sizes_do_not_matter(setting: Setting, chunks: Seq<Seq<u8>>)
    requires
        within_means(setting, chunks),
    ensures
        protocol_part(course(setting, chunks).0) == interpret(
            setting,
            Phase::AwaitingUuid,
            joined_bytes(chunks),
            0,
        ).0,
        course(setting, chunks).1 == interpret(
            setting,
            Phase::AwaitingUuid,
            joined_bytes(chunks),
            0,
        ).1,
    decreases chunks.len(),
{
    if chunks.len() == 0 {
        lemma_single(Observation { offset: 0, content: Content::Connected(setting.peer) });
    } else {
        let before = chunks.drop_last();
        let chunk = chunks.last();
        assert(byte_count(chunks) == byte_count(before) + chunk.len());
        assert forall|i: int| 0 <= i < before.len() implies (#[trigger] before[i]).len()
            <= setting.limit by {
            assert(before[i] == chunks[i]);
        }
        assert(chunks[chunks.len() - 1].len() <= setting.limit);
        law_read_sizes_do_not_matter(setting, before);
        law_interpretation_goes_on(
            setting,
            Phase::AwaitingUuid,
            joined_bytes(before),
            chunk,
            0,
        );
        let (earlier, standing) = course(setting, before);
        if let Some(standing) = standing {
            let wire = Observation {
                offset: byte_count(before) as int,
                content: Content::Wire(chunk),
            };
            let later = interpret(
                setting,
                standing.phase,
                standing.pending + chunk,
                standing.base,
            );
            lemma_single(wire);
            lemma_parts_of_sum(seq![wire], later.0);
            lemma_parts_of_sum(earlier, seq![wire] + later.0);
            lemma_interpretation_is_protocol(
                setting,
                standing.phase,
                standing.pending + chunk,
                standing.base,
            );
            assert(Seq::<Observation>::empty() + later.0 =~= later.0);
        }
    }
}

/// Raw bytes are preserved apart from their interpretation: an open connection
/// has told every byte that it read, in order.
pub proof fn law_wire_bytes_are_preserved(setting: Setting, chunks: Seq<Seq<u8>>)
    requires
        course(setting, chunks).1 is Some,
    ensures
        wire_part(course(setting, chunks).0) == joined_bytes(chunks),
    decreases chunks.len(),
{
    if chunks.len() == 0 {
        lemma_single(Observation { offset: 0, content: Content::Connected(setting.peer) });
    } else {
        let before = chunks.drop_last();
        let chunk = chunks.last();
        law_wire_bytes_are_preserved(setting, before);
        lemma_chunk_is_told(setting, before, chunk);
    }
}

proof fn lemma_chunk_is_told(setting: Setting, before: Seq<Seq<u8>>, chunk: Seq<u8>)
    requires
        course(setting, before).1 is Some,
        byte_count(before) + chunk.len() <= u64::MAX,
        chunk.len() <= setting.limit,
    ensures
        wire_part(
            course(setting, before).0 + chunk_course(
                setting,
                course(setting, before).1->0,
                byte_count(before),
                chunk,
            ).0,
        ) == wire_part(course(setting, before).0) + chunk,
{
    let (earlier, standing) = course(setting, before);
    let standing = standing->0;
    let wire = Observation { offset: byte_count(before) as int, content: Content::Wire(chunk) };
    let later = interpret(setting, standing.phase, standing.pending + chunk, standing.base);
    lemma_single(wire);
    lemma_parts_of_sum(seq![wire], later.0);
    lemma_parts_of_sum(earlier, seq![wire] + later.0);
    lemma_interpretation_is_protocol(
        setting,
        standing.phase,
        standing.pending + chunk,
        standing.base,
    );
    assert(chunk + Seq::<u8>::empty() =~= chunk);
}

/// The chunk in which a connection ends is told whole: the told wire bytes of a
/// connection within its means are those of all chunks up to and with it, in order.
pub proof fn law_last_chunk_is_told_whole(setting: Setting, before: Seq<Seq<u8>>, chunk: Seq<u8>)
    requires
        within_means(setting, before.push(chunk)),
        course(setting, before).1 is Some,
    ensures
        wire_part(course(setting, before.push(chunk)).0) == joined_bytes(before.push(chunk)),
{
    let chunks = before.push(chunk);
    assert(chunks.drop_last() =~= before);
    assert(chunks.last() == chunk);
    assert(chunks[before.len() as int] == chunk);
    assert(byte_count(chunks) == byte_count(before) + chunk.len());
    law_wire_bytes_are_preserved(setting, before);
    lemma_chunk_is_told(setting, before, chunk);
}

/// Whether only the last of some observations is terminal, and it is if `ended`.
pub open spec fn ends_once(observations: Seq<Observation>, ended: bool) -> bool {
    &&& observations.len() > 0
    &&& forall|i: int|
        0 <= i < observations.len() ==> ((#[trigger] observations[i]).content is Ended <==> ended
            && i == observations.len() - 1)
}

proof fn lemma_interpretation_ends_once(setting: Setting, phase: Phase, bytes: Seq<u8>, base: int)
    ensures
        ({
            let (observations, standing) = interpret(setting, phase, bytes, base);
            &&& forall|i: int|
                0 <= i < observations.len() ==> ((#[trigger] observations[i]).content is Ended
                    <==> standing is None && i == observations.len() - 1)
            &&& standing is None ==> observations.len() > 0
        }),
    decreases bytes.len(),
{
    if let Front::Frame(byte, body) = front(bytes, setting.capacity, false) {
        let end = base + 3 + body.len();
        let (observation, next) = frame_meaning(setting, phase, byte, body, end);
        if let Some(then) = next {
            let rest = behind(bytes, setting.capacity, false);
            lemma_interpretation_ends_once(setting, then, rest, end);
            let more = interpret(setting, then, rest, end).0;
            let observations = interpret(setting, phase, bytes, base).0;
            assert forall|i: int| 0 < i < observations.len() implies #[trigger] observations[i]
                == more[i - 1] by {}
        }
    }
}

/// A transcript has one terminal observation at most, and nothing follows it; it
/// has one exactly when the connection is no longer open.
pub proof fn law_transcripts_end_once(
    setting: Setting,
    chunks: Seq<Seq<u8>>,
    end: Option<ReadEnd>,
)
    ensures
        ends_once(transcript(setting, chunks, end).0, transcript(setting, chunks, end).1 is None),
{
    lemma_course_ends_once(setting, chunks);
}

proof fn lemma_course_ends_once(setting: Setting, chunks: Seq<Seq<u8>>)
    ensures
        ends_once(course(setting, chunks).0, course(setting, chunks).1 is None),
    decreases chunks.len(),
{
    if chunks.len() > 0 {
        let before = chunks.drop_last();
        let chunk = chunks.last();
        lemma_course_ends_once(setting, before);
        let (earlier, standing) = course(setting, before);
        if let Some(standing) = standing {
            lemma_interpretation_ends_once(
                setting,
                standing.phase,
                standing.pending + chunk,
                standing.base,
            );
            let more = chunk_course(setting, standing, byte_count(before), chunk).0;
            let whole = course(setting, chunks).0;
            assert forall|i: int| earlier.len() <= i < whole.len() implies #[trigger] whole[i]
                == more[i - earlier.len()] by {}
            assert forall|i: int| 0 <= i < earlier.len() implies #[trigger] whole[i]
                == earlier[i] by {}
        }
    }
}

/// Whether a byte is a key of a telephone.
pub open spec fn is_key(value: u8) -> bool {
    let key = value as char;
    '0' <= key <= '9' || key == '*' || key == '#' || 'A' <= key <= 'D'
}

/// Whether an observation tells the frame that begins at `start` in the input of a
/// connection whose session has that identity: the content is the frame's own body, under
/// the meaning of its type byte, and the offset is the frame's end. A frame that has no
/// room ends the connection at its header.
pub open spec fn tells_frame(
    setting: Setting,
    identity: Option<Seq<u8>>,
    bytes: Seq<u8>,
    start: int,
    observation: Observation,
) -> bool {
    let byte = bytes[start];
    let declared = bytes[start + 1] * 256 + bytes[start + 2];
    let end = start + 3 + declared;
    let body = bytes.subrange(start + 3, end);
    let pcm_byte = 0x10 <= byte <= 0x18;
    &&& 0 <= start
    &&& start + 3 <= bytes.len()
    &&& if declared > setting.capacity {
        &&& observation.offset == start + 3
        &&& observation.content == Content::Ended(
            identity,
            Ending::Decode(
                DecodeError::ResourceLimit {
                    required: declared as usize,
                    capacity: setting.capacity,
                },
            ),
        )
    } else {
        &&& end <= bytes.len()
        &&& observation.offset == end
        &&& match observation.content {
            Content::Started(uuid) => byte == 1 && declared == 16 && uuid == body && identity is None,
            Content::Dtmf(uuid, value) => {
                &&& byte == 3
                &&& declared == 1
                &&& value == bytes[end - 1]
                &&& is_key(value)
                &&& identity == Some(uuid)
            },
            Content::Audio(uuid, rate, pcm) => {
                &&& byte == rate.pcm_type().byte()
                &&& pcm_byte
                &&& setting.rates.contains(rate)
                &&& pcm == body
                &&& declared % 2 == 0
                &&& declared <= setting.limit
                &&& identity == Some(uuid)
            },
            Content::Ended(told, ending) => told == identity && match ending {
                Ending::Terminate => byte == 0 && declared == 0,
                Ending::PeerError(error) => byte == 0xff && error == body && declared
                    <= setting.limit,
                Ending::InvalidMessage(_) => {
                    ||| byte == 0 && declared > 0
                    ||| byte == 1 && declared != 16
                    ||| byte == 3 && (declared != 1 || bytes[end - 1] > 127)
                    ||| pcm_byte && declared % 2 == 1
                },
                Ending::ResourceRefused(refusal) => {
                    &&& byte == 0xff || pcm_byte
                    &&& declared > setting.limit
                    &&& refusal == (BudgetError::TooLarge {
                        required: declared as usize,
                        capacity: setting.limit,
                    })
                },
                Ending::Policy(Rejection::MissingUuid) => identity is None && (byte == 3
                    || pcm_byte),
                Ending::Policy(Rejection::DuplicateUuid) => identity is Some && byte == 1,
                Ending::Policy(Rejection::UnsupportedRate(rate)) => {
                    &&& identity is Some
                    &&& byte == rate.pcm_type().byte()
                    &&& !setting.rates.contains(rate)
                },
                Ending::Policy(Rejection::UnsupportedDigit(value)) => {
                    &&& identity is Some
                    &&& byte == 3
                    &&& value == bytes[end - 1]
                    &&& !is_key(value)
                },
                Ending::Policy(Rejection::UnsupportedType(unknown)) => {
                    &&& unknown == byte
                    &&& byte == 2 || 4 <= byte <= 0x0f || 0x19 <= byte <= 0xfe
                },
                _ => false,
            },
            _ => false,
        }
    }
}

/// The observation of one frame tells it.
proof fn lemma_frame_is_told(
    setting: Setting,
    phase: Phase,
    bytes: Seq<u8>,
    start: int,
    byte: u8,
    body: Seq<u8>,
)
    requires
        !(phase is Ended),
        0 <= start,
        start + 3 + body.len() <= bytes.len(),
        body.len() <= setting.capacity,
        byte == bytes[start],
        bytes[start + 1] * 256 + bytes[start + 2] == body.len(),
        body == bytes.subrange(start + 3, start + 3 + body.len() as int),
    ensures
        ({
            let end = start + 3 + body.len();
            let (observation, next) = frame_meaning(setting, phase, byte, body, end);
            &&& tells_frame(setting, established(phase), bytes, start, observation)
            &&& observation.offset == end
            &&& next matches Some(then) ==> !(then is Ended) && established(then)
                == match observation.content {
                Content::Started(uuid) => Some(uuid),
                _ => established(phase),
            }
            &&& next is Some <==> !(observation.content is Ended)
        }),
{
    law_refused_frames_give_reason(byte, body);
    law_conversion_keeps_type_and_body(byte, body);
    if body.len() > 0 {
        assert(bytes[start + 3 + body.len() - 1] == body[body.len() - 1]);
    }
}

/// Each observation tells the frame at the place where the one before it ended.
proof fn lemma_frames_are_told(setting: Setting, phase: Phase, bytes: Seq<u8>, base: int)
    requires
        0 <= base <= bytes.len(),
        !(phase is Ended),
    ensures
        ({
            let (told, standing) = interpret(setting, phase, bytes.skip(base), base);
            &&& forall|i: int|
                0 <= i < told.len() ==> tells_frame(
                    setting,
                    identity_at(established(phase), told, i),
                    bytes,
                    place_of(base, told, i),
                    #[trigger] told[i],
                )
            &&& standing matches Some(then) ==> {
                &&& then.base == place_of(base, told, told.len() as int)
                &&& base <= then.base <= bytes.len()
                &&& then.pending == bytes.skip(then.base)
                &&& established(then.phase) == identity_at(
                    established(phase),
                    told,
                    told.len() as int,
                )
            }
        }),
    decreases bytes.len() - base,
{
    let rest = bytes.skip(base);
    law_fronts_are_cut_from_the_input(rest, setting.capacity, false);
    let (told, standing) = interpret(setting, phase, rest, base);
    match front(rest, setting.capacity, false) {
        Front::Incomplete => {},
        Front::Refused(_) => {
            assert(told[0].offset == base + 3);
        },
        Front::Frame(byte, body) => {
            let end = base + 3 + body.len();
            let (observation, next) = frame_meaning(setting, phase, byte, body, end);
            assert(body =~= bytes.subrange(base + 3, end as int));
            assert(rest[0] == bytes[base]);
            assert(rest[1] == bytes[base + 1]);
            assert(rest[2] == bytes[base + 2]);
            lemma_frame_is_told(setting, phase, bytes, base, byte, body);
            assert(told[0] == observation);
            if let Some(then) = next {
                assert(behind(rest, setting.capacity, false) =~= bytes.skip(end as int));
                lemma_frames_are_told(setting, then, bytes, end as int);
                let more = interpret(setting, then, bytes.skip(end as int), end as int).0;
                assert(told =~= seq![observation] + more);
                assert forall|i: int| 0 <= i < told.len() implies tells_frame(
                    setting,
                    identity_at(established(phase), told, i),
                    bytes,
                    place_of(base, told, i),
                    #[trigger] told[i],
                ) by {
                    if i > 0 {
                        assert(told[i] == more[i - 1]);
                        assert(place_of(base, told, i) == place_of(end as int, more, i - 1));
                        assert(identity_at(established(phase), told, i) == identity_at(
                            established(then),
                            more,
                            i - 1,
                        )) by {
                            lemma_identity_shifts(established(phase), observation, more, i);
                        }
                    }
                }
                lemma_identity_shifts(
                    established(phase),
                    observation,
                    more,
                    told.len() as int,
                );
            }
        },
    }
}

/// Where the frame of an observation begins: where the one before it ended.
pub open spec fn place_of(base: int, told: Seq<Observation>, index: int) -> int {
    if index == 0 {
        base
    } else {
        told[index - 1].offset
    }
}

/// The identity of a session before an observation: the one that it had, or the one that
/// the latest start before it tells.
pub open spec fn identity_at(
    identity: Option<Seq<u8>>,
    told: Seq<Observation>,
    index: int,
) -> Option<Seq<u8>>
    decreases index,
{
    if index <= 0 {
        identity
    } else {
        match told[index - 1].content {
            Content::Started(uuid) => Some(uuid),
            _ => identity_at(identity, told, index - 1),
        }
    }
}

proof fn lemma_identity_shifts(
    identity: Option<Seq<u8>>,
    first: Observation,
    more: Seq<Observation>,
    index: int,
)
    requires
        1 <= index <= more.len() + 1,
    ensures
        identity_at(identity, seq![first] + more, index) == identity_at(
            match first.content {
                Content::Started(uuid) => Some(uuid),
                _ => identity,
            },
            more,
            index - 1,
        ),
    decreases index,
{
    let told = seq![first] + more;
    if index == 1 {
        assert(told[0] == first);
        assert(identity_at(identity, told, 0) == identity);
    } else {
        assert(told[index - 1] == more[index - 2]);
        lemma_identity_shifts(identity, first, more, index - 1);
    }
}

/// Every frame is told in its place: of all that was read, the first observation tells
/// the frame at the beginning and each other one the frame behind that of the one before
/// it, up to the bytes of a frame that is not complete. Media and keys belong to the
/// identity that the first frame gave.
pub proof fn law_frames_are_told_in_place(setting: Setting, chunks: Seq<Seq<u8>>)
    requires
        within_means(setting, chunks),
    ensures
        ({
            let bytes = joined_bytes(chunks);
            let told = protocol_part(course(setting, chunks).0);
            &&& forall|i: int|
                0 <= i < told.len() ==> tells_frame(
                    setting,
                    identity_at(None, told, i),
                    bytes,
                    place_of(0, told, i),
                    #[trigger] told[i],
                )
            &&& course(setting, chunks).1 matches Some(then) ==> {
                &&& then.base == place_of(0, told, told.len() as int)
                &&& 0 <= then.base <= bytes.len()
                &&& then.pending == bytes.skip(then.base)
                &&& established(then.phase) == identity_at(None, told, told.len() as int)
            }
        }),
{
    let bytes = joined_bytes(chunks);
    law_read_sizes_do_not_matter(setting, chunks);
    assert(bytes.skip(0) =~= bytes);
    lemma_frames_are_told(setting, Phase::AwaitingUuid, bytes, 0);
}

/// Whether the bytes in an observation are those that stand at its offset in what was
/// read.
pub open spec fn holds_input(bytes: Seq<u8>, observation: Observation) -> bool {
    let offset = observation.offset;
    match observation.content {
        Content::Wire(wire) => 0 <= offset <= offset + wire.len() <= bytes.len() && wire
            == bytes.subrange(offset, offset + wire.len() as int),
        Content::Started(uuid) => uuid.len() == 16 && 19 <= offset <= bytes.len() && uuid
            == bytes.subrange(offset - 16, offset),
        Content::Audio(_, _, pcm) => pcm.len() + 3 <= offset <= bytes.len() && pcm
            == bytes.subrange(offset - pcm.len(), offset),
        Content::Dtmf(_, value) => 4 <= offset <= bytes.len() && value == bytes[offset - 1],
        Content::Ended(_, Ending::PeerError(error)) => error.len() + 3 <= offset <= bytes.len()
            && error == bytes.subrange(offset - error.len(), offset),
        _ => true,
    }
}

pub(crate) proof fn lemma_joined_length(chunks: Seq<Seq<u8>>)
    ensures
        joined_bytes(chunks).len() == byte_count(chunks),
    decreases chunks.len(),
{
    if chunks.len() > 0 {
        lemma_joined_length(chunks.drop_last());
    }
}

/// What tells a frame holds what was read.
proof fn lemma_told_frame_holds_input(
    setting: Setting,
    identity: Option<Seq<u8>>,
    bytes: Seq<u8>,
    start: int,
    observation: Observation,
)
    requires
        tells_frame(setting, identity, bytes, start, observation),
    ensures
        holds_input(bytes, observation),
{
    let declared = bytes[start + 1] * 256 + bytes[start + 2];
    let body = bytes.subrange(start + 3, start + 3 + declared);
    if declared <= setting.capacity {
        assert(body.len() == declared);
    }
}

/// What one more chunk adds holds what was read with it.
proof fn lemma_chunk_holds_input(setting: Setting, standing: Standing, old: Seq<u8>, chunk: Seq<u8>)
    requires
        !(standing.phase is Ended),
        0 <= standing.base <= old.len(),
        standing.pending == old.skip(standing.base),
    ensures
        ({
            let bytes = old + chunk;
            let (more, then) = chunk_course(setting, standing, old.len(), chunk);
            &&& forall|i: int| 0 <= i < more.len() ==> holds_input(bytes, #[trigger] more[i])
            &&& then matches Some(then) ==> {
                &&& 0 <= then.base <= bytes.len()
                &&& then.pending == bytes.skip(then.base)
            }
        }),
{
    let bytes = old + chunk;
    let more = chunk_course(setting, standing, old.len(), chunk).0;
    assert(standing.pending + chunk =~= bytes.skip(standing.base));
    lemma_frames_are_told(setting, standing.phase, bytes, standing.base);
    let told = interpret(setting, standing.phase, bytes.skip(standing.base), standing.base).0;
    if old.len() + chunk.len() <= u64::MAX && chunk.len() <= setting.limit {
        assert(bytes.subrange(old.len() as int, bytes.len() as int) =~= chunk);
        assert forall|i: int| 0 <= i < more.len() implies holds_input(bytes, #[trigger] more[i]) by {
            if i > 0 {
                assert(more[i] == told[i - 1]);
                lemma_told_frame_holds_input(
                    setting,
                    identity_at(established(standing.phase), told, i - 1),
                    bytes,
                    place_of(standing.base, told, i - 1),
                    told[i - 1],
                );
            }
        }
    }
}

proof fn lemma_standing_is_the_rest(setting: Setting, chunks: Seq<Seq<u8>>)
    ensures
        course(setting, chunks).1 matches Some(standing) ==> {
            &&& 0 <= standing.base <= joined_bytes(chunks).len()
            &&& standing.pending == joined_bytes(chunks).skip(standing.base)
        },
        forall|i: int|
            0 <= i < course(setting, chunks).0.len() ==> holds_input(
                joined_bytes(chunks),
                #[trigger] course(setting, chunks).0[i],
            ),
    decreases chunks.len(),
{
    let bytes = joined_bytes(chunks);
    let whole = course(setting, chunks).0;
    if chunks.len() == 0 {
        assert(Seq::<u8>::empty().skip(0) =~= Seq::<u8>::empty());
    } else {
        let before = chunks.drop_last();
        let chunk = chunks.last();
        let old = joined_bytes(before);
        lemma_standing_is_the_rest(setting, before);
        lemma_open_sessions_are_live(setting, before);
        lemma_joined_length(before);
        let (earlier, standing) = course(setting, before);
        assert forall|i: int| 0 <= i < earlier.len() implies holds_input(
            bytes,
            #[trigger] earlier[i],
        ) by {
            lemma_input_goes_on(old, chunk, earlier[i]);
        }
        if let Some(standing) = standing {
            lemma_chunk_holds_input(setting, standing, old, chunk);
            let more = chunk_course(setting, standing, byte_count(before), chunk).0;
            assert forall|i: int| 0 <= i < whole.len() implies holds_input(
                bytes,
                #[trigger] whole[i],
            ) by {
                if i >= earlier.len() {
                    assert(whole[i] == more[i - earlier.len()]);
                } else {
                    assert(whole[i] == earlier[i]);
                }
            }
        }
    }
}

proof fn lemma_input_goes_on(bytes: Seq<u8>, more: Seq<u8>, observation: Observation)
    requires
        holds_input(bytes, observation),
    ensures
        holds_input(bytes + more, observation),
{
    let offset = observation.offset;
    match observation.content {
        Content::Wire(wire) => {
            assert((bytes + more).subrange(offset, offset + wire.len() as int) =~= wire);
        },
        Content::Started(uuid) => {
            assert((bytes + more).subrange(offset - 16, offset) =~= uuid);
        },
        Content::Audio(_, _, pcm) => {
            assert((bytes + more).subrange(offset - pcm.len(), offset) =~= pcm);
        },
        Content::Ended(_, Ending::PeerError(error)) => {
            assert((bytes + more).subrange(offset - error.len(), offset) =~= error);
        },
        _ => {},
    }
}

/// What a connection tells it has read: in every transcript, whatever was read and
/// however it ended, the wire bytes, the identity, the samples, the key and the peer's
/// error in a record are those that stand at the record's offset in the bytes that were
/// read.
pub proof fn law_records_hold_what_was_read(
    setting: Setting,
    chunks: Seq<Seq<u8>>,
    end: Option<ReadEnd>,
    index: int,
)
    requires
        0 <= index < transcript(setting, chunks, end).0.len(),
    ensures
        ({
            let bytes = joined_bytes(chunks);
            let record = transcript(setting, chunks, end).0[index];
            let offset = record.offset;
            match record.content {
                Content::Wire(wire) => {
                    &&& 0 <= offset <= offset + wire.len() <= bytes.len()
                    &&& wire == bytes.subrange(offset, offset + wire.len() as int)
                },
                Content::Started(uuid) => {
                    &&& uuid.len() == 16
                    &&& 19 <= offset <= bytes.len()
                    &&& uuid == bytes.subrange(offset - 16, offset)
                },
                Content::Audio(_, _, pcm) => {
                    &&& pcm.len() + 3 <= offset <= bytes.len()
                    &&& pcm == bytes.subrange(offset - pcm.len(), offset)
                },
                Content::Dtmf(_, value) => {
                    &&& 4 <= offset <= bytes.len()
                    &&& value == bytes[offset - 1]
                },
                Content::Ended(_, Ending::PeerError(error)) => {
                    &&& error.len() + 3 <= offset <= bytes.len()
                    &&& error == bytes.subrange(offset - error.len(), offset)
                },
                _ => true,
            }
        }),
{
    lemma_standing_is_the_rest(setting, chunks);
    let (observations, standing) = course(setting, chunks);
    let whole = transcript(setting, chunks, end).0;
    if index < observations.len() {
        assert(whole[index] == observations[index]);
        assert(holds_input(joined_bytes(chunks), observations[index]));
    }
}

/// The end of the input is told at the offset of the last byte read, with the identity
/// of the session: as a clean one exactly if no frame was begun, as a truncation else,
/// and as the failure of the read if it failed.
pub proof fn law_ends_are_told_behind_the_last_byte(
    setting: Setting,
    chunks: Seq<Seq<u8>>,
    end: ReadEnd,
)
    requires
        course(setting, chunks).1 is Some,
    ensures
        ({
            let told = transcript(setting, chunks, Some(end));
            let last = told.0.last();
            let begun = course(setting, chunks).1->0.pending;
            &&& told.1 is None
            &&& told.0.drop_last() == course(setting, chunks).0
            &&& last.offset == joined_bytes(chunks).len()
            &&& last.content matches Content::Ended(identity, ending) && {
                &&& identity == established(course(setting, chunks).1->0.phase)
                &&& end matches ReadEnd::Failed(error) ==> ending == Ending::Transport(error)
                &&& end is Eof ==> (ending is CleanEof <==> begun.len() == 0)
                &&& end is Eof ==> (ending is Truncated <==> begun.len() > 0)
                &&& ending matches Ending::Truncated(error) ==> finish_of(Assembly::Pending(begun))
                    == Err::<(), FinishError>(error)
            }
        }),
{
    lemma_standing_is_the_rest(setting, chunks);
    let told = transcript(setting, chunks, Some(end));
    assert(told.0.drop_last() =~= course(setting, chunks).0);
}

/// A connection announces itself once, first, at the beginning and by its peer.
pub proof fn law_connections_announce_themselves_first(
    setting: Setting,
    chunks: Seq<Seq<u8>>,
    end: Option<ReadEnd>,
)
    ensures
        transcript(setting, chunks, end).0.len() > 0,
        transcript(setting, chunks, end).0[0] == (Observation {
            offset: 0,
            content: Content::Connected(setting.peer),
        }),
    decreases chunks.len(),
{
    if chunks.len() > 0 {
        law_connections_announce_themselves_first(setting, chunks.drop_last(), None);
    }
}

/// Whether a session accepts a message as media or a key, and a connection can retain
/// and assemble it.
pub open spec fn is_media(setting: Setting, message: Message) -> bool {
    match message {
        Message::Audio(rate, pcm) => {
            &&& setting.rates.contains(rate)
            &&& pcm.len() % 2 == 0
            &&& pcm.len() <= 65_535
            &&& pcm.len() <= setting.capacity
            &&& pcm.len() <= setting.limit
        },
        Message::Dtmf(value) => is_key(value) && setting.capacity >= 1,
        _ => false,
    }
}

/// What media or a key of a session is told as.
pub open spec fn media_content(uuid: Seq<u8>, message: Message) -> Content {
    match message {
        Message::Audio(rate, pcm) => Content::Audio(uuid, rate, pcm),
        Message::Dtmf(value) => Content::Dtmf(uuid, value),
        _ => Content::Ended(None, Ending::CleanEof),
    }
}

proof fn lemma_media_is_told(
    setting: Setting,
    uuid: Seq<u8>,
    media: Seq<Message>,
    more: Seq<u8>,
    base: int,
)
    requires
        forall|i: int| 0 <= i < media.len() ==> is_media(setting, #[trigger] media[i]),
    ensures
        ({
            let bytes = message_stream(media) + more;
            let end = base + message_stream(media).len();
            let (told, standing) = interpret(setting, Phase::Active(uuid), bytes, base);
            let later = interpret(setting, Phase::Active(uuid), more, end);
            &&& told.len() == media.len() + later.0.len()
            &&& told.skip(media.len() as int) == later.0
            &&& standing == later.1
            &&& forall|i: int|
                0 <= i < media.len() ==> (#[trigger] told[i]).content == media_content(
                    uuid,
                    media[i],
                ) && told[i].offset == base + message_stream(media.take(i + 1)).len()
        }),
    decreases media.len(),
{
    let phase = Phase::Active(uuid);
    if media.len() == 0 {
        assert(message_stream(media) + more =~= more);
        let told = interpret(setting, phase, more, base).0;
        assert(told.skip(0) =~= told);
    } else {
        let first = media[0];
        let rest = media.drop_first();
        assert(is_media(setting, first));
        assert forall|i: int| 0 <= i < rest.len() implies is_media(setting, #[trigger] rest[i]) by {
            assert(rest[i] == media[i + 1]);
        }
        let piece = message_frame(first);
        let bytes = message_stream(media) + more;
        let left = message_stream(rest) + more;
        assert(bytes =~= piece + left);
        law_message_of_its_frame(first);
        lemma_frame_at_front(
            message_byte(first),
            message_body(first),
            left,
            setting.capacity,
            false,
        );
        let next = base + piece.len();
        assert(piece.len() == 3 + message_body(first).len());
        lemma_media_is_told(setting, uuid, rest, more, next);
        let (told, standing) = interpret(setting, phase, bytes, base);
        let further = interpret(setting, phase, left, next).0;
        let (one, then) = frame_meaning(
            setting,
            phase,
            message_byte(first),
            message_body(first),
            next,
        );
        assert(then == Some(phase));
        assert(told =~= seq![one] + further);
        assert(told.skip(media.len() as int) =~= further.skip(rest.len() as int));
        assert forall|i: int| 0 <= i < media.len() implies (#[trigger] told[i]).content
            == media_content(uuid, media[i]) && told[i].offset == base + message_stream(
            media.take(i + 1),
        ).len() by {
            let taken = media.take(i + 1);
            assert(taken[0] == first);
            if i == 0 {
                assert(taken.drop_first() =~= Seq::<Message>::empty());
                assert(message_stream(Seq::<Message>::empty()).len() == 0);
                assert(message_stream(taken).len() == piece.len());
            } else {
                assert(taken.drop_first() =~= rest.take(i));
                assert(told[i] == further[i - 1]);
                assert(media[i] == rest[i - 1]);
                assert(message_stream(taken).len() == piece.len() + message_stream(
                    rest.take(i),
                ).len());
            }
        }
    }
}

/// A call is told as it was sent: of a peer that sends its identity, then media and keys
/// that the session accepts, and then terminates, a connection tells the start, each of
/// the messages with its own samples or key and at the end of its frame, and the
/// termination, all for that identity and nothing else.
pub proof fn law_calls_are_told_as_they_were_sent(
    setting: Setting,
    uuid: Seq<u8>,
    media: Seq<Message>,
)
    requires
        uuid.len() == 16,
        setting.capacity >= 16,
        forall|i: int| 0 <= i < media.len() ==> is_media(setting, #[trigger] media[i]),
    ensures
        ({
            let sent = message_frame(Message::Uuid(uuid)) + (message_stream(media) + message_frame(
                Message::Terminate,
            ));
            let (told, standing) = interpret(setting, Phase::AwaitingUuid, sent, 0);
            &&& told.len() == media.len() + 2
            &&& told[0] == (Observation { offset: 19, content: Content::Started(uuid) })
            &&& forall|i: int|
                #![trigger media[i]]
                0 <= i < media.len() ==> told[i + 1].content == media_content(uuid, media[i])
                    && told[i + 1].offset == 19 + message_stream(media.take(i + 1)).len()
            &&& told[media.len() as int + 1] == (Observation {
                offset: sent.len() as int,
                content: Content::Ended(Some(uuid), Ending::Terminate),
            })
            &&& standing is None
        }),
{
    let phase = Phase::Active(uuid);
    let start = Message::Uuid(uuid);
    let last = message_frame(Message::Terminate);
    let middle = message_stream(media) + last;
    let sent = message_frame(start) + middle;
    law_message_of_its_frame(start);
    law_message_of_its_frame(Message::Terminate);
    lemma_frame_at_front(message_byte(start), uuid, middle, setting.capacity, false);
    lemma_media_is_told(setting, uuid, media, last, 19);
    let end = 19 + message_stream(media).len();
    assert(last + Seq::<u8>::empty() =~= last);
    lemma_frame_at_front(
        message_byte(Message::Terminate),
        Seq::empty(),
        Seq::empty(),
        setting.capacity,
        false,
    );
    assert(message_frame(Message::Terminate) == frame(
        message_byte(Message::Terminate),
        Seq::<u8>::empty(),
    ));
    let closing = interpret(setting, phase, last, end as int);
    let (told, standing) = interpret(setting, Phase::AwaitingUuid, sent, 0);
    let further = interpret(setting, phase, middle, 19).0;
    let one = Observation { offset: 19, content: Content::Started(uuid) };
    assert(told =~= seq![one] + further);
    assert(closing.0.len() == 1);
    assert(further[media.len() as int] == further.skip(media.len() as int)[0]);
    assert forall|i: int|
        #![trigger media[i]]
        0 <= i < media.len() implies told[i + 1].content == media_content(uuid, media[i])
        && told[i + 1].offset == 19 + message_stream(media.take(i + 1)).len() by {
        assert(told[i + 1] == further[i]);
    }
}

/// A read that cannot be counted or retained ends the connection with one record that
/// says so, for the identity of its session: beyond 64 bits at the offset of the last
/// byte before it, and beyond the byte budget at its own, with both sizes.
pub proof fn law_reads_beyond_means_end_the_connection(
    setting: Setting,
    chunks: Seq<Seq<u8>>,
    chunk: Seq<u8>,
)
    requires
        course(setting, chunks).1 is Some,
        chunk.len() <= usize::MAX,
    ensures
        ({
            let standing = course(setting, chunks).1->0;
            let (told, then) = course(setting, chunks.push(chunk));
            let read = joined_bytes(chunks).len();
            let earlier = course(setting, chunks).0;
            &&& read + chunk.len() > u64::MAX ==> {
                &&& then is None
                &&& told == earlier.push(
                    Observation {
                        offset: read as int,
                        content: Content::Ended(
                            established(standing.phase),
                            Ending::OffsetExhausted,
                        ),
                    },
                )
            }
            &&& read + chunk.len() <= u64::MAX && chunk.len() > setting.limit ==> {
                &&& then is None
                &&& told == earlier.push(
                    Observation {
                        offset: read as int,
                        content: Content::Ended(
                            established(standing.phase),
                            Ending::ResourceRefused(
                                BudgetError::TooLarge {
                                    required: chunk.len() as usize,
                                    capacity: setting.limit,
                                },
                            ),
                        ),
                    },
                )
            }
            &&& read + chunk.len() <= u64::MAX && chunk.len() <= setting.limit ==> {
                &&& told.len() > earlier.len()
                &&& told.take(earlier.len() as int) == earlier
                &&& told[earlier.len() as int] == (Observation {
                    offset: read as int,
                    content: Content::Wire(chunk),
                })
            }
        }),
{
    let longer = chunks.push(chunk);
    assert(longer.drop_last() =~= chunks);
    assert(longer.last() == chunk);
    lemma_joined_length(chunks);
    lemma_standing_is_the_rest(setting, chunks);
    let earlier = course(setting, chunks).0;
    let told = course(setting, longer).0;
    let read = joined_bytes(chunks).len();
    if read + chunk.len() <= u64::MAX && chunk.len() <= setting.limit {
        assert(told.take(earlier.len() as int) =~= earlier);
    } else {
        assert(told =~= earlier.push(told.last()));
    }
}

} // verus!
