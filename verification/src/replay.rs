//! Recordings of transcripts: what a connection tells, a recording takes.
use vstd::prelude::*;

use crate::audio::SampleRate;
use crate::decoder::{behind, front, Front};
use crate::encoder::{message_frame, message_stream};
use crate::envelope::message_of;
use crate::message::Message;
use crate::record::{Content, Observation};
use crate::recording::{
    fits_riff, judge, law_pcm_is_collected_in_order, pcm_part, RecordingPhase,
};
use crate::session::{policy, Phase};
use crate::transcript::{
    byte_count, chunk_course, closing, course, frame_meaning, interpret, is_media,
    law_calls_are_told_as_they_were_sent, media_content, transcript, ReadEnd, Setting,
};

verus! {

/// Where a recording stands that took some observations.
pub struct Position {
    /// Where the session stands.
    pub phase: RecordingPhase,
    /// The offset of the latest observation that is not wire bytes.
    pub last: u64,
    /// Wire bytes taken.
    pub wire: nat,
    /// PCM bytes taken.
    pub audio: nat,
}

/// Where a recording of one connection stands that was given some observations of it
/// in order, unless it refused one.
pub open spec fn replay(id: (u64, usize), rate: SampleRate, observations: Seq<Observation>) -> Option<
    Position,
>
    decreases observations.len(),
{
    if observations.len() == 0 {
        Some(Position { phase: RecordingPhase::AwaitingConnection, last: 0, wire: 0, audio: 0 })
    } else {
        match replay(id, rate, observations.drop_last()) {
            None => None,
            Some(position) => taken(id, rate, position, observations.last()),
        }
    }
}

/// Where a recording stands after one more observation, unless it refuses it.
pub open spec fn taken(
    id: (u64, usize),
    rate: SampleRate,
    position: Position,
    observation: Observation,
) -> Option<Position> {
    match judge(
        position.phase,
        id,
        rate,
        position.last,
        position.wire,
        position.audio,
        id,
        observation,
    ) {
        Err(_) => None,
        Ok(phase) => Some(
            Position {
                phase,
                last: if observation.content is Wire {
                    position.last
                } else {
                    observation.offset as u64
                },
                wire: position.wire + match observation.content {
                    Content::Wire(bytes) => bytes.len(),
                    _ => 0,
                },
                audio: position.audio + match observation.content {
                    Content::Audio(_, _, pcm) => pcm.len(),
                    _ => 0,
                },
            },
        ),
    }
}

/// Whether a recording stands where the session of its connection stands.
spec fn in_step(recorded: RecordingPhase, phase: Phase) -> bool {
    match phase {
        Phase::AwaitingUuid => recorded is AwaitingUuid,
        Phase::Active(uuid) => recorded == RecordingPhase::Active(uuid),
        Phase::Ended => false,
    }
}

/// Whether a recording of the observations so far follows an open connection that has
/// read `read` bytes.
spec fn follows(
    id: (u64, usize),
    rate: SampleRate,
    observations: Seq<Observation>,
    phase: Phase,
    base: int,
    read: nat,
) -> bool {
    &&& read <= u64::MAX
    &&& replay(id, rate, observations) matches Some(position)
    &&& in_step(position.phase, phase)
    &&& position.wire == read
    &&& position.last <= base
    &&& position.audio == pcm_part(observations).len()
}

proof fn lemma_pcm_of_sum(first: Seq<Observation>, second: Seq<Observation>)
    ensures
        pcm_part(first + second) == pcm_part(first) + pcm_part(second),
{
    let any = Observation { offset: 0, content: Content::Wire(Seq::empty()) };
    law_pcm_is_collected_in_order(first, second, any);
}

/// A recording takes the observation of a complete frame, and stays in step.
proof fn lemma_frame_is_taken(
    id: (u64, usize),
    rate: SampleRate,
    setting: Setting,
    observations: Seq<Observation>,
    phase: Phase,
    byte: u8,
    body: Seq<u8>,
    base: int,
    end: int,
    read: nat,
)
    requires
        setting.rates.subset_of(set![rate]),
        follows(id, rate, observations, phase, base, read),
        base <= end <= read,
        fits_riff(
            pcm_part(
                observations.push(frame_meaning(setting, phase, byte, body, end).0),
            ).len(),
        ),
    ensures
        ({
            let (observation, next) = frame_meaning(setting, phase, byte, body, end);
            let after = observations.push(observation);
            &&& replay(id, rate, after) is Some
            &&& next matches Some(then) ==> follows(id, rate, after, then, end, read)
        }),
{
    let (observation, next) = frame_meaning(setting, phase, byte, body, end);
    let after = observations.push(observation);
    assert(after.drop_last() =~= observations);
    assert(after.last() == observation);
    if let Ok(message) = message_of(byte, body) {
        if let (Ok(event), then) = policy(phase, setting.rates, message) {
            if let crate::session::Event::Audio(uuid, declared, pcm) = event {
                assert(setting.rates.contains(declared));
                assert(set![rate].contains(declared));
                assert(pcm.len() % 2 == 0);
            }
        }
    }
}

/// A recording takes all observations of the frames in some bytes that were read.
proof fn lemma_interpretation_is_taken(
    id: (u64, usize),
    rate: SampleRate,
    setting: Setting,
    observations: Seq<Observation>,
    phase: Phase,
    bytes: Seq<u8>,
    base: int,
    read: nat,
)
    requires
        setting.rates.subset_of(set![rate]),
        follows(id, rate, observations, phase, base, read),
        base + bytes.len() <= read,
        fits_riff(pcm_part(observations + interpret(setting, phase, bytes, base).0).len()),
    ensures
        ({
            let (more, standing) = interpret(setting, phase, bytes, base);
            let after = observations + more;
            &&& replay(id, rate, after) is Some
            &&& standing matches Some(standing) ==> {
                &&& follows(id, rate, after, standing.phase, standing.base, read)
                &&& standing.base + standing.pending.len() <= read
            }
        }),
    decreases bytes.len(),
{
    let (more, standing) = interpret(setting, phase, bytes, base);
    let after = observations + more;
    match front(bytes, setting.capacity, false) {
        Front::Incomplete => {
            assert(after =~= observations);
        },
        Front::Refused(error) => {
            let observation = more[0];
            assert(after =~= observations.push(observation));
            assert(after.drop_last() =~= observations);
        },
        Front::Frame(byte, body) => {
            let end = base + 3 + body.len();
            let (observation, next) = frame_meaning(setting, phase, byte, body, end);
            let one = observations.push(observation);
            lemma_pcm_of_sum(one, if next is Some {
                interpret(setting, next->0, behind(bytes, setting.capacity, false), end).0
            } else {
                Seq::empty()
            });
            if let Some(then) = next {
                let rest = behind(bytes, setting.capacity, false);
                let tail = interpret(setting, then, rest, end).0;
                assert(after =~= one + tail);
                assert(rest.len() == bytes.len() - 3 - body.len());
                lemma_frame_is_taken(
                    id,
                    rate,
                    setting,
                    observations,
                    phase,
                    byte,
                    body,
                    base,
                    end,
                    read,
                );
                lemma_interpretation_is_taken(id, rate, setting, one, then, rest, end, read);
            } else {
                assert(after =~= one);
                lemma_frame_is_taken(
                    id,
                    rate,
                    setting,
                    observations,
                    phase,
                    byte,
                    body,
                    base,
                    end,
                    read,
                );
            }
        },
    }
}

/// A recording takes all observations of an open or closed connection.
proof fn lemma_course_is_taken(
    id: (u64, usize),
    rate: SampleRate,
    setting: Setting,
    chunks: Seq<Seq<u8>>,
)
    requires
        setting.rates.subset_of(set![rate]),
        fits_riff(pcm_part(course(setting, chunks).0).len()),
    ensures
        ({
            let (observations, standing) = course(setting, chunks);
            &&& replay(id, rate, observations) is Some
            &&& standing matches Some(standing) ==> {
                let read = byte_count(chunks);
                &&& follows(id, rate, observations, standing.phase, standing.base, read)
                &&& standing.base + standing.pending.len() <= read
            }
        }),
    decreases chunks.len(),
{
    if chunks.len() == 0 {
        let observations = course(setting, chunks).0;
        let first = Observation { offset: 0, content: Content::Connected(setting.peer) };
        assert(observations.drop_last() =~= Seq::<Observation>::empty());
        assert(observations.last() == first);
        assert(replay(id, rate, Seq::<Observation>::empty()) is Some);
        assert(pcm_part(Seq::<Observation>::empty()) =~= Seq::<u8>::empty());
        assert(pcm_part(observations) =~= Seq::<u8>::empty());
        assert(byte_count(chunks) == 0);
    } else {
        let before = chunks.drop_last();
        let chunk = chunks.last();
        let (earlier, standing) = course(setting, before);
        let (observations, then) = course(setting, chunks);
        if let Some(standing) = standing {
            let read = byte_count(before);
            let (more, _) = chunk_course(setting, standing, read, chunk);
            lemma_pcm_of_sum(earlier, more);
            lemma_course_is_taken(id, rate, setting, before);
            if read + chunk.len() > u64::MAX || chunk.len() > setting.limit {
                assert(observations =~= earlier.push(more[0]));
                assert(observations.drop_last() =~= earlier);
            } else {
                let wire = Observation { offset: read as int, content: Content::Wire(chunk) };
                let one = earlier.push(wire);
                let told = interpret(
                    setting,
                    standing.phase,
                    standing.pending + chunk,
                    standing.base,
                ).0;
                assert(one.drop_last() =~= earlier);
                assert(observations =~= one + told);
                assert(pcm_part(one) == pcm_part(earlier));
                assert(byte_count(chunks) == read + chunk.len());
                lemma_interpretation_is_taken(
                    id,
                    rate,
                    setting,
                    one,
                    standing.phase,
                    standing.pending + chunk,
                    standing.base,
                    read + chunk.len(),
                );
            }
        } else {
            lemma_course_is_taken(id, rate, setting, before);
        }
    }
}

/// What a connection tells, a recording takes: given the transcript of a connection
/// that accepts its rate alone, in order and as far as RIFF can hold the PCM, a
/// recording of that connection refuses nothing.
pub proof fn law_transcripts_can_be_recorded(
    id: (u64, usize),
    rate: SampleRate,
    setting: Setting,
    chunks: Seq<Seq<u8>>,
    end: Option<ReadEnd>,
)
    requires
        setting.rates.subset_of(set![rate]),
        fits_riff(pcm_part(transcript(setting, chunks, end).0).len()),
    ensures
        replay(id, rate, transcript(setting, chunks, end).0) is Some,
{
    let (observations, standing) = course(setting, chunks);
    let whole = transcript(setting, chunks, end).0;
    if let (Some(standing), Some(end)) = (standing, end) {
        let last = closing(standing, end);
        assert(whole.drop_last() =~= observations);
        assert(whole.last() == last);
        crate::transcript::lemma_open_sessions_are_live(setting, chunks);
    }
    lemma_course_is_taken(id, rate, setting, chunks);
}

/// The samples in some messages, one behind the other.
pub open spec fn sent_audio(media: Seq<Message>) -> Seq<u8>
    decreases media.len(),
{
    if media.len() == 0 {
        Seq::empty()
    } else {
        match media.last() {
            Message::Audio(_, pcm) => sent_audio(media.drop_last()) + pcm,
            _ => sent_audio(media.drop_last()),
        }
    }
}

proof fn lemma_told_media(uuid: Seq<u8>, media: Seq<Message>, told: Seq<Observation>)
    requires
        told.len() == media.len(),
        forall|i: int|
            0 <= i < media.len() ==> (#[trigger] told[i]).content == media_content(uuid, media[i]),
    ensures
        pcm_part(told) == sent_audio(media),
    decreases media.len(),
{
    if media.len() > 0 {
        let fewer = told.drop_last();
        assert forall|i: int| 0 <= i < fewer.len() implies (#[trigger] fewer[i]).content
            == media_content(uuid, media.drop_last()[i]) by {
            assert(fewer[i] == told[i]);
        }
        lemma_told_media(uuid, media.drop_last(), fewer);
        assert(told.last() == told[told.len() - 1]);
        assert(told.last().content == media_content(uuid, media.last()));
    }
}

/// A call is recorded as it was sent: the PCM that a recording collects from the records
/// of a call is that of the audio messages of the peer, all of it, in order and nothing
/// else.
pub proof fn law_recorded_audio_is_the_sent_audio(
    setting: Setting,
    uuid: Seq<u8>,
    media: Seq<Message>,
)
    requires
        uuid.len() == 16,
        setting.capacity >= 16,
        forall|i: int| 0 <= i < media.len() ==> is_media(setting, #[trigger] media[i]),
    ensures
        ({
            let sent = message_frame(Message::Uuid(uuid)) + (message_stream(media) + message_frame(
                Message::Terminate,
            ));
            pcm_part(interpret(setting, Phase::AwaitingUuid, sent, 0).0) == sent_audio(media)
        }),
{
    law_calls_are_told_as_they_were_sent(setting, uuid, media);
    let sent = message_frame(Message::Uuid(uuid)) + (message_stream(media) + message_frame(
        Message::Terminate,
    ));
    let told = interpret(setting, Phase::AwaitingUuid, sent, 0).0;
    let count = media.len() as int;
    let middle = told.subrange(1, 1 + count);
    assert forall|i: int| 0 <= i < media.len() implies (#[trigger] middle[i]).content
        == media_content(uuid, media[i]) by {
        assert(middle[i] == told[i + 1]);
    }
    lemma_told_media(uuid, media, middle);
    let first = told[0];
    let last = told[count + 1];
    law_pcm_is_collected_in_order(seq![first], middle, first);
    law_pcm_is_collected_in_order(seq![first] + middle, seq![last], last);
    assert(told =~= (seq![first] + middle) + seq![last]);
    assert(Seq::<u8>::empty() + pcm_part(middle) =~= pcm_part(middle));
    assert(pcm_part(middle) + Seq::<u8>::empty() =~= pcm_part(middle));
}

} // verus!
