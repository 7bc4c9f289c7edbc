//! One accepted connection: decoder, session and pending output, advanced in turns.
use vstd::prelude::*;

use crate::audio::SampleRate;
use crate::decoder::{behind, front_length, Assembly, Framer};
use crate::envelope::RawEnvelope;
use crate::memory::{law_charges_add_up, total, ByteBudget};
use crate::message::Uuid;
use crate::record::{Content, EndReason, Ending, Observation, Record, RecordKind, WireOffset};
use crate::scheduler::{
    law_parked_tasks_wait, law_woken_tasks_get_a_turn, lemma_joined, lemma_joined_touches, lemma_left, lemma_left_touches, lemma_parked,
    lemma_parked_touches, lemma_quieted, lemma_touches_in_two_steps, lemma_woken,
    lemma_woken_touches, only_touches, Readiness, Scheduler, State, WaitReason,
};
use crate::session::{
    identity_bytes, Event, IncomingEvent, IncomingProfile, IncomingSession, Phase, SessionEnd,
};
use crate::task::{CopyStep, Handoff, Progress, SendStep, TaskContext};
use crate::transcript::{
    byte_count, chunk_course, closing, course, event_meaning, frame_meaning, interpret, joined_bytes,
    lemma_joined_length, transcript, wire_part, ReadEnd, Setting, Standing,
};
use crate::wire_type::WireType;
use std::time::Instant;

verus! {

/// The monotonic clock reading of `std::time::Instant::now`. Nothing is claimed
/// of the value.
pub assume_specification[ std::time::Instant::now ]() -> (now: std::time::Instant);

/// What a connection does once its pending record was handed off.
#[derive(Clone, Copy)]
enum Next {
    Read,
    Decode,
    Finish,
}

/// What a connection is about to do.
#[allow(inconsistent_fields)]
#[derive(Clone, Copy)]
enum Stage {
    Opening,
    Reading,
    CopyingWire { start: u64, observed_at: Instant },
    Decoding,
    Typing { wire_type: WireType, length: usize, offset: u64 },
    CopyingAudio { uuid: Uuid, rate: SampleRate, length: usize, offset: u64, observed_at: Instant },
    CopyingError { uuid: Option<Uuid>, length: usize, offset: u64, observed_at: Instant },
    Sending { wire: u64, terminal: bool, next: Next },
    Finished,
}

/// What a connection asks of its driver.
#[derive(Clone, Copy, Debug, PartialEq, Eq, Structural)]
pub enum Action {
    /// The turn is over: the task is parked or has another turn coming.
    Yield,
    /// Read the socket and report with [`Connection::read_done`].
    Read,
    /// Offer the record of [`Connection::take_record`] to the channel and report
    /// with [`Connection::sent`].
    Send,
    /// The connection is over.
    Done,
}

/// What a socket read came to.
pub enum ReadOutcome<'a> {
    /// Bytes arrived; none at the end of the input.
    Bytes(&'a [u8]),
    /// Nothing can be read yet.
    WouldBlock,
    /// The read was interrupted.
    Interrupted,
    /// The read failed.
    Failed(std::io::Error),
}

/// What the channel did with an offered record.
pub enum SendOutcome {
    /// The record is in the channel.
    Accepted,
    /// The channel was full and gave the record back.
    Full(Record),
    /// The consumer is gone.
    Disconnected,
}

/// Persistent state of one accepted connection.
pub struct Connection {
    context: TaskContext,
    framer: Framer,
    scratch: Vec<u8>,
    session: IncomingSession,
    chunk: Vec<u8>,
    at: usize,
    record: Option<Record>,
    stage: Stage,
    limit: usize,
    chunks: Ghost<Seq<Seq<u8>>>,
    end: Ghost<Option<ReadEnd>>,
    handed: Ghost<Seq<Observation>>,
    pending: Ghost<Observation>,
    lost: Ghost<(Seq<Observation>, Option<Standing>)>,
    alone: Ghost<bool>,
}

impl Connection {
    /// What does not change during the connection.
    pub closed spec fn setting(self) -> Setting {
        Setting {
            peer: self.context.peer_text(),
            rates: self.session.rates(),
            capacity: self.scratch@.len() as usize,
            limit: self.limit,
        }
    }

    /// The task of the connection.
    pub closed spec fn task(self) -> TaskContext {
        self.context
    }

    /// The bytes of every read so far.
    pub closed spec fn chunks(self) -> Seq<Seq<u8>> {
        self.chunks@
    }

    /// How the reads ended, once they did.
    pub closed spec fn end(self) -> Option<ReadEnd> {
        self.end@
    }

    /// The observations that were handed off, in order.
    pub closed spec fn handed(self) -> Seq<Observation> {
        self.handed@
    }

    /// Whether the channel answered that the consumer is gone.
    pub closed spec fn alone(self) -> bool {
        self.alone@
    }

    /// The observations that are still to be handed off, in order, and where the
    /// connection will stand then, if it stays open.
    pub closed spec fn outstanding(self) -> (Seq<Observation>, Option<Standing>) {
        let rest = self.chunk@.subrange(self.at as int, self.chunk@.len() as int);
        let phase = self.session.phase();
        match self.stage {
            Stage::Opening => course(self.setting(), Seq::empty()),
            Stage::Reading => (Seq::empty(), Some(self.standing())),
            Stage::CopyingWire { start, .. } => chunk_course(
                self.setting(),
                self.standing(),
                start as nat,
                self.chunk@,
            ),
            Stage::Decoding => self.decoding(),
            Stage::Typing { wire_type, length, offset } => {
                let (observation, next) = frame_meaning(
                    self.setting(),
                    phase,
                    wire_type@,
                    self.scratch@.subrange(0, length as int),
                    offset as int,
                );
                followed(observation, next, self.setting(), rest, offset as int)
            },
            Stage::CopyingAudio { uuid, rate, length, offset, .. } => {
                let (observation, next) = event_meaning(
                    self.setting(),
                    phase,
                    Event::Audio(uuid@, rate, self.scratch@.subrange(0, length as int)),
                    offset as int,
                );
                followed(observation, next, self.setting(), rest, offset as int)
            },
            Stage::CopyingError { uuid, length, offset, .. } => {
                let (observation, next) = event_meaning(
                    self.setting(),
                    phase,
                    Event::Ended(
                        identity_bytes(uuid),
                        crate::session::End::PeerError(self.scratch@.subrange(0, length as int)),
                    ),
                    offset as int,
                );
                followed(observation, next, self.setting(), rest, offset as int)
            },
            Stage::Sending { next, .. } => match next {
                Next::Read => (seq![self.pending@], Some(self.standing())),
                Next::Decode => (seq![self.pending@] + self.decoding().0, self.decoding().1),
                Next::Finish => (seq![self.pending@], None),
            },
            Stage::Finished => self.lost@,
        }
    }

    /// Where the connection stands between frames.
    spec fn standing(self) -> Standing {
        let pending = self.framer.assembly(self.scratch@)->Pending_0;
        Standing {
            phase: self.session.phase(),
            pending,
            base: self.context.progress.consumed - pending.len(),
        }
    }

    /// What decoding the rest of the chunk comes to.
    spec fn decoding(self) -> (Seq<Observation>, Option<Standing>) {
        let standing = self.standing();
        interpret(
            self.setting(),
            standing.phase,
            standing.pending + self.chunk@.subrange(self.at as int, self.chunk@.len() as int),
            standing.base,
        )
    }

    /// Whether a record waits to be offered to the channel.
    pub closed spec fn sending(self) -> bool {
        self.stage is Sending
    }

    /// The record that waits to be offered, as an observation.
    pub closed spec fn offer(self) -> Observation {
        self.pending@
    }

    /// Whether the waiting record is out to be offered.
    pub closed spec fn offered(self) -> bool {
        self.record is None
    }

    /// The charge entry of the record in hand, if it has one.
    pub closed spec fn held(self) -> Option<(nat, usize)> {
        match self.record {
            Some(record) => record.kind.charge(),
            None => None,
        }
    }

    /// Whether a record is in hand.
    pub closed spec fn keeps_record(self) -> bool {
        self.record is Some
    }

    /// Whether the next thing to do is to read the socket.
    pub closed spec fn reading(self) -> bool {
        self.stage is Reading
    }

    /// Whether a copy into retained storage is to be made, and of how many bytes.
    pub closed spec fn copying(self) -> Option<nat> {
        match self.stage {
            Stage::CopyingWire { .. } => Some(self.chunk@.len()),
            Stage::CopyingAudio { length, .. } => Some(length as nat),
            Stage::CopyingError { length, .. } => Some(length as nat),
            _ => None,
        }
    }

    /// Whether the connection is over.
    pub closed spec fn finished(self) -> bool {
        self.stage is Finished
    }

    /// Steps to the next read or offer, unless a resource is missing.
    pub closed spec fn distance(self) -> nat {
        match self.stage {
            Stage::Opening => 1,
            Stage::Reading => 1,
            Stage::CopyingWire { .. } => 2,
            Stage::Decoding => 4,
            Stage::Typing { .. } => 3,
            Stage::CopyingAudio { .. } => 2,
            Stage::CopyingError { .. } => 2,
            Stage::Sending { .. } => 1,
            Stage::Finished => 0,
        }
    }

    /// Whether the task's requests are those of its stage.
    pub closed spec fn admitted(self, readiness: Readiness) -> bool {
        let token = self.context.name();
        &&& readiness.states.contains_key(token)
        &&& readiness.queue_requests.contains(token) ==> self.stage is Sending
        &&& readiness.byte_requests.contains(token) ==> self.copying() is Some
    }
}

/// The wire bytes in some observations.
pub open spec fn wire_bytes(observations: Seq<Observation>) -> nat
    decreases observations.len(),
{
    if observations.len() == 0 {
        0
    } else {
        wire_bytes(observations.drop_last()) + wire_length(observations.last())
    }
}

/// The wire bytes in one observation.
pub open spec fn wire_length(observation: Observation) -> nat {
    match observation.content {
        Content::Wire(bytes) => bytes.len(),
        _ => 0,
    }
}

/// The bytes of the reads that the counters can hold: of all, unless the last one went
/// beyond their range.
pub open spec fn fitted(chunks: Seq<Seq<u8>>) -> nat {
    if byte_count(chunks) <= u64::MAX {
        byte_count(chunks)
    } else {
        byte_count(chunks.drop_last())
    }
}

impl Connection {
    /// The counters say what was read and handed off, and are marked as overflown only
    /// where one is full.
    spec fn counted(self) -> bool {
        let progress = self.context.progress;
        &&& progress.read == fitted(self.chunks@)
        &&& progress.counter_overflow ==> byte_count(self.chunks@) > u64::MAX
            || progress.records_queued == u64::MAX
        &&& progress.records_queued == self.handed@.len()
        &&& progress.wire_queued == wire_bytes(self.handed@)
        &&& progress.terminal_queued == (self.handed@.len() > 0
            && self.handed@.last().content is Ended)
        &&& progress.wire_queued <= progress.read
        &&& progress.consumed <= progress.read
    }

    /// The bytes in hand are those of the stage.
    spec fn staged(self) -> bool {
        let progress = self.context.progress;
        let left = self.chunk@.len() - self.at;
        let assembly = self.framer.assembly(self.scratch@);
        match self.stage {
            Stage::Opening => {
                &&& progress == Progress::none()
                &&& self.chunks@.len() == 0
                &&& self.end@ is None
                &&& self.handed@.len() == 0
                &&& assembly == Assembly::Pending(Seq::<u8>::empty())
                &&& self.session.phase() is AwaitingUuid
                &&& left == 0
            },
            Stage::Reading => {
                &&& self.end@ is None
                &&& !progress.terminal_queued
                &&& assembly is Pending
                &&& progress.consumed == progress.read
                &&& progress.read == byte_count(self.chunks@)
            },
            Stage::CopyingWire { start, .. } => {
                &&& self.end@ is None
                &&& !progress.terminal_queued
                &&& assembly is Pending
                &&& self.at == 0
                &&& self.chunk@.len() > 0
                &&& start + self.chunk@.len() == progress.read
                &&& progress.consumed == start
                &&& progress.wire_queued + self.chunk@.len() <= progress.read
                &&& progress.read == byte_count(self.chunks@)
            },
            Stage::Decoding => {
                &&& self.end@ is None
                &&& !progress.terminal_queued
                &&& assembly is Pending
                &&& progress.consumed + left == progress.read
                &&& progress.read == byte_count(self.chunks@)
            },
            Stage::Typing { length, offset, .. } => {
                &&& self.end@ is None
                &&& !progress.terminal_queued
                &&& assembly == Assembly::Pending(Seq::<u8>::empty())
                &&& length <= self.scratch@.len()
                &&& length <= 65_535
                &&& offset == progress.consumed
                &&& progress.consumed + left == progress.read
                &&& progress.read == byte_count(self.chunks@)
            },
            Stage::CopyingAudio { length, offset, .. } => {
                &&& self.end@ is None
                &&& !progress.terminal_queued
                &&& assembly == Assembly::Pending(Seq::<u8>::empty())
                &&& length <= self.scratch@.len()
                &&& offset == progress.consumed
                &&& progress.consumed + left == progress.read
                &&& progress.read == byte_count(self.chunks@)
            },
            Stage::CopyingError { length, offset, .. } => {
                &&& self.end@ is None
                &&& !progress.terminal_queued
                &&& length <= self.scratch@.len()
                &&& offset == progress.consumed
            },
            Stage::Sending { wire, terminal, next } => {
                &&& progress.pending_record
                &&& !progress.terminal_queued
                &&& wire == wire_length(self.pending@)
                &&& progress.wire_queued + wire <= progress.read
                &&& terminal == self.pending@.content is Ended
                &&& terminal == (next is Finish)
                &&& !(next is Finish) ==> {
                    &&& self.end@ is None
                    &&& assembly is Pending
                    &&& progress.consumed + left == progress.read
                    &&& next is Read ==> left == 0
                    &&& progress.read == byte_count(self.chunks@)
                }
                &&& self.record is None ==> progress.records_queued < u64::MAX
                &&& self.record matches Some(record) ==> {
                    &&& record@ == self.pending@
                    &&& record.connection == self.context.connection()
                }
            },
            Stage::Finished => {
                &&& self.record matches Some(record) ==> record@ == self.pending@
                &&& self.lost@.0.len() > 0 ==> self.alone@ || progress.records_queued == u64::MAX
            },
        }
    }

    /// The state is sound: what was handed off and what is outstanding together
    /// are the transcript of what was read.
    #[verifier::opaque]
    pub closed spec fn wf(self) -> bool {
        &&& self.framer.wf(self.scratch@, false)
        &&& self.at <= self.chunk@.len()
        &&& self.framer.assembly(self.scratch@) matches Assembly::Pending(pending)
            ==> pending.len() <= self.context.progress.consumed
        &&& self.counted()
        &&& self.staged()
        &&& !(self.stage is Sending) && !(self.stage is Finished) ==> {
            &&& self.record is None
            &&& !self.context.progress.pending_record
        }
        &&& transcript(self.setting(), self.chunks@, self.end@) == (
            self.handed@ + self.outstanding().0,
            self.outstanding().1,
        )
    }

    /// Creates a connection that has not announced itself yet, for a decoder with
    /// room for bodies of `payload_capacity` bytes and a byte budget that can
    /// retain `limit` bytes.
    #[must_use]
    pub fn new(
        context: TaskContext,
        payload_capacity: usize,
        profile: IncomingProfile,
        limit: usize,
    ) -> (connection: Connection)
        requires
            context.progress == Progress::none(),
        ensures
            connection.wf(),
            connection.task() == context,
            connection.setting() == (Setting {
                peer: context.peer_text(),
                rates: profile@,
                capacity: payload_capacity,
                limit,
            }),
            connection.chunks() == Seq::<Seq<u8>>::empty(),
            connection.end() is None,
            connection.handed() == Seq::<Observation>::empty(),
            !connection.alone(),
            !connection.finished(),
            !connection.sending(),
    {
        proof {
            reveal(Connection::wf);
        }
        let scratch: Vec<u8> = vec![0; payload_capacity];
        let connection = Connection {
            context,
            framer: Framer::new(),
            scratch,
            session: IncomingSession::with_profile(profile),
            chunk: Vec::new(),
            at: 0,
            record: None,
            stage: Stage::Opening,
            limit,
            chunks: Ghost(Seq::empty()),
            end: Ghost(None),
            handed: Ghost(Seq::empty()),
            pending: Ghost(Observation { offset: 0, content: Content::Wire(Seq::empty()) }),
            lost: Ghost((Seq::empty(), None)),
            alone: Ghost(false),
        };
        proof {
            let observations = course(connection.setting(), Seq::empty()).0;
            assert(Seq::<Observation>::empty() + observations =~= observations);
        }
        connection
    }

    /// Everything but the stage, the record and the counters is that of `other`.
    spec fn same_history(self, other: Connection) -> bool {
        &&& self.chunks@ == other.chunks@
        &&& self.end@ == other.end@
        &&& self.handed@ == other.handed@
        &&& self.alone@ == other.alone@
        &&& self.setting() == other.setting()
        &&& self.context.same_task(other.context)
    }

    /// Puts a record up for handoff.
    fn put_up(&mut self, offset: u64, observed_at: Instant, kind: RecordKind, next: Next)
        requires
            !(old(self).stage is Sending),
            old(self).record is None,
        ensures
            final(self).same_history(*old(self)),
            final(self).context.steps() == old(self).context.steps(),
            final(self).context.progress == (Progress {
                pending_record: true,
                ..old(self).context.progress
            }),
            final(self).framer == old(self).framer,
            final(self).scratch == old(self).scratch,
            final(self).session == old(self).session,
            final(self).chunk == old(self).chunk,
            final(self).at == old(self).at,
            final(self).lost == old(self).lost,
            final(self).limit == old(self).limit,
            final(self).pending@ == (Observation { offset: offset as int, content: kind@ }),
            final(self).record matches Some(record) && record@ == final(self).pending@
                && record.connection == old(self).context.connection(),
            final(self).held() == kind.charge(),
            final(self).stage == (Stage::Sending {
                wire: wire_length(final(self).pending@) as u64,
                terminal: kind@ is Ended,
                next,
            }),
            wire_length(final(self).pending@) <= u64::MAX,
    {
        let wire: u64 = match &kind {
            RecordKind::Wire { bytes } => bytes.as_slice().len() as u64,
            _ => 0,
        };
        let terminal: bool = matches!(&kind, RecordKind::Ended { .. });
        let ghost content = kind@;
        self.context.start_send();
        self.record = Some(
            Record {
                connection: self.context.id(),
                offset: WireOffset::new(offset),
                observed_at,
                kind,
            },
        );
        self.stage = Stage::Sending { wire, terminal, next };
        proof {
            self.pending@ = Observation { offset: offset as int, content };
        }
    }
}

impl Connection {
    /// Feeds the rest of the chunk to the decoder, up to the end of one frame;
    /// returns whether the turn goes on.
    #[verifier::rlimit(60)]
    fn decode(&mut self, scheduler: &mut Scheduler) -> (on: bool)
        requires
            old(self).wf(),
            old(self).stage is Decoding,
            old(self).at < old(self).chunk@.len(),
            old(scheduler).wf(),
            old(self).admitted(old(scheduler)@),
        ensures
            final(self).wf(),
            final(self).same_history(*old(self)),
            final(scheduler).wf(),
            final(self).admitted(final(scheduler)@),
            final(self).held() == old(self).held(),
            final(self).context.progress == (Progress {
                consumed: final(self).context.progress.consumed,
                pending_record: final(self).context.progress.pending_record,
                ..old(self).context.progress
            }),
            old(self).context.progress.consumed <= final(self).context.progress.consumed,
            on == (old(self).context.steps() > 0),
            on ==> {
                &&& final(scheduler)@ == old(scheduler)@
                &&& final(self).context.steps() == old(self).context.steps() - 1
                &&& final(self).stage is Reading || final(self).stage is Typing
                    || final(self).stage is Sending
                &&& final(self).stage is Sending ==> final(self).record is Some
            },
            !on ==> {
                &&& *final(self) == *old(self)
                &&& final(scheduler)@ == old(scheduler)@.woken(old(self).context.name())
            },
    {
        proof {
            reveal(Connection::wf);
        }
        let ghost before = *self;
        if !self.context.permit(scheduler) {
            assert(self.context == before.context);
            return false;
        }
        let ghost setting = self.setting();
        let ghost standing = self.standing();
        let ghost rest = self.chunk@.subrange(self.at as int, self.chunk@.len() as int);
        let ghost bytes = standing.pending + rest;
        let size: usize = self.chunk.len();
        let mut input: &[u8] = &self.chunk.as_slice()[self.at..size];
        assert(input@ == rest);
        let result = self.framer.feed(self.scratch.as_mut_slice(), &mut input, false);
        let left: usize = input.len();
        let count: usize = size - self.at - left;
        self.at = size - left;
        assert(self.scratch@.len() == before.scratch@.len());
        assert(self.setting() == setting);
        assert(input@ == behind(bytes, setting.capacity, false));
        assert(self.chunk@.subrange(self.at as int, size as int) =~= behind(
            bytes,
            setting.capacity,
            false,
        ));
        let offset: u64 = match self.context.consume(count) {
            Ok(offset) => offset,
            Err(_) => self.context.offset(),
        };
        assert(offset == standing.base + front_length(bytes, setting.capacity, false));
        match result {
            Ok(None) => {
                self.stage = Stage::Reading;
                assert(self.outstanding() == before.outstanding());
            },
            Err(error) => {
                let uuid = self.session.identity();
                self.put_up(
                    offset,
                    Instant::now(),
                    RecordKind::Ended { uuid, reason: EndReason::Decode(error) },
                    Next::Finish,
                );
                assert(self.outstanding() == before.outstanding());
            },
            Ok(Some(frame)) => {
                self.stage = Stage::Typing {
                    wire_type: frame.wire_type,
                    length: frame.length,
                    offset,
                };
                assert(self.outstanding() == before.outstanding());
            },
        }
        true
    }
}

impl Connection {
    /// Converts the frame in the scratch storage and applies the session policy;
    /// returns whether the turn goes on.
    #[verifier::rlimit(60)]
    fn convert(&mut self, scheduler: &mut Scheduler) -> (on: bool)
        requires
            old(self).wf(),
            old(self).stage is Typing,
            old(scheduler).wf(),
            old(self).admitted(old(scheduler)@),
        ensures
            final(self).wf(),
            final(self).same_history(*old(self)),
            final(scheduler).wf(),
            final(self).admitted(final(scheduler)@),
            final(self).held() == old(self).held(),
            final(self).context.progress == (Progress {
                consumed: final(self).context.progress.consumed,
                pending_record: final(self).context.progress.pending_record,
                ..old(self).context.progress
            }),
            old(self).context.progress.consumed <= final(self).context.progress.consumed,
            on == (old(self).context.steps() > 0),
            on ==> {
                &&& final(scheduler)@ == old(scheduler)@
                &&& final(self).context.steps() == old(self).context.steps() - 1
                &&& final(self).copying() is Some || final(self).stage is Sending
                &&& final(self).stage is Sending ==> final(self).record is Some
            },
            !on ==> {
                &&& *final(self) == *old(self)
                &&& final(scheduler)@ == old(scheduler)@.woken(old(self).context.name())
            },
    {
        proof {
            reveal(Connection::wf);
        }
        let ghost before = *self;
        if !self.context.permit(scheduler) {
            return false;
        }
        let (wire_type, length, offset) = match self.stage {
            Stage::Typing { wire_type, length, offset } => (wire_type, length, offset),
            _ => return true,
        };
        let ghost setting = self.setting();
        let uuid = self.session.identity();
        let raw = RawEnvelope::from_wire_bounded(wire_type, &self.scratch.as_slice()[0..length]);
        let message = match raw.typed() {
            Ok(message) => message,
            Err(error) => {
                self.put_up(
                    offset,
                    Instant::now(),
                    RecordKind::Ended { uuid, reason: EndReason::InvalidMessage(error) },
                    Next::Finish,
                );
                assert(self.outstanding() == before.outstanding());
                return true;
            },
        };
        let event = self.session.receive(message);
        let observed_at = Instant::now();
        assert(self.setting() == setting);
        match event {
            Err(error) => {
                self.put_up(
                    offset,
                    observed_at,
                    RecordKind::Ended { uuid, reason: EndReason::Policy(error) },
                    Next::Finish,
                );
                assert(self.outstanding() == before.outstanding());
            },
            Ok(IncomingEvent::Started(uuid)) => {
                self.put_up(offset, observed_at, RecordKind::Started { uuid }, Next::Decode);
                proof {
                    self.lemma_decoding_starts_at_boundary();
                }
                assert(self.outstanding() == before.outstanding());
            },
            Ok(IncomingEvent::Dtmf { uuid, digit }) => {
                self.put_up(offset, observed_at, RecordKind::Dtmf { uuid, digit }, Next::Decode);
                proof {
                    self.lemma_decoding_starts_at_boundary();
                }
                assert(self.outstanding() == before.outstanding());
            },
            Ok(IncomingEvent::Audio { uuid, rate, .. }) => {
                self.stage = Stage::CopyingAudio { uuid, rate, length, offset, observed_at };
                assert(self.outstanding() == before.outstanding());
            },
            Ok(IncomingEvent::Ended { uuid, reason: SessionEnd::Terminate }) => {
                self.put_up(
                    offset,
                    observed_at,
                    RecordKind::Ended { uuid, reason: EndReason::Terminate },
                    Next::Finish,
                );
                assert(self.outstanding() == before.outstanding());
            },
            Ok(IncomingEvent::Ended { uuid, reason: SessionEnd::PeerError(_) }) => {
                self.stage = Stage::CopyingError { uuid, length, offset, observed_at };
                assert(self.outstanding() == before.outstanding());
            },
            Ok(IncomingEvent::Ended { uuid, reason: SessionEnd::EndOfInput }) => {
                self.put_up(
                    offset,
                    observed_at,
                    RecordKind::Ended { uuid, reason: EndReason::CleanEof },
                    Next::Finish,
                );
                assert(self.outstanding() == before.outstanding());
            },
        }
        true
    }

    /// With no frame begun, decoding goes on with the rest of the chunk.
    proof fn lemma_decoding_starts_at_boundary(self)
        requires
            self.framer.assembly(self.scratch@) == Assembly::Pending(Seq::<u8>::empty()),
        ensures
            self.decoding() == interpret(
                self.setting(),
                self.session.phase(),
                self.chunk@.subrange(self.at as int, self.chunk@.len() as int),
                self.context.progress.consumed as int,
            ),
    {
        let rest = self.chunk@.subrange(self.at as int, self.chunk@.len() as int);
        assert(Seq::<u8>::empty() + rest =~= rest);
    }
}

impl Connection {
    /// Makes the copy that the stage calls for; returns whether the turn goes on.
    #[verifier::rlimit(60)]
    fn copy_out(&mut self, scheduler: &mut Scheduler, budget: &mut ByteBudget) -> (on: bool)
        requires
            old(self).wf(),
            old(self).copying() is Some,
            old(scheduler).wf(),
            old(budget).wf(),
            old(budget).limit() == old(self).limit,
            old(self).admitted(old(scheduler)@),
            !(old(scheduler)@.states[old(self).context.name()] is Waiting),
        ensures
            final(self).wf(),
            final(self).same_history(*old(self)),
            final(scheduler).wf(),
            only_touches(old(scheduler)@, final(scheduler)@, old(self).task().name()),
            final(budget).wf(),
            final(budget).limit() == old(budget).limit(),
            final(budget).subscription() == old(budget).subscription(),
            old(self).held() is None,
            final(self).context.progress == (Progress {
                consumed: final(self).context.progress.consumed,
                pending_record: final(self).context.progress.pending_record,
                ..old(self).context.progress
            }),
            old(self).context.progress.consumed <= final(self).context.progress.consumed,
            final(self).admitted(final(scheduler)@),
            final(self).copied_as(
                *old(self),
                old(scheduler)@,
                final(scheduler)@,
                *old(budget),
                *final(budget),
                on,
            ),
            on ==> final(self).stage is Sending && final(self).record is Some
                && !(final(scheduler)@.states[old(self).context.name()] is Waiting),
            !on ==> final(self).stage == old(self).stage && final(self).copying() == old(self).copying(),
    {
        proof {
            reveal(Connection::wf);
        }
        let ghost before = *self;
        let ghost token = self.context.name();
        let ghost readiness = scheduler@;
        let ghost joined = readiness.joined(WaitReason::Bytes, token);
        proof {
            scheduler.lemma_contents_are_valid();
            lemma_joined(readiness, WaitReason::Bytes, token);
            lemma_left(joined, WaitReason::Bytes, token);
            lemma_left(readiness, WaitReason::Bytes, token);
            lemma_woken(readiness, token);
            lemma_own_parking(joined, token, WaitReason::Bytes);
            lemma_woken_touches(readiness, token, token);
            lemma_left_touches(readiness, WaitReason::Bytes, token);
            lemma_joined_touches(readiness, WaitReason::Bytes, token);
            lemma_left_touches(joined, WaitReason::Bytes, token);
            lemma_parked_touches(joined, token, WaitReason::Bytes);
            lemma_touches_in_two_steps(
                readiness,
                joined,
                joined.left(WaitReason::Bytes, token),
                token,
            );
            lemma_touches_in_two_steps(
                readiness,
                joined,
                joined.parked(token, WaitReason::Bytes),
                token,
            );
        }
        match self.stage {
            Stage::CopyingWire { start, observed_at } => {
                match self.context.copy(scheduler, budget, self.chunk.as_slice()) {
                    CopyStep::Pending => false,
                    CopyStep::Ready(Ok(bytes)) => {
                        self.put_up(start, observed_at, RecordKind::Wire { bytes }, Next::Decode);
                        assert(self.chunk@.subrange(0, self.chunk@.len() as int) =~= self.chunk@);
                        assert(self.outstanding() == before.outstanding());
                        true
                    },
                    CopyStep::Ready(Err(error)) => {
                        let uuid = self.session.identity();
                        self.put_up(
                            start,
                            Instant::now(),
                            RecordKind::Ended { uuid, reason: EndReason::ResourceRefused(error) },
                            Next::Finish,
                        );
                        assert(self.outstanding() == before.outstanding());
                        true
                    },
                }
            },
            Stage::CopyingAudio { uuid, rate, length, offset, observed_at } => {
                match self.context.copy(scheduler, budget, &self.scratch.as_slice()[0..length]) {
                    CopyStep::Pending => false,
                    CopyStep::Ready(Ok(bytes)) => {
                        self.put_up(
                            offset,
                            observed_at,
                            RecordKind::Audio { uuid, rate, bytes },
                            Next::Decode,
                        );
                        proof {
                            self.lemma_decoding_starts_at_boundary();
                        }
                        assert(self.outstanding() == before.outstanding());
                        true
                    },
                    CopyStep::Ready(Err(error)) => {
                        self.put_up(
                            offset,
                            observed_at,
                            RecordKind::Ended {
                                uuid: Some(uuid),
                                reason: EndReason::ResourceRefused(error),
                            },
                            Next::Finish,
                        );
                        assert(self.outstanding() == before.outstanding());
                        true
                    },
                }
            },
            Stage::CopyingError { uuid, length, offset, observed_at } => {
                match self.context.copy(scheduler, budget, &self.scratch.as_slice()[0..length]) {
                    CopyStep::Pending => false,
                    CopyStep::Ready(Ok(bytes)) => {
                        self.put_up(
                            offset,
                            observed_at,
                            RecordKind::Ended { uuid, reason: EndReason::PeerError(bytes) },
                            Next::Finish,
                        );
                        assert(self.outstanding() == before.outstanding());
                        true
                    },
                    CopyStep::Ready(Err(error)) => {
                        self.put_up(
                            offset,
                            observed_at,
                            RecordKind::Ended { uuid, reason: EndReason::ResourceRefused(error) },
                            Next::Finish,
                        );
                        assert(self.outstanding() == before.outstanding());
                        true
                    },
                }
            },
            _ => true,
        }
    }

    /// How a copy attempt went: without a step the next turn is scheduled; without
    /// credit, or behind an older request, the task is parked for bytes; else the
    /// stage is done.
    pub closed spec fn copied_as(
        self,
        old: Connection,
        readiness: Readiness,
        then: Readiness,
        budget: ByteBudget,
        spent: ByteBudget,
        on: bool,
    ) -> bool {
        let token = old.context.name();
        let joined = readiness.joined(WaitReason::Bytes, token);
        let required = old.copying()->0;
        if old.context.steps() == 0 {
            &&& !on
            &&& self == old
            &&& then == readiness.woken(token)
            &&& spent.retained() == budget.retained()
        } else {
            &&& self.context.steps() == old.context.steps() - 1
            &&& on == (required > budget.limit() || (joined.byte_requests[0] == token && total(
                budget.retained(),
            ) + required <= budget.limit()))
            &&& !on ==> {
                &&& then == joined.parked(token, WaitReason::Bytes)
                &&& spent.retained() == budget.retained()
                &&& self.held() == old.held()
                &&& self.context.progress == old.context.progress
            }
            &&& on && required > budget.limit() ==> {
                &&& then == readiness.left(WaitReason::Bytes, token)
                &&& spent.retained() == budget.retained()
                &&& self.held() == old.held()
            }
            &&& on && required <= budget.limit() ==> {
                &&& then == joined.left(WaitReason::Bytes, token)
                &&& self.held() is Some
                &&& spent.retained() == budget.retained().push(self.held()->0)
                &&& (self.held()->0).1 == self.offer().content.retained_bytes()
            }
        }
    }
}

/// Whether an account was charged for nothing, or for the bytes of the record that
/// has come to hand.
pub open spec fn charged_once(
    before: ByteBudget,
    after: ByteBudget,
    held: Option<(nat, usize)>,
    then: Option<(nat, usize)>,
) -> bool {
    ||| after.retained() == before.retained() && then == held
    ||| held is None && then is Some && after.retained() == before.retained().push(then->0)
}

/// A task that parks for a resource has the request for it, and no other.
proof fn lemma_own_parking(readiness: Readiness, token: usize, reason: WaitReason)
    requires
        readiness.valid(),
        readiness.states.contains_key(token),
    ensures
        readiness.parked(token, reason).capacity == readiness.capacity,
        readiness.parked(token, reason).states.dom() == readiness.states.dom(),
        reason is Queue || reason is Bytes ==> readiness.parked(token, reason).requests(
            reason,
        ).contains(token),
        reason is Queue ==> !readiness.parked(token, reason).byte_requests.contains(token),
        reason is Bytes ==> !readiness.parked(token, reason).queue_requests.contains(token),
        reason is Kernel ==> !readiness.parked(token, reason).byte_requests.contains(token)
            && !readiness.parked(token, reason).queue_requests.contains(token),
{
    let quiet = if readiness.states[token] is Notified {
        readiness
    } else {
        readiness.quieted(token)
    };
    lemma_quieted(readiness, token);
    lemma_left(quiet, WaitReason::Queue, token);
    lemma_left(quiet, WaitReason::Bytes, token);
    let one = quiet.left(WaitReason::Queue, token);
    let other = quiet.left(WaitReason::Bytes, token);
    lemma_left(one, WaitReason::Bytes, token);
    let both = one.left(WaitReason::Bytes, token);
    assert(both.requests(WaitReason::Queue) == one.requests(WaitReason::Queue));
    assert(!one.requests(WaitReason::Queue).contains(token));
    assert(!other.requests(WaitReason::Bytes).contains(token));
    lemma_joined(one, WaitReason::Bytes, token);
    lemma_joined(other, WaitReason::Queue, token);
    let after = readiness.parked(token, reason);
    assert(after.states.dom() =~= readiness.states.dom());
}

impl Connection {
    /// Whether observations were given up because they could not be handed off.
    pub closed spec fn cut_off(self) -> bool {
        self.stage is Finished && self.lost@.0.len() > 0
    }

    /// Everything that was read and handed off is as in `other`.
    pub open spec fn same_past(self, other: Connection) -> bool {
        &&& self.chunks() == other.chunks()
        &&& self.end() == other.end()
        &&& self.handed() == other.handed()
        &&& self.alone() == other.alone()
        &&& self.setting() == other.setting()
        &&& self.task().same_task(other.task())
    }

    /// Whether the turn ended for want of steps, after as many were put to use.
    pub open spec fn out_of_steps(self, old: Connection, readiness: Readiness) -> bool {
        &&& self.task().steps() == 0
        &&& self.distance() + old.task().steps() <= old.distance()
        &&& readiness.turns.contains(self.task().name())
    }

    /// Whether the turn ended because the task has to wait for byte credit: its
    /// copy does not fit now, or an older request comes first.
    pub open spec fn out_of_bytes(self, readiness: Readiness, budget: ByteBudget) -> bool {
        let token = self.task().name();
        &&& self.copying() matches Some(required)
        &&& required <= budget.limit()
        &&& readiness.byte_requests.contains(token)
        &&& readiness.byte_requests[0] != token || total(budget.retained()) + required
            > budget.limit()
        &&& readiness.states[token] == State::Waiting(WaitReason::Bytes)
            || readiness.turns.contains(token)
    }

    /// Whether the turn ended because an older request for a queue slot comes first.
    pub open spec fn out_of_slots(self, readiness: Readiness) -> bool {
        let token = self.task().name();
        &&& self.sending()
        &&& !self.offered()
        &&& readiness.queue_requests.contains(token)
        &&& readiness.queue_requests[0] != token
        &&& readiness.states[token] == State::Waiting(WaitReason::Queue)
            || readiness.turns.contains(token)
    }

    /// Gives up everything outstanding, and keeps the record in hand so that its
    /// bytes can be released.
    fn give_up(&mut self)
        requires
            old(self).wf(),
            old(self).stage is Sending,
            old(self).alone@ || old(self).context.progress.records_queued == u64::MAX,
        ensures
            final(self).stage is Finished,
            final(self).same_history(*old(self)),
            final(self).context == old(self).context,
            final(self).record == old(self).record,
            final(self).pending == old(self).pending,
            final(self).cut_off(),
            final(self).wf(),
    {
        proof {
            reveal(Connection::wf);
        }
        let ghost before = *self;
        self.stage = Stage::Finished;
        proof {
            self.lost@ = before.outstanding();
        }
    }

    /// Asks whether the waiting record may be offered now.
    fn ask(&mut self, scheduler: &mut Scheduler) -> (action: Action)
        requires
            old(self).wf(),
            old(self).stage is Sending,
            old(self).record is Some,
            old(scheduler).wf(),
            old(self).admitted(old(scheduler)@),
            !(old(scheduler)@.states[old(self).context.name()] is Waiting),
        ensures
            final(self).wf(),
            final(self).same_history(*old(self)),
            final(scheduler).wf(),
            only_touches(old(scheduler)@, final(scheduler)@, old(self).task().name()),
            final(self).admitted(final(scheduler)@),
            final(self).held() == old(self).held(),
            final(self).offer() == old(self).offer(),
            final(self).context.steps() <= old(self).context.steps(),
            match action {
                Action::Yield => if old(self).context.steps() == 0 {
                    &&& *final(self) == *old(self)
                    &&& final(scheduler)@ == old(scheduler)@.woken(old(self).context.name())
                } else {
                    &&& final(self).context.progress == old(self).context.progress
                    &&& final(self).out_of_slots(final(scheduler)@)
                },
                Action::Send => {
                    let token = old(self).context.name();
                    &&& final(self).sending()
                    &&& !final(self).offered()
                    &&& final(self).context.progress == old(self).context.progress
                    &&& final(self).context.progress.records_queued < u64::MAX
                    &&& final(self).context.steps() < old(self).context.steps()
                    &&& final(scheduler)@.queue_requests.contains(token)
                    &&& final(scheduler)@.queue_requests[0] == token
                    &&& !(final(scheduler)@.states[token] is Waiting)
                },
                Action::Done => {
                    &&& final(self).cut_off()
                    &&& final(self).context.progress == (Progress {
                        counter_overflow: true,
                        ..old(self).context.progress
                    })
                    &&& final(self).context.progress.records_queued == u64::MAX
                },
                Action::Read => false,
            },
    {
        proof {
            reveal(Connection::wf);
        }
        let ghost before = *self;
        let ghost token = self.context.name();
        let ghost readiness = scheduler@;
        let ghost joined = readiness.joined(WaitReason::Queue, token);
        proof {
            scheduler.lemma_contents_are_valid();
            lemma_joined(readiness, WaitReason::Queue, token);
            lemma_left(readiness, WaitReason::Queue, token);
            lemma_woken(readiness, token);
            lemma_own_parking(joined, token, WaitReason::Queue);
            lemma_woken_touches(readiness, token, token);
            lemma_left_touches(readiness, WaitReason::Queue, token);
            lemma_joined_touches(readiness, WaitReason::Queue, token);
            lemma_parked_touches(joined, token, WaitReason::Queue);
            lemma_touches_in_two_steps(
                readiness,
                joined,
                joined.parked(token, WaitReason::Queue),
                token,
            );
        }
        match self.context.admit_send(scheduler) {
            SendStep::Pending => {
                proof {
                    if before.context.steps() > 0 {
                        lemma_parking_keeps_its_request(joined, token, WaitReason::Queue);
                    }
                }
                Action::Yield
            },
            SendStep::Try => Action::Send,
            _ => {
                self.give_up();
                Action::Done
            },
        }
    }
}

/// Parking for a resource that was requested already changes no request for it.
proof fn lemma_parking_keeps_its_request(readiness: Readiness, token: usize, reason: WaitReason)
    requires
        readiness.valid(),
        readiness.states.contains_key(token),
        readiness.requests(reason).contains(token),
    ensures
        readiness.parked(token, reason).requests(reason) == readiness.requests(reason),
        readiness.parked(token, reason).states[token] == State::Waiting(reason)
            || readiness.parked(token, reason).turns.contains(token),
{
    let quiet = if readiness.states[token] is Notified {
        readiness
    } else {
        readiness.quieted(token)
    };
    lemma_quieted(readiness, token);
    lemma_left(quiet, WaitReason::Queue, token);
    lemma_left(quiet, WaitReason::Bytes, token);
    assert(quiet.requests(reason) == readiness.requests(reason));
    assert(quiet.left(WaitReason::Bytes, token).requests(WaitReason::Queue) == quiet.requests(
        WaitReason::Queue,
    ));
    assert(quiet.left(WaitReason::Queue, token).requests(WaitReason::Bytes) == quiet.requests(
        WaitReason::Bytes,
    ));
    lemma_parked(readiness, token, reason);
    let after = readiness.parked(token, reason);
    if after.states[token] is Queued {
        assert(after.turns.contains(token));
    }
}

impl Connection {
    /// Returns the task of the connection.
    #[must_use]
    pub fn context(&self) -> (context: &TaskContext)
        ensures
            *context == self.task(),
    {
        &self.context
    }

    /// Starts a turn of that many steps.
    pub fn reset_turn(&mut self, steps: usize)
        ensures
            final(self).same_past(*old(self)),
            final(self).wf() == old(self).wf(),
            final(self).task().steps() == steps,
            final(self).task().progress == old(self).task().progress,
            final(self).same_work(*old(self)),
    {
        proof {
            reveal(Connection::wf);
        }
        self.context.reset_turn(steps);
        assert(self.outstanding() == old(self).outstanding());
    }

    /// The work in hand is that of `other`.
    pub open spec fn same_work(self, other: Connection) -> bool {
        &&& self.outstanding() == other.outstanding()
        &&& self.sending() == other.sending()
        &&& self.offer() == other.offer()
        &&& self.offered() == other.offered()
        &&& self.held() == other.held()
        &&& self.keeps_record() == other.keeps_record()
        &&& self.reading() == other.reading()
        &&& self.copying() == other.copying()
        &&& self.finished() == other.finished()
        &&& self.cut_off() == other.cut_off()
        &&& self.distance() == other.distance()
        &&& forall|readiness: Readiness| #[trigger]
            self.admitted(readiness) == other.admitted(readiness)
    }

    /// Puts up the announcement of a new connection, and leaves a chunk that was
    /// decoded to its end.
    fn come_to_work(&mut self)
        requires
            old(self).wf(),
            old(self).sending() ==> !old(self).offered(),
        ensures
            final(self).wf(),
            final(self).same_history(*old(self)),
            final(self).held() == old(self).held(),
            final(self).context.progress == (Progress {
                consumed: final(self).context.progress.consumed,
                pending_record: final(self).context.progress.pending_record,
                ..old(self).context.progress
            }),
            old(self).context.progress.consumed <= final(self).context.progress.consumed,
            final(self).context.steps() == old(self).context.steps(),
            !(final(self).stage is Opening),
            final(self).stage is Decoding ==> final(self).at < final(self).chunk@.len(),
            final(self).stage is Sending ==> final(self).record is Some,
            final(self).distance() <= old(self).distance(),
            (final(self).stage is Finished) == (old(self).stage is Finished),
            forall|readiness: Readiness| #[trigger]
                old(self).admitted(readiness) ==> final(self).admitted(readiness),
    {
        proof {
            reveal(Connection::wf);
        }
        let ghost before = *self;
        match self.stage {
            Stage::Opening => {
                let peer = self.context.peer();
                self.put_up(0, Instant::now(), RecordKind::Connected { peer }, Next::Read);
                proof {
                    assert(self.outstanding().0 =~= before.outstanding().0);
                    assert(self.outstanding() == before.outstanding());
                }
            },
            Stage::Decoding => {
                let size: usize = self.scratch.len();
                if self.at == self.chunk.len() {
                    proof {
                        self.framer.lemma_pending_is_incomplete(self.scratch@, false);
                        let pending = self.standing().pending;
                        assert(pending + self.chunk@.subrange(
                            self.at as int,
                            self.chunk@.len() as int,
                        ) =~= pending);
                        assert(size == self.scratch@.len());
                    }
                    self.stage = Stage::Reading;
                    assert(self.outstanding() == before.outstanding());
                }
            },
            _ => {},
        }
    }

    /// Uses a step for a read of the socket.
    fn may_read(&mut self, scheduler: &mut Scheduler) -> (permitted: bool)
        requires
            old(self).wf(),
            old(self).stage is Reading,
            old(scheduler).wf(),
        ensures
            final(self).wf(),
            final(self).same_history(*old(self)),
            final(self).stage is Reading,
            final(self).held() == old(self).held(),
            final(self).context.progress == old(self).context.progress,
            final(scheduler).wf(),
            permitted == (old(self).context.steps() > 0),
            permitted ==> {
                &&& final(scheduler)@ == old(scheduler)@
                &&& final(self).context.steps() == old(self).context.steps() - 1
            },
            !permitted ==> {
                &&& *final(self) == *old(self)
                &&& final(scheduler)@ == old(scheduler)@.woken(old(self).context.name())
            },
    {
        proof {
            reveal(Connection::wf);
        }
        let ghost before = *self;
        let permitted: bool = self.context.permit(scheduler);
        assert(self.outstanding() == before.outstanding());
        permitted
    }

    /// What a turn came to.
    pub open spec fn polled(
        self,
        old: Connection,
        readiness: Readiness,
        budget: ByteBudget,
        action: Action,
    ) -> bool {
        let token = self.task().name();
        &&& self.same_past(old)
        &&& self.task().steps() <= old.task().steps()
        &&& self.sending() ==> !self.offered()
        &&& self.task().progress == (Progress {
            consumed: self.task().progress.consumed,
            pending_record: self.task().progress.pending_record,
            counter_overflow: old.task().progress.counter_overflow || (action is Done
                && !old.finished()),
            ..old.task().progress
        })
        &&& old.task().progress.consumed <= self.task().progress.consumed
        &&& match action {
            Action::Yield => {
                &&& !self.finished()
                &&& {
                    ||| self.out_of_steps(old, readiness)
                    ||| self.out_of_bytes(readiness, budget)
                    ||| self.out_of_slots(readiness)
                }
            },
            Action::Read => {
                &&& self.reading()
                &&& self.task().steps() < old.task().steps()
                &&& !(readiness.states[token] is Waiting)
            },
            Action::Send => {
                &&& self.sending()
                &&& !self.offered()
                &&& self.task().steps() < old.task().steps()
                &&& readiness.queue_requests[0] == token
                &&& readiness.queue_requests.contains(token)
                &&& !(readiness.states[token] is Waiting)
                &&& self.task().progress.records_queued < u64::MAX
            },
            Action::Done => {
                &&& self.finished()
                &&& !old.finished() ==> self.cut_off() && self.task().progress.records_queued
                    == u64::MAX
            },
        }
    }

    /// Advances the connection until it needs its socket or the channel, has to
    /// wait, runs out of steps, or is over.
    #[verifier::rlimit(60)]
    pub fn poll(&mut self, scheduler: &mut Scheduler, budget: &mut ByteBudget) -> (action: Action)
        requires
            old(self).wf(),
            old(scheduler).wf(),
            old(budget).wf(),
            old(budget).limit() == old(self).setting().limit,
            old(self).admitted(old(scheduler)@),
            !(old(scheduler)@.states[old(self).task().name()] is Waiting),
            old(self).sending() ==> !old(self).offered(),
        ensures
            final(self).wf(),
            final(scheduler).wf(),
            only_touches(old(scheduler)@, final(scheduler)@, old(self).task().name()),
            final(self).admitted(final(scheduler)@),
            final(budget).wf(),
            final(budget).limit() == old(budget).limit(),
            final(budget).subscription() == old(budget).subscription(),
            final(self).polled(*old(self), final(scheduler)@, *final(budget), action),
            charged_once(*old(budget), *final(budget), old(self).held(), final(self).held()),
            final(self).held() != old(self).held() ==> (final(self).held()->0).1
                == final(self).offer().content.retained_bytes(),
    {
        let ghost before = *self;
        let ghost readiness = scheduler@;
        let ghost token = self.context.name();
        proof {
            scheduler.lemma_contents_are_valid();
            lemma_woken(readiness, token);
            lemma_woken_touches(readiness, token, token);
        }
        self.come_to_work();
        if let Stage::Decoding = self.stage {
            if !self.decode(scheduler) {
                return Action::Yield;
            }
        }
        if let Stage::Typing { .. } = self.stage {
            if !self.convert(scheduler) {
                return Action::Yield;
            }
        }
        assert(self.distance() + before.context.steps() - self.context.steps()
            <= before.distance());
        let copying: bool = match self.stage {
            Stage::CopyingWire { .. } | Stage::CopyingAudio { .. } | Stage::CopyingError {
                ..
            } => true,
            _ => false,
        };
        if copying {
            let ghost joined = scheduler@.joined(WaitReason::Bytes, token);
            proof {
                scheduler.lemma_contents_are_valid();
                lemma_joined(scheduler@, WaitReason::Bytes, token);
                lemma_parking_keeps_its_request(joined, token, WaitReason::Bytes);
            }
            if !self.copy_out(scheduler, budget) {
                return Action::Yield;
            }
        }
        assert(self.distance() + before.context.steps() - self.context.steps()
            <= before.distance());
        let ghost then = scheduler@;
        proof {
            scheduler.lemma_contents_are_valid();
            assert(then.states.contains_key(token));
            lemma_woken(then, token);
            lemma_woken_touches(then, token, token);
            assert(only_touches(readiness, then, token));
        }
        let action: Action = match self.stage {
            Stage::Sending { .. } => self.ask(scheduler),
            Stage::Reading => if self.may_read(scheduler) {
                Action::Read
            } else {
                Action::Yield
            },
            _ => Action::Done,
        };
        proof {
            lemma_touches_in_two_steps(readiness, then, scheduler@, token);
        }
        action
    }

    /// Takes the waiting record out to offer it to the channel.
    pub fn take_record(&mut self) -> (record: Record)
        requires
            old(self).wf(),
            old(self).sending(),
            !old(self).offered(),
            old(self).task().progress.records_queued < u64::MAX,
        ensures
            final(self).wf(),
            final(self).same_past(*old(self)),
            final(self).task() == old(self).task(),
            final(self).sending(),
            final(self).offered(),
            final(self).offer() == old(self).offer(),
            final(self).outstanding() == old(self).outstanding(),
            forall|readiness: Readiness| #[trigger]
                final(self).admitted(readiness) == old(self).admitted(readiness),
            record@ == old(self).offer(),
            record.connection == old(self).task().connection(),
            record.kind.charge() == old(self).held(),
            final(self).held() is None,
    {
        proof {
            reveal(Connection::wf);
        }
        let record = self.record.take();
        assert(self.outstanding() == old(self).outstanding());
        record.unwrap()
    }

    /// What the channel's answer to an offered record came to.
    pub open spec fn sent_as(
        self,
        old: Connection,
        before: Readiness,
        after: Readiness,
        outcome: SendOutcome,
        on: bool,
    ) -> bool {
        let token = old.task().name();
        &&& self.chunks() == old.chunks()
        &&& self.end() == old.end()
        &&& self.setting() == old.setting()
        &&& self.task().same_task(old.task())
        &&& self.task().steps() == old.task().steps()
        &&& self.alone() == (old.alone() || outcome is Disconnected)
        &&& match outcome {
            SendOutcome::Accepted => {
                &&& on
                &&& self.task().progress == (Progress {
                    pending_record: false,
                    terminal_queued: old.task().progress.terminal_queued || old.offer().content
                        is Ended,
                    wire_queued: (old.task().progress.wire_queued + wire_length(
                        old.offer(),
                    )) as u64,
                    records_queued: (old.task().progress.records_queued + 1) as u64,
                    ..old.task().progress
                })
                &&& self.handed() == old.handed().push(old.offer())
                &&& self.finished() == (old.offer().content is Ended)
                &&& !self.cut_off()
                &&& !self.sending()
                &&& !self.keeps_record()
                &&& after == before.left(WaitReason::Queue, token)
                &&& !(after.states[token] is Waiting)
            },
            SendOutcome::Full(record) => {
                &&& !on
                &&& self.task().progress == old.task().progress
                &&& self.handed() == old.handed()
                &&& self.sending()
                &&& !self.offered()
                &&& self.offer() == old.offer()
                &&& self.held() == record.kind.charge()
                &&& after == before.parked(token, WaitReason::Queue)
                &&& !self.finished()
            },
            SendOutcome::Disconnected => {
                &&& on
                &&& self.task().progress == old.task().progress
                &&& self.handed() == old.handed()
                &&& self.finished()
                &&& self.cut_off()
                &&& !self.sending()
                &&& !self.keeps_record()
                &&& after == before.left(WaitReason::Queue, token)
                &&& !(after.states[token] is Waiting)
            },
        }
    }

    /// Accounts for what the channel did with the offered record; returns whether
    /// the turn goes on.
    #[verifier::rlimit(40)]
    pub fn sent(&mut self, scheduler: &mut Scheduler, outcome: SendOutcome) -> (on: bool)
        requires
            old(self).wf(),
            old(self).sending(),
            old(self).offered(),
            old(scheduler).wf(),
            old(self).admitted(old(scheduler)@),
            !(old(scheduler)@.states[old(self).task().name()] is Waiting),
            outcome matches SendOutcome::Full(record) ==> record@ == old(self).offer()
                && record.connection == old(self).task().connection(),
        ensures
            final(self).wf(),
            final(scheduler).wf(),
            only_touches(old(scheduler)@, final(scheduler)@, old(self).task().name()),
            final(self).admitted(final(scheduler)@),
            final(self).sent_as(*old(self), old(scheduler)@, final(scheduler)@, outcome, on),
    {
        proof {
            reveal(Connection::wf);
        }
        let ghost before = *self;
        let ghost token = self.context.name();
        proof {
            scheduler.lemma_contents_are_valid();
            lemma_left(scheduler@, WaitReason::Queue, token);
            lemma_own_parking(scheduler@, token, WaitReason::Queue);
            lemma_left_touches(scheduler@, WaitReason::Queue, token);
            lemma_parked_touches(scheduler@, token, WaitReason::Queue);
        }
        let (wire, terminal, next) = match self.stage {
            Stage::Sending { wire, terminal, next } => (wire, terminal, next),
            _ => return true,
        };
        match outcome {
            SendOutcome::Accepted => {
                let _ = self.context.settle_send(scheduler, Handoff::Accepted, wire, terminal);
                self.stage = match next {
                    Next::Read => Stage::Reading,
                    Next::Decode => Stage::Decoding,
                    Next::Finish => Stage::Finished,
                };
                proof {
                    self.handed@ = before.handed@.push(before.pending@);
                    assert(self.handed@.drop_last() =~= before.handed@);
                    self.lost@ = (Seq::empty(), None);
                    let rest = self.outstanding().0;
                    assert(before.handed@ + before.outstanding().0 =~= self.handed@ + rest);
                    assert(self.outstanding().1 == before.outstanding().1);
                }
                true
            },
            SendOutcome::Full(record) => {
                let _ = self.context.settle_send(scheduler, Handoff::Full, wire, terminal);
                self.record = Some(record);
                assert(self.outstanding() == before.outstanding());
                false
            },
            SendOutcome::Disconnected => {
                let _ = self.context.settle_send(scheduler, Handoff::Disconnected, wire, terminal);
                proof {
                    self.alone@ = true;
                }
                assert(self.outstanding() == before.outstanding());
                self.give_up();
                true
            },
        }
    }
}

impl Connection {
    /// What a read of the socket came to.
    pub open spec fn read_as(
        self,
        old: Connection,
        before: Readiness,
        after: Readiness,
        outcome: ReadOutcome<'_>,
        on: bool,
    ) -> bool {
        let token = old.task().name();
        &&& self.handed() == old.handed()
        &&& self.setting() == old.setting()
        &&& self.task().same_task(old.task())
        &&& self.task().steps() == old.task().steps()
        &&& self.held() == old.held()
        &&& self.alone() == old.alone()
        &&& !self.finished()
        &&& match outcome {
            ReadOutcome::Bytes(bytes) => {
                &&& on
                &&& after == before
                &&& !self.reading()
                &&& self.sending() ==> !self.offered()
                &&& if bytes@.len() == 0 {
                    &&& self.chunks() == old.chunks()
                    &&& self.end() == Some(ReadEnd::Eof)
                    &&& self.task().progress == (Progress {
                        pending_record: true,
                        ..old.task().progress
                    })
                } else {
                    let read = old.task().progress.read + bytes@.len();
                    &&& self.chunks() == old.chunks().push(bytes@)
                    &&& self.end() == old.end()
                    &&& self.task().progress == if read <= u64::MAX {
                        Progress { read: read as u64, ..old.task().progress }
                    } else {
                        Progress {
                            pending_record: true,
                            counter_overflow: true,
                            ..old.task().progress
                        }
                    }
                }
            },
            ReadOutcome::Failed(error) => {
                &&& on
                &&& after == before
                &&& self.sending()
                &&& !self.offered()
                &&& self.chunks() == old.chunks()
                &&& self.end() == Some(ReadEnd::Failed(error))
                &&& self.task().progress == (Progress {
                    pending_record: true,
                    ..old.task().progress
                })
            },
            ReadOutcome::WouldBlock => {
                &&& !on
                &&& self == old
                &&& after == before.parked(token, WaitReason::Kernel)
            },
            ReadOutcome::Interrupted => {
                &&& !on
                &&& self == old
                &&& after == before.woken(token)
            },
        }
    }

    /// Accounts for what a read of the socket came to; returns whether the turn
    /// goes on.
    ///
    /// A socket with nothing to read parks the task until it is ready, and an
    /// interrupted read is tried again in the next turn.
    #[verifier::rlimit(60)]
    pub fn read_done(&mut self, scheduler: &mut Scheduler, outcome: ReadOutcome<'_>) -> (on: bool)
        requires
            old(self).wf(),
            old(self).reading(),
            old(scheduler).wf(),
            old(self).admitted(old(scheduler)@),
            !(old(scheduler)@.states[old(self).task().name()] is Waiting),
        ensures
            final(self).wf(),
            final(scheduler).wf(),
            only_touches(old(scheduler)@, final(scheduler)@, old(self).task().name()),
            final(self).admitted(final(scheduler)@),
            final(self).read_as(*old(self), old(scheduler)@, final(scheduler)@, outcome, on),
    {
        proof {
            reveal(Connection::wf);
        }
        let ghost before = *self;
        let ghost token = self.context.name();
        let ghost standing = self.standing();
        proof {
            scheduler.lemma_contents_are_valid();
            lemma_woken(scheduler@, token);
            lemma_own_parking(scheduler@, token, WaitReason::Kernel);
            lemma_woken_touches(scheduler@, token, token);
            lemma_parked_touches(scheduler@, token, WaitReason::Kernel);
            assert(self.handed@ + Seq::<Observation>::empty() =~= self.handed@);
            assert(course(self.setting(), self.chunks@) == (self.handed@, Some(standing)));
        }
        match outcome {
            ReadOutcome::WouldBlock => {
                scheduler.park(self.context.token(), WaitReason::Kernel);
                false
            },
            ReadOutcome::Interrupted => {
                let _ = scheduler.wake(self.context.token());
                false
            },
            ReadOutcome::Failed(error) => {
                let uuid = self.session.identity();
                let offset: u64 = self.context.offset();
                proof {
                    self.end@ = Some(ReadEnd::Failed(error));
                }
                self.put_up(
                    offset,
                    Instant::now(),
                    RecordKind::Ended { uuid, reason: EndReason::Transport(error) },
                    Next::Finish,
                );
                proof {
                    assert(self.pending@ == closing(standing, self.end@->0));
                    assert(self.handed@ + seq![self.pending@] =~= self.handed@.push(
                        self.pending@,
                    ));
                }
                true
            },
            ReadOutcome::Bytes(bytes) => {
                if bytes.len() == 0 {
                    self.read_to_end();
                    return true;
                }
                let observed_at = Instant::now();
                proof {
                    self.chunks@ = before.chunks@.push(bytes@);
                    assert(self.chunks@.drop_last() =~= before.chunks@);
                    assert(self.chunks@.last() == bytes@);
                }
                match self.context.observe_read(bytes.len()) {
                    Ok(start) => {
                        self.chunk.clear();
                        self.chunk.extend_from_slice(bytes);
                        self.at = 0;
                        assert(self.chunk@ =~= bytes@);
                        self.stage = Stage::CopyingWire { start, observed_at };
                        assert(self.standing() == standing);
                        assert(self.outstanding() == chunk_course(
                            self.setting(),
                            standing,
                            byte_count(before.chunks@),
                            bytes@,
                        ));
                    },
                    Err(_) => {
                        let uuid = self.session.identity();
                        let offset: u64 = self.context.offset();
                        self.put_up(
                            offset,
                            Instant::now(),
                            RecordKind::Ended { uuid, reason: EndReason::OffsetExhausted },
                            Next::Finish,
                        );
                        assert(self.outstanding() == chunk_course(
                            self.setting(),
                            standing,
                            byte_count(before.chunks@),
                            bytes@,
                        ));
                    },
                }
                true
            },
        }
    }

    /// Puts up the terminal record for the end of the input.
    fn read_to_end(&mut self)
        requires
            old(self).wf(),
            old(self).stage is Reading,
        ensures
            final(self).wf(),
            final(self).chunks@ == old(self).chunks@,
            final(self).end@ == Some(ReadEnd::Eof),
            final(self).handed@ == old(self).handed@,
            final(self).setting() == old(self).setting(),
            final(self).context.same_task(old(self).context),
            final(self).context.steps() == old(self).context.steps(),
            final(self).stage is Sending,
            final(self).record is Some,
            final(self).held() == old(self).held(),
            final(self).alone@ == old(self).alone@,
            final(self).context.progress == (Progress {
                pending_record: true,
                ..old(self).context.progress
            }),
    {
        proof {
            reveal(Connection::wf);
        }
        let ghost standing = self.standing();
        proof {
            assert(self.handed@ + Seq::<Observation>::empty() =~= self.handed@);
            assert(course(self.setting(), self.chunks@) == (self.handed@, Some(standing)));
            crate::transcript::lemma_open_sessions_are_live(self.setting(), self.chunks@);
        }
        let uuid = self.session.identity();
        let finished = self.framer.finish(Ghost(self.scratch@), Ghost(false));
        let reason = match finished {
            Ok(()) => match self.session.end_of_input() {
                Ok(_) => EndReason::CleanEof,
                Err(error) => EndReason::Policy(error),
            },
            Err(error) => EndReason::Truncated(error),
        };
        let offset: u64 = self.context.offset();
        proof {
            self.end@ = Some(ReadEnd::Eof);
        }
        self.put_up(
            offset,
            Instant::now(),
            RecordKind::Ended { uuid, reason },
            Next::Finish,
        );
        proof {
            assert(self.pending@ == closing(standing, ReadEnd::Eof));
            assert(self.handed@ + seq![self.pending@] =~= self.handed@.push(self.pending@));
        }
    }

    /// Gives up the connection for the record in hand, if there is one, so that its
    /// bytes can be released.
    pub fn into_record(self) -> (record: Option<Record>)
        requires
            self.wf(),
        ensures
            (record is Some) == self.keeps_record(),
            record matches Some(record) ==> record@ == self.offer() && record.kind.charge()
                == self.held(),
            self.sending() && !self.offered() ==> record is Some,
    {
        proof {
            reveal(Connection::wf);
        }
        self.record
    }
}

impl Connection {
    /// A task's requests stay those of its stage as long as others do not make any
    /// in its name.
    pub proof fn lemma_stays_admitted(self, before: Readiness, after: Readiness)
        requires
            self.admitted(before),
            after.states.contains_key(self.task().name()),
            after.queue_requests.contains(self.task().name()) ==> before.queue_requests.contains(
                self.task().name(),
            ),
            after.byte_requests.contains(self.task().name()) ==> before.byte_requests.contains(
                self.task().name(),
            ),
        ensures
            self.admitted(after),
    {
    }

    /// A task without requests is admitted wherever it is live.
    pub proof fn lemma_is_admitted(self, readiness: Readiness)
        requires
            readiness.states.contains_key(self.task().name()),
            !readiness.queue_requests.contains(self.task().name()),
            !readiness.byte_requests.contains(self.task().name()),
        ensures
            self.admitted(readiness),
    {
    }

    /// An admitted task is live.
    pub proof fn lemma_admitted_is_live(self, readiness: Readiness)
        requires
            self.admitted(readiness),
        ensures
            readiness.states.contains_key(self.task().name()),
    {
    }

    /// Whether the connection is over.
    #[must_use]
    pub fn is_finished(&self) -> (finished: bool)
        ensures
            finished == self.finished(),
    {
        matches!(self.stage, Stage::Finished)
    }
}

/// What was handed off is the beginning of the transcript of what was read:
/// nothing is left out, repeated or reordered.
pub proof fn law_handed_off_is_a_prefix_of_the_transcript(connection: Connection)
    requires
        connection.wf(),
    ensures
        connection.handed() == transcript(
            connection.setting(),
            connection.chunks(),
            connection.end(),
        ).0.take(connection.handed().len() as int),
        connection.handed().len() <= transcript(
            connection.setting(),
            connection.chunks(),
            connection.end(),
        ).0.len(),
{
    reveal(Connection::wf);
    let whole = transcript(connection.setting(), connection.chunks(), connection.end()).0;
    assert(whole.take(connection.handed().len() as int) =~= connection.handed());
}

/// A connection that asks for its next read has consumed everything that it read
/// before, and has handed off the transcript of it.
pub proof fn law_reading_follows_complete_handoff(connection: Connection)
    requires
        connection.wf(),
        connection.reading(),
    ensures
        connection.end() is None,
        connection.handed() == course(connection.setting(), connection.chunks()).0,
        connection.task().progress.consumed == byte_count(connection.chunks()),
{
    reveal(Connection::wf);
    assert(connection.handed() + Seq::<Observation>::empty() =~= connection.handed());
}

/// A turn that has steps and yields has to wait for bytes or a queue slot, or has come
/// nearer to the next read or offer, which is never more than four steps away.
pub proof fn law_turns_lead_on(
    old: Connection,
    connection: Connection,
    readiness: Readiness,
    budget: ByteBudget,
)
    requires
        old.task().steps() > 0,
        connection.polled(old, readiness, budget, Action::Yield),
    ensures
        connection.out_of_bytes(readiness, budget) || connection.out_of_slots(readiness)
            || connection.distance() < old.distance(),
        connection.distance() <= 4,
{
}

/// Observations are given up only where the consumer is gone or the counter of handed
/// off records is full.
pub proof fn law_observations_are_given_up_only_in_need(connection: Connection)
    requires
        connection.wf(),
        connection.cut_off(),
    ensures
        connection.alone() || connection.handed().len() == u64::MAX,
{
    reveal(Connection::wf);
}

/// A connection that is over has handed off its whole transcript, unless its consumer
/// is gone or the counter of handed off records is full.
pub proof fn law_finished_has_told_everything(connection: Connection)
    requires
        connection.wf(),
        connection.finished(),
        !connection.alone(),
        connection.handed().len() < u64::MAX,
    ensures
        connection.handed() == transcript(
            connection.setting(),
            connection.chunks(),
            connection.end(),
        ).0,
{
    reveal(Connection::wf);
    assert(connection.handed() + Seq::<Observation>::empty() =~= connection.handed());
}

/// The counters of a task say what was read, as far as they can hold it, and what was
/// handed off: how many records, how many wire bytes, and whether the terminal record
/// is among them. Neither the wire bytes handed off nor those consumed exceed those
/// read, and an overflow is marked only where a counter is full.
pub proof fn law_counters_say_what_was_handed_off(connection: Connection)
    requires
        connection.wf(),
    ensures
        ({
            let progress = connection.task().progress;
            let handed = connection.handed();
            &&& progress.read == fitted(connection.chunks())
            &&& progress.counter_overflow ==> byte_count(connection.chunks()) > u64::MAX
                || handed.len() == u64::MAX
            &&& progress.records_queued == handed.len()
            &&& progress.wire_queued == wire_bytes(handed)
            &&& progress.terminal_queued == (handed.len() > 0 && handed.last().content is Ended)
            &&& progress.wire_queued <= progress.read
            &&& progress.consumed <= progress.read
        }),
{
    reveal(Connection::wf);
}

/// An observation, and what follows it when the connection goes on.
pub open spec fn followed(
    observation: Observation,
    next: Option<Phase>,
    setting: Setting,
    rest: Seq<u8>,
    base: int,
) -> (Seq<Observation>, Option<Standing>) {
    match next {
        None => (seq![observation], None),
        Some(phase) => {
            let (more, standing) = interpret(setting, phase, rest, base);
            (seq![observation] + more, standing)
        },
    }
}

/// The wire bytes that are counted are those in the observations, one behind the other.
pub proof fn law_counted_wire_bytes_are_those_told(observations: Seq<Observation>)
    ensures
        wire_bytes(observations) == wire_part(observations).len(),
    decreases observations.len(),
{
    if observations.len() > 0 {
        law_counted_wire_bytes_are_those_told(observations.drop_last());
    }
}

/// The reads that the counters hold are all reads, unless the last one went beyond 64
/// bits.
pub proof fn law_counted_reads_are_all_that_fit(chunks: Seq<Seq<u8>>, chunk: Seq<u8>)
    ensures
        joined_bytes(chunks).len() <= u64::MAX ==> fitted(chunks) == joined_bytes(chunks).len(),
        joined_bytes(chunks.push(chunk)).len() > u64::MAX ==> fitted(chunks.push(chunk))
            == joined_bytes(chunks).len(),
{
    lemma_joined_length(chunks);
    lemma_joined_length(chunks.push(chunk));
    assert(chunks.push(chunk).drop_last() =~= chunks);
}

/// A record is offered until the channel takes it or is gone. One that was taken is handed
/// off behind those before it and counted once, with its bytes if it is a read. One that
/// found the channel full is offered again as it was, and the task has asked for a place
/// in the queue. Only the terminal record, or a channel that is gone, ends the connection.
pub proof fn law_records_are_offered_until_taken(
    old: Connection,
    connection: Connection,
    before: Readiness,
    after: Readiness,
    outcome: SendOutcome,
    on: bool,
)
    requires
        before.valid(),
        before.states.contains_key(old.task().name()),
        !(before.states[old.task().name()] is Waiting),
        connection.sent_as(old, before, after, outcome, on),
    ensures
        outcome is Accepted <==> connection.handed() == old.handed().push(old.offer()),
        !(outcome is Accepted) ==> connection.handed() == old.handed()
            && connection.task().progress == old.task().progress,
        outcome is Accepted ==> ({
            let was = old.task().progress;
            let now = connection.task().progress;
            &&& was.records_queued < u64::MAX ==> now.records_queued == was.records_queued + 1
            &&& now.terminal_queued == (was.terminal_queued || old.offer().content is Ended)
            &&& !now.pending_record
            &&& now.read == was.read && now.consumed == was.consumed
            &&& now.counter_overflow == was.counter_overflow
            &&& match old.offer().content {
                Content::Wire(bytes) => was.wire_queued + bytes.len() <= u64::MAX
                    ==> now.wire_queued == was.wire_queued + bytes.len(),
                _ => now.wire_queued == was.wire_queued,
            }
        }),
        on <==> !(outcome is Full),
        outcome is Full ==> connection.sending() && !connection.offered() && connection.offer()
            == old.offer(),
        after.queue_requests.contains(old.task().name()) <==> outcome is Full,
        connection.finished() <==> outcome is Disconnected || outcome is Accepted
            && old.offer().content is Ended,
        outcome is Accepted ==> !connection.cut_off(),
        outcome is Disconnected ==> connection.cut_off() && connection.alone(),
        !(outcome is Disconnected) ==> connection.alone() == old.alone(),
        connection.chunks() == old.chunks() && connection.end() == old.end(),
{
    let token = old.task().name();
    lemma_own_parking(before, token, WaitReason::Queue);
    lemma_left(before, WaitReason::Queue, token);
    assert(before.parked(token, WaitReason::Queue).requests(WaitReason::Queue)
        == before.parked(token, WaitReason::Queue).queue_requests);
    assert(before.left(WaitReason::Queue, token).requests(WaitReason::Queue) == before.left(
        WaitReason::Queue,
        token,
    ).queue_requests);
    assert(old.handed().len() != old.handed().push(old.offer()).len());
}

/// What was read is taken as it came: bytes stand behind those that were read before and
/// are counted, a read of none is the end, and so is a failure, with its cause. A read
/// that would have to wait or was interrupted leaves no trace in the connection: the task
/// waits for the socket, or has another turn coming.
pub proof fn law_reads_are_taken_as_they_come(
    old: Connection,
    connection: Connection,
    before: Readiness,
    after: Readiness,
    outcome: ReadOutcome<'_>,
    on: bool,
)
    requires
        before.valid(),
        before.states.contains_key(old.task().name()),
        connection.read_as(old, before, after, outcome, on),
    ensures
        connection.handed() == old.handed() && !connection.finished(),
        match outcome {
            ReadOutcome::Bytes(bytes) => {
                &&& on
                &&& joined_bytes(connection.chunks()) == joined_bytes(old.chunks()) + bytes@
                &&& bytes@.len() == 0 ==> connection.end() == Some(ReadEnd::Eof)
                &&& bytes@.len() > 0 ==> connection.end() == old.end()
                &&& old.task().progress.read + bytes@.len() <= u64::MAX
                    ==> connection.task().progress.read == old.task().progress.read + bytes@.len()
                &&& connection.task().progress.counter_overflow == (
                old.task().progress.counter_overflow || old.task().progress.read + bytes@.len()
                    > u64::MAX)
            },
            ReadOutcome::Failed(error) => {
                &&& on
                &&& connection.chunks() == old.chunks()
                &&& connection.end() == Some(ReadEnd::Failed(error))
                &&& connection.task().progress.read == old.task().progress.read
            },
            ReadOutcome::WouldBlock => {
                &&& !on
                &&& connection == old
                &&& before.states[old.task().name()] is Running
                    ==> after.states[old.task().name()] == State::Waiting(WaitReason::Kernel)
            },
            ReadOutcome::Interrupted => {
                &&& !on
                &&& connection == old
                &&& after.turns.contains(old.task().name())
            },
        },
        on ==> after == before,
{
    let token = old.task().name();
    match outcome {
        ReadOutcome::Bytes(bytes) => {
            if bytes@.len() == 0 {
                assert(joined_bytes(old.chunks()) + bytes@ =~= joined_bytes(old.chunks()));
            } else {
                assert(old.chunks().push(bytes@).drop_last() =~= old.chunks());
            }
        },
        ReadOutcome::WouldBlock => {
            if before.states[token] is Running {
                law_parked_tasks_wait(before, token, WaitReason::Kernel);
            }
        },
        ReadOutcome::Interrupted => {
            let other: usize = if token == 0 {
                1
            } else {
                0
            };
            law_woken_tasks_get_a_turn(before, token, other);
        },
        _ => {},
    }
}

/// A turn charges the account for nothing, or for the bytes of the one record that came to
/// hand in it.
pub proof fn law_turns_charge_for_what_they_copy(
    before: ByteBudget,
    after: ByteBudget,
    held: Option<(nat, usize)>,
    then: Option<(nat, usize)>,
)
    requires
        charged_once(before, after, held, then),
    ensures
        held is Some ==> then == held,
        then == held ==> total(after.retained()) == total(before.retained()),
        then != held ==> held is None && then is Some && total(after.retained()) == total(
            before.retained(),
        ) + (then->0).1,
{
    if then != held {
        let charge = then->0;
        law_charges_add_up(before.retained(), seq![charge], charge);
        assert(before.retained().push(charge) =~= before.retained() + seq![charge]);
    }
}

/// A copy is charged with the length of what it holds, and never beyond the limit; without
/// a step, without room and for a copy that could never fit nothing is charged.
pub proof fn law_copies_are_charged_for_their_bytes(
    old: Connection,
    connection: Connection,
    readiness: Readiness,
    then: Readiness,
    budget: ByteBudget,
    spent: ByteBudget,
    on: bool,
)
    requires
        connection.copied_as(old, readiness, then, budget, spent, on),
        old.copying() is Some,
    ensures
        ({
            let required = old.copying()->0;
            let charged = on && required <= budget.limit();
            &&& !charged ==> spent.retained() == budget.retained()
            &&& charged ==> ({
                let charge = connection.held()->0;
                &&& spent.retained() == budget.retained().push(charge)
                &&& total(budget.retained()) + required <= budget.limit()
                &&& match connection.offer().content {
                    Content::Wire(bytes) => charge.1 == bytes.len(),
                    Content::Audio(_, _, bytes) => charge.1 == bytes.len(),
                    Content::Ended(_, Ending::PeerError(bytes)) => charge.1 == bytes.len(),
                    _ => charge.1 == 0,
                }
            })
            &&& on ==> old.task().steps() > 0
            &&& old.task().steps() > 0 ==> connection.task().steps() == old.task().steps() - 1
            &&& old.task().steps() > 0 && required > budget.limit() ==> on
        }),
{
}

} // verus!
