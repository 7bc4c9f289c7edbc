//! Incoming `AudioSocket` session policy.
use vstd::prelude::*;

use crate::audio::{AudioPayload, SampleRate};
use crate::message::{Dtmf, Message, OpaquePayload, TypedMessage, Uuid};
use crate::wire_type::UnknownWireType;

verus! {

/// The reason an incoming session ended without a policy rejection.
#[derive(Clone, Copy, Debug, PartialEq, Eq)]
pub enum SessionEnd<'a> {
    /// The peer sent a terminate message.
    Terminate,
    /// The peer sent an opaque error message.
    PeerError(OpaquePayload<'a>),
    /// The caller reported clean end of the decoded input.
    EndOfInput,
}

/// An accepted incoming-session event.
#[derive(Clone, Copy, Debug, PartialEq, Eq)]
#[allow(inconsistent_fields)]
pub enum IncomingEvent<'a> {
    /// The first UUID established the session identity.
    Started(Uuid),
    /// A PCM payload of an accepted rate belonging to the established identity.
    Audio {
        /// The established protocol UUID.
        uuid: Uuid,
        /// The declared wire rate.
        rate: SampleRate,
        /// The original PCM payload.
        payload: AudioPayload<'a>,
    },
    /// An accepted DTMF byte belonging to the established identity.
    Dtmf {
        /// The established protocol UUID.
        uuid: Uuid,
        /// The original DTMF byte.
        digit: Dtmf,
    },
    /// The session ended without a policy rejection.
    Ended {
        /// The UUID established before ending, if one was received.
        uuid: Option<Uuid>,
        /// The distinct ending reason.
        reason: SessionEnd<'a>,
    },
}

/// A terminal incoming-session policy rejection.
#[derive(Clone, Copy, Debug, PartialEq, Eq)]
pub enum IncomingSessionError {
    /// Audio or DTMF arrived before a UUID.
    MissingUuid,
    /// A second UUID arrived after the session identity was established.
    DuplicateUuid,
    /// Audio used a rate outside the incoming profile.
    UnsupportedRate(SampleRate),
    /// DTMF used a byte outside the incoming profile.
    UnsupportedDigit(Dtmf),
    /// An unassigned wire type arrived.
    UnsupportedType(UnknownWireType),
    /// A message or EOF arrived after the session ended.
    AfterEnd,
}

/// Where a session stands.
pub enum Phase {
    /// No UUID has arrived.
    AwaitingUuid,
    /// This UUID is the session's identity.
    Active(Seq<u8>),
    /// The session ended or was rejected.
    Ended,
}

/// An ending reason over plain bytes.
pub enum End {
    /// The peer sent a terminate message.
    Terminate,
    /// The peer sent these error bytes.
    PeerError(Seq<u8>),
    /// The decoded input ended.
    EndOfInput,
}

/// An accepted event over plain bytes.
pub enum Event {
    /// The identity was established.
    Started(Seq<u8>),
    /// PCM bytes for the identity.
    Audio(Seq<u8>, SampleRate, Seq<u8>),
    /// A DTMF byte for the identity.
    Dtmf(Seq<u8>, u8),
    /// The end, with the identity if there was one.
    Ended(Option<Seq<u8>>, End),
}

/// A policy rejection over plain bytes.
pub enum Rejection {
    /// Audio or DTMF before a UUID.
    MissingUuid,
    /// A second UUID.
    DuplicateUuid,
    /// A rate outside the profile.
    UnsupportedRate(SampleRate),
    /// A DTMF byte outside the profile.
    UnsupportedDigit(u8),
    /// An unassigned wire type.
    UnsupportedType(u8),
    /// Something arrived after the end.
    AfterEnd,
}

impl<'a> View for SessionEnd<'a> {
    type V = End;

    open spec fn view(&self) -> End {
        match self {
            SessionEnd::Terminate => End::Terminate,
            SessionEnd::PeerError(payload) => End::PeerError(payload@),
            SessionEnd::EndOfInput => End::EndOfInput,
        }
    }
}

impl<'a> View for IncomingEvent<'a> {
    type V = Event;

    open spec fn view(&self) -> Event {
        match self {
            IncomingEvent::Started(uuid) => Event::Started(uuid@),
            IncomingEvent::Audio { uuid, rate, payload } => Event::Audio(uuid@, *rate, payload@),
            IncomingEvent::Dtmf { uuid, digit } => Event::Dtmf(uuid@, digit@),
            IncomingEvent::Ended { uuid, reason } => Event::Ended(identity_bytes(*uuid), reason@),
        }
    }
}

impl View for IncomingSessionError {
    type V = Rejection;

    open spec fn view(&self) -> Rejection {
        match self {
            IncomingSessionError::MissingUuid => Rejection::MissingUuid,
            IncomingSessionError::DuplicateUuid => Rejection::DuplicateUuid,
            IncomingSessionError::UnsupportedRate(rate) => Rejection::UnsupportedRate(*rate),
            IncomingSessionError::UnsupportedDigit(digit) => Rejection::UnsupportedDigit(digit@),
            IncomingSessionError::UnsupportedType(wire_type) => Rejection::UnsupportedType(
                wire_type@,
            ),
            IncomingSessionError::AfterEnd => Rejection::AfterEnd,
        }
    }
}

/// The bytes of an identity, where there is one.
pub open spec fn identity_bytes(uuid: Option<Uuid>) -> Option<Seq<u8>> {
    match uuid {
        Some(uuid) => Some(uuid@),
        None => None,
    }
}

/// What an event or a rejection says, over plain bytes.
pub open spec fn outcome_view(result: Result<IncomingEvent<'_>, IncomingSessionError>) -> Result<
    Event,
    Rejection,
> {
    match result {
        Ok(event) => Ok(event@),
        Err(error) => Err(error@),
    }
}

/// The established identity of a session that stands in `phase`.
pub open spec fn established(phase: Phase) -> Option<Seq<u8>> {
    match phase {
        Phase::Active(uuid) => Some(uuid),
        _ => None,
    }
}

/// The DTMF bytes that a session accepts: `0`-`9`, `*`, `#` and `A`-`D`.
pub open spec fn accepted_digit(value: u8) -> bool {
    ||| 0x30 <= value <= 0x39
    ||| value == 0x2a
    ||| value == 0x23
    ||| 0x41 <= value <= 0x44
}

/// What one message means to a session, and where the session stands after it.
pub open spec fn policy(phase: Phase, rates: Set<SampleRate>, message: Message) -> (
    Result<Event, Rejection>,
    Phase,
) {
    match (phase, message) {
        (Phase::Ended, _) => (Err(Rejection::AfterEnd), Phase::Ended),
        (_, Message::Terminate) => (
            Ok(Event::Ended(established(phase), End::Terminate)),
            Phase::Ended,
        ),
        (_, Message::Error(bytes)) => (
            Ok(Event::Ended(established(phase), End::PeerError(bytes))),
            Phase::Ended,
        ),
        (_, Message::Unknown(byte, _)) => (Err(Rejection::UnsupportedType(byte)), Phase::Ended),
        (Phase::AwaitingUuid, Message::Uuid(uuid)) => (
            Ok(Event::Started(uuid)),
            Phase::Active(uuid),
        ),
        (Phase::AwaitingUuid, _) => (Err(Rejection::MissingUuid), Phase::Ended),
        (Phase::Active(_), Message::Uuid(_)) => (Err(Rejection::DuplicateUuid), Phase::Ended),
        (Phase::Active(uuid), Message::Audio(rate, pcm)) => if rates.contains(rate) {
            (Ok(Event::Audio(uuid, rate, pcm)), phase)
        } else {
            (Err(Rejection::UnsupportedRate(rate)), Phase::Ended)
        },
        (Phase::Active(uuid), Message::Dtmf(value)) => if accepted_digit(value) {
            (Ok(Event::Dtmf(uuid, value)), phase)
        } else {
            (Err(Rejection::UnsupportedDigit(value)), Phase::Ended)
        },
    }
}

/// What the clean end of the input means to a session.
pub open spec fn end_outcome(phase: Phase) -> Result<Event, Rejection> {
    match phase {
        Phase::Ended => Err(Rejection::AfterEnd),
        phase => Ok(Event::Ended(established(phase), End::EndOfInput)),
    }
}

/// The set of PCM rates that a session accepts.
#[derive(Clone, Copy, Debug, PartialEq, Eq)]
pub struct IncomingProfile {
    accepted: [bool; 9],
}

/// The position of a rate in the profile's table.
spec fn slot_of(rate: SampleRate) -> int {
    match rate {
        SampleRate::Khz8 => 0,
        SampleRate::Khz12 => 1,
        SampleRate::Khz16 => 2,
        SampleRate::Khz24 => 3,
        SampleRate::Khz32 => 4,
        SampleRate::Khz44_1 => 5,
        SampleRate::Khz48 => 6,
        SampleRate::Khz96 => 7,
        SampleRate::Khz192 => 8,
    }
}

fn slot(rate: SampleRate) -> (index: usize)
    ensures
        index == slot_of(rate),
        index < 9,
{
    match rate {
        SampleRate::Khz8 => 0,
        SampleRate::Khz12 => 1,
        SampleRate::Khz16 => 2,
        SampleRate::Khz24 => 3,
        SampleRate::Khz32 => 4,
        SampleRate::Khz44_1 => 5,
        SampleRate::Khz48 => 6,
        SampleRate::Khz96 => 7,
        SampleRate::Khz192 => 8,
    }
}

impl View for IncomingProfile {
    type V = Set<SampleRate>;

    closed spec fn view(&self) -> Set<SampleRate> {
        Set::new(|rate: SampleRate| self.accepted@[slot_of(rate)])
    }
}

impl IncomingProfile {
    /// The profile that accepts 8 kHz PCM only.
    #[must_use]
    pub fn pcm_8_khz() -> (profile: IncomingProfile)
        ensures
            profile@ == set![SampleRate::Khz8],
    {
        let rates: [SampleRate; 1] = [SampleRate::Khz8];
        let profile = IncomingProfile::from_rates(&rates);
        proof {
            assert(rates@[0] == SampleRate::Khz8);
            assert(profile@ =~= set![SampleRate::Khz8]);
        }
        profile
    }

    /// The profile that accepts exactly the given rates.
    #[must_use]
    pub fn from_rates(rates: &[SampleRate]) -> (profile: IncomingProfile)
        ensures
            profile@ == rates@.to_set(),
    {
        let mut accepted: [bool; 9] = [false; 9];
        let mut i: usize = 0;
        while i < rates.len()
            invariant
                i <= rates@.len(),
                forall|rate: SampleRate|
                    #![trigger slot_of(rate)]
                    accepted@[slot_of(rate)] <==> rates@.subrange(0, i as int).contains(rate),
            decreases rates@.len() - i,
        {
            let chosen = rates[i];
            accepted[slot(chosen)] = true;
            assert(rates@.subrange(0, i + 1) =~= rates@.subrange(0, i as int).push(chosen));
            assert forall|rate: SampleRate|
                #![trigger slot_of(rate)]
                accepted@[slot_of(rate)] <==> rates@.subrange(0, i + 1).contains(rate) by {
                let earlier = rates@.subrange(0, i as int);
                let later = rates@.subrange(0, i + 1);
                assert(later[i as int] == chosen);
                if earlier.contains(rate) {
                    let k = choose|k: int| 0 <= k < earlier.len() && earlier[k] == rate;
                    assert(later[k] == rate);
                }
                if later.contains(rate) && rate != chosen {
                    let k = choose|k: int| 0 <= k < later.len() && later[k] == rate;
                    assert(earlier[k] == rate);
                }
                if rate != chosen {
                    assert(slot_of(rate) != slot_of(chosen));
                }
            }
            i = i + 1;
        }
        let profile = IncomingProfile { accepted };
        assert(rates@.subrange(0, i as int) =~= rates@);
        assert(profile@ =~= rates@.to_set());
        profile
    }

    /// Whether this profile accepts a rate.
    #[must_use]
    pub fn accepts(self, rate: SampleRate) -> (accepted: bool)
        ensures
            accepted == self@.contains(rate),
    {
        self.accepted[slot(rate)]
    }
}

impl Default for IncomingProfile {
    /// The profile that accepts all nine documented rates.
    fn default() -> (profile: IncomingProfile)
        ensures
            profile@ == Set::<SampleRate>::full(),
    {
        let profile = IncomingProfile { accepted: [true; 9] };
        assert(profile@ =~= Set::<SampleRate>::full());
        profile
    }
}

#[derive(Clone, Copy, Debug, PartialEq, Eq)]
enum SessionState {
    AwaitingUuid,
    Active(Uuid),
    Ended,
}

/// Stateful policy for messages received from an `AudioSocket` peer.
///
/// The caller supplies already validated [`TypedMessage`] values. This type does
/// not decode bytes, generate samples, resample audio, infer reconnections, keep
/// clocks, or perform I/O. Call [`IncomingSession::end_of_input`] only after a
/// byte decoder has successfully finished at a frame boundary; a decoder failure
/// remains distinct from a clean session end.
#[derive(Clone, Copy, Debug, PartialEq, Eq)]
pub struct IncomingSession {
    profile: IncomingProfile,
    state: SessionState,
}

impl IncomingSession {
    /// Where the session stands.
    pub closed spec fn phase(self) -> Phase {
        match self.state {
            SessionState::AwaitingUuid => Phase::AwaitingUuid,
            SessionState::Active(uuid) => Phase::Active(uuid@),
            SessionState::Ended => Phase::Ended,
        }
    }

    /// The rates that the session accepts.
    pub closed spec fn rates(self) -> Set<SampleRate> {
        self.profile@
    }

    /// Creates a session that requires a UUID before media or DTMF and accepts
    /// every documented rate.
    #[must_use]
    pub fn new() -> (session: IncomingSession)
        ensures
            session.phase() is AwaitingUuid,
            session.rates() == Set::<SampleRate>::full(),
    {
        IncomingSession::with_profile(IncomingProfile::default())
    }

    /// Creates a session that accepts the rates of `profile`.
    #[must_use]
    pub fn with_profile(profile: IncomingProfile) -> (session: IncomingSession)
        ensures
            session.phase() is AwaitingUuid,
            session.rates() == profile@,
    {
        IncomingSession { profile, state: SessionState::AwaitingUuid }
    }

    /// Returns the established UUID, if the session is active.
    #[must_use]
    pub fn identity(&self) -> (identity: Option<Uuid>)
        ensures
            identity_bytes(identity) == established(self.phase()),
    {
        match self.state {
            SessionState::AwaitingUuid | SessionState::Ended => None,
            SessionState::Active(uuid) => Some(uuid),
        }
    }

    /// Applies one typed peer message to the incoming policy. A rejection ends
    /// the session.
    pub fn receive<'a>(&mut self, message: TypedMessage<'a>) -> (result: Result<
        IncomingEvent<'a>,
        IncomingSessionError,
    >)
        ensures
            final(self).rates() == old(self).rates(),
            (outcome_view(result), final(self).phase()) == policy(
                old(self).phase(),
                old(self).rates(),
                message@,
            ),
    {
        if matches!(self.state, SessionState::Ended) {
            return Err(IncomingSessionError::AfterEnd);
        }
        match message {
            TypedMessage::Terminate => Ok(self.end(SessionEnd::Terminate)),
            TypedMessage::Error(payload) => Ok(self.end(SessionEnd::PeerError(payload))),
            TypedMessage::Uuid(uuid) => self.uuid(uuid),
            TypedMessage::Audio { rate, payload } => self.audio(rate, payload),
            TypedMessage::Dtmf(digit) => self.dtmf(digit),
            TypedMessage::Unknown { wire_type, .. } => self.reject(
                IncomingSessionError::UnsupportedType(wire_type),
            ),
        }
    }

    /// Ends a successfully decoded input stream at its frame boundary.
    pub fn end_of_input(&mut self) -> (result: Result<
        IncomingEvent<'static>,
        IncomingSessionError,
    >)
        ensures
            final(self).rates() == old(self).rates(),
            final(self).phase() is Ended,
            outcome_view(result) == end_outcome(old(self).phase()),
    {
        if matches!(self.state, SessionState::Ended) {
            return Err(IncomingSessionError::AfterEnd);
        }
        Ok(self.end(SessionEnd::EndOfInput))
    }

    fn uuid<'a>(&mut self, uuid: Uuid) -> (result: Result<IncomingEvent<'a>, IncomingSessionError>)
        ensures
            final(self).rates() == old(self).rates(),
            (outcome_view(result), final(self).phase()) == policy(
                old(self).phase(),
                old(self).rates(),
                Message::Uuid(uuid@),
            ),
    {
        match self.state {
            SessionState::AwaitingUuid => {
                self.state = SessionState::Active(uuid);
                Ok(IncomingEvent::Started(uuid))
            },
            SessionState::Active(_) => self.reject(IncomingSessionError::DuplicateUuid),
            SessionState::Ended => Err(IncomingSessionError::AfterEnd),
        }
    }

    fn audio<'a>(&mut self, rate: SampleRate, payload: AudioPayload<'a>) -> (result: Result<
        IncomingEvent<'a>,
        IncomingSessionError,
    >)
        ensures
            final(self).rates() == old(self).rates(),
            (outcome_view(result), final(self).phase()) == policy(
                old(self).phase(),
                old(self).rates(),
                Message::Audio(rate, payload@),
            ),
    {
        let uuid = match self.state {
            SessionState::AwaitingUuid => return self.reject(IncomingSessionError::MissingUuid),
            SessionState::Active(uuid) => uuid,
            SessionState::Ended => return Err(IncomingSessionError::AfterEnd),
        };
        if !self.profile.accepts(rate) {
            return self.reject(IncomingSessionError::UnsupportedRate(rate));
        }
        Ok(IncomingEvent::Audio { uuid, rate, payload })
    }

    fn dtmf<'a>(&mut self, digit: Dtmf) -> (result: Result<IncomingEvent<'a>, IncomingSessionError>)
        ensures
            final(self).rates() == old(self).rates(),
            (outcome_view(result), final(self).phase()) == policy(
                old(self).phase(),
                old(self).rates(),
                Message::Dtmf(digit@),
            ),
    {
        let uuid = match self.state {
            SessionState::AwaitingUuid => return self.reject(IncomingSessionError::MissingUuid),
            SessionState::Active(uuid) => uuid,
            SessionState::Ended => return Err(IncomingSessionError::AfterEnd),
        };
        if !matches!(digit.value(), 0x30..=0x39 | 0x2a | 0x23 | 0x41..=0x44) {
            return self.reject(IncomingSessionError::UnsupportedDigit(digit));
        }
        Ok(IncomingEvent::Dtmf { uuid, digit })
    }

    fn end<'a>(&mut self, reason: SessionEnd<'a>) -> (event: IncomingEvent<'a>)
        ensures
            final(self).rates() == old(self).rates(),
            final(self).phase() is Ended,
            event@ == Event::Ended(established(old(self).phase()), reason@),
    {
        let uuid = self.identity();
        self.state = SessionState::Ended;
        IncomingEvent::Ended { uuid, reason }
    }

    fn reject<'a>(&mut self, error: IncomingSessionError) -> (result: Result<
        IncomingEvent<'a>,
        IncomingSessionError,
    >)
        ensures
            final(self).rates() == old(self).rates(),
            final(self).phase() is Ended,
            outcome_view(result) == Err::<Event, _>(error@),
    {
        self.state = SessionState::Ended;
        Err(error)
    }
}

impl Default for IncomingSession {
    fn default() -> (session: IncomingSession)
        ensures
            session.phase() is AwaitingUuid,
            session.rates() == Set::<SampleRate>::full(),
    {
        IncomingSession::new()
    }
}

/// Where a session stands after some messages.
pub open spec fn phase_after(phase: Phase, rates: Set<SampleRate>, messages: Seq<Message>) -> Phase
    decreases messages.len(),
{
    if messages.len() == 0 {
        phase
    } else {
        policy(phase_after(phase, rates, messages.drop_last()), rates, messages.last()).1
    }
}

/// What the message at `index` means to a fresh session that got those before it.
pub open spec fn outcome_at(rates: Set<SampleRate>, messages: Seq<Message>, index: int) -> Result<
    Event,
    Rejection,
> {
    policy(
        phase_after(Phase::AwaitingUuid, rates, messages.take(index)),
        rates,
        messages[index],
    ).0
}

proof fn lemma_phase_steps(rates: Set<SampleRate>, messages: Seq<Message>, index: int)
    requires
        0 <= index < messages.len(),
    ensures
        phase_after(Phase::AwaitingUuid, rates, messages.take(index + 1)) == policy(
            phase_after(Phase::AwaitingUuid, rates, messages.take(index)),
            rates,
            messages[index],
        ).1,
{
    assert(messages.take(index + 1).drop_last() =~= messages.take(index));
}

/// Whatever ended a session, an end or a rejection, every later message is
/// rejected as coming after the end.
pub proof fn law_session_end_absorbs(
    rates: Set<SampleRate>,
    messages: Seq<Message>,
    ended: int,
    later: int,
)
    requires
        0 <= ended < later < messages.len(),
        outcome_at(rates, messages, ended) is Err || outcome_at(rates, messages, ended)->Ok_0
            is Ended,
    ensures
        outcome_at(rates, messages, later) == Err::<Event, _>(Rejection::AfterEnd),
    decreases later - ended,
{
    lemma_phase_steps(rates, messages, ended);
    if later > ended + 1 {
        law_session_end_absorbs(rates, messages, ended, later - 1);
        lemma_phase_steps(rates, messages, later - 1);
    }
}

/// An active session was started by a UUID message, and by that message alone.
proof fn lemma_active_was_started(rates: Set<SampleRate>, messages: Seq<Message>, index: int) -> (
    started: int)
    requires
        0 <= index <= messages.len(),
        phase_after(Phase::AwaitingUuid, rates, messages.take(index)) is Active,
    ensures
        0 <= started < index,
        outcome_at(rates, messages, started) == Ok::<_, Rejection>(
            Event::Started(
                phase_after(Phase::AwaitingUuid, rates, messages.take(index))->Active_0,
            ),
        ),
    decreases index,
{
    if index == 0 {
        assert(messages.take(0) =~= Seq::<Message>::empty());
        0
    } else {
        lemma_phase_steps(rates, messages, index - 1);
        if phase_after(Phase::AwaitingUuid, rates, messages.take(index - 1)) is Active {
            lemma_active_was_started(rates, messages, index - 1)
        } else {
            index - 1
        }
    }
}

/// Audio and DTMF belong to the identity that an earlier message established.
pub proof fn law_media_belongs_to_the_started_identity(
    rates: Set<SampleRate>,
    messages: Seq<Message>,
    index: int,
)
    requires
        0 <= index < messages.len(),
    ensures
        match outcome_at(rates, messages, index) {
            Ok(Event::Audio(uuid, rate, _)) => rates.contains(rate) && exists|started: int|
                0 <= started < index && #[trigger] outcome_at(rates, messages, started) == Ok::<
                    _,
                    Rejection,
                >(Event::Started(uuid)),
            Ok(Event::Dtmf(uuid, value)) => accepted_digit(value) && exists|started: int|
                0 <= started < index && #[trigger] outcome_at(rates, messages, started) == Ok::<
                    _,
                    Rejection,
                >(Event::Started(uuid)),
            _ => true,
        },
{
    if phase_after(Phase::AwaitingUuid, rates, messages.take(index)) is Active {
        let started = lemma_active_was_started(rates, messages, index);
        assert(0 <= started < index);
    }
}

/// A session never returns to waiting for a UUID once a message was applied.
proof fn lemma_waiting_is_over(rates: Set<SampleRate>, messages: Seq<Message>, index: int)
    requires
        0 < index <= messages.len(),
    ensures
        !(phase_after(Phase::AwaitingUuid, rates, messages.take(index)) is AwaitingUuid),
    decreases index,
{
    lemma_phase_steps(rates, messages, index - 1);
    if index > 1 {
        lemma_waiting_is_over(rates, messages, index - 1);
    }
}

/// Only the first message can establish the identity, so a session has one
/// identity at most.
pub proof fn law_identity_is_established_once(
    rates: Set<SampleRate>,
    messages: Seq<Message>,
    index: int,
)
    requires
        0 <= index < messages.len(),
        outcome_at(rates, messages, index) matches Ok(Event::Started(_)),
    ensures
        index == 0,
{
    if index > 0 {
        lemma_waiting_is_over(rates, messages, index);
    }
}

/// Which keys a session accepts does not depend on its profile: those of a telephone
/// are accepted, belong to the identity and leave the session active, and any other ends
/// it.
pub proof fn law_keys_are_accepted_under_every_profile(
    uuid: Seq<u8>,
    rates: Set<SampleRate>,
    value: u8,
)
    ensures
        ({
            let key = value as char;
            let (outcome, next) = policy(Phase::Active(uuid), rates, Message::Dtmf(value));
            if '0' <= key <= '9' || key == '*' || key == '#' || 'A' <= key <= 'D' {
                outcome == Ok::<_, Rejection>(Event::Dtmf(uuid, value)) && next == Phase::Active(
                    uuid,
                )
            } else {
                outcome == Err::<Event, _>(Rejection::UnsupportedDigit(value)) && next is Ended
            }
        }),
{
}

/// A profile matters to audio only, and of audio only to its rate: two profiles that
/// agree on the rate of a message, or any two if it is not audio, treat it alike.
pub proof fn law_profiles_matter_to_rates_only(
    phase: Phase,
    one: Set<SampleRate>,
    other: Set<SampleRate>,
    message: Message,
)
    requires
        message matches Message::Audio(rate, _) ==> one.contains(rate) == other.contains(rate),
    ensures
        policy(phase, one, message) == policy(phase, other, message),
{
}

/// An active session accepts audio exactly at the rates of its profile, whatever the
/// samples are, as the samples that arrived and for its identity.
pub proof fn law_audio_is_accepted_at_the_profile_rates(
    uuid: Seq<u8>,
    rates: Set<SampleRate>,
    rate: SampleRate,
    pcm: Seq<u8>,
)
    ensures
        ({
            let (outcome, next) = policy(Phase::Active(uuid), rates, Message::Audio(rate, pcm));
            &&& rates.contains(rate) ==> outcome == Ok::<_, Rejection>(
                Event::Audio(uuid, rate, pcm),
            ) && next == Phase::Active(uuid)
            &&& !rates.contains(rate) ==> outcome == Err::<Event, _>(
                Rejection::UnsupportedRate(rate),
            ) && next is Ended
        }),
{
}

/// An accepted event carries what its message carried, and nothing else: the identity
/// is that of the one UUID, media and keys are those that arrived, and an end tells the
/// identity that was established before it.
pub proof fn law_events_carry_their_messages(
    phase: Phase,
    rates: Set<SampleRate>,
    message: Message,
)
    ensures
        ({
            let (outcome, next) = policy(phase, rates, message);
            match outcome {
                Ok(Event::Started(uuid)) => {
                    &&& message == Message::Uuid(uuid)
                    &&& phase is AwaitingUuid
                    &&& next == Phase::Active(uuid)
                },
                Ok(Event::Audio(uuid, rate, pcm)) => {
                    &&& message == Message::Audio(rate, pcm)
                    &&& phase == Phase::Active(uuid)
                    &&& next == phase
                },
                Ok(Event::Dtmf(uuid, value)) => {
                    &&& message == Message::Dtmf(value)
                    &&& phase == Phase::Active(uuid)
                    &&& next == phase
                },
                Ok(Event::Ended(identity, End::Terminate)) => {
                    &&& message is Terminate
                    &&& !(phase is Ended)
                    &&& (identity matches Some(uuid) ==> phase == Phase::Active(uuid))
                    &&& (identity is None ==> phase is AwaitingUuid)
                    &&& next is Ended
                },
                Ok(Event::Ended(identity, End::PeerError(bytes))) => {
                    &&& message == Message::Error(bytes)
                    &&& !(phase is Ended)
                    &&& (identity matches Some(uuid) ==> phase == Phase::Active(uuid))
                    &&& (identity is None ==> phase is AwaitingUuid)
                    &&& next is Ended
                },
                Ok(Event::Ended(_, End::EndOfInput)) => false,
                Err(_) => next is Ended,
            }
        }),
{
}

/// A message is rejected for one reason, which it gives: it comes after the end, is of
/// an unassigned type, is media or a key before the identity or a second identity, or
/// has a rate outside the profile or a key that no telephone has. Every other message is
/// accepted.
pub proof fn law_rejections_give_reason(phase: Phase, rates: Set<SampleRate>, message: Message)
    ensures
        ({
            let key = message->Dtmf_0 as char;
            match policy(phase, rates, message).0 {
                Err(Rejection::AfterEnd) => phase is Ended,
                Err(Rejection::UnsupportedType(byte)) => {
                    &&& !(phase is Ended)
                    &&& message is Unknown
                    &&& message->Unknown_0 == byte
                },
                Err(Rejection::MissingUuid) => {
                    &&& phase is AwaitingUuid
                    &&& message is Audio || message is Dtmf
                },
                Err(Rejection::DuplicateUuid) => phase is Active && message is Uuid,
                Err(Rejection::UnsupportedRate(rate)) => {
                    &&& phase is Active
                    &&& message is Audio
                    &&& message->Audio_0 == rate
                    &&& !rates.contains(rate)
                },
                Err(Rejection::UnsupportedDigit(value)) => {
                    &&& phase is Active
                    &&& message == Message::Dtmf(value)
                    &&& !('0' <= key <= '9' || key == '*' || key == '#' || 'A' <= key <= 'D')
                },
                Ok(_) => {
                    &&& !(phase is Ended)
                    &&& !(message is Unknown)
                    &&& phase is AwaitingUuid ==> !(message is Audio) && !(message is Dtmf)
                    &&& phase is Active ==> !(message is Uuid)
                },
            }
        }),
{
}

/// The clean end of the input ends a session that has not ended, and tells its identity:
/// the one that was established, and none before that.
pub proof fn law_ends_of_input_tell_the_identity(uuid: Seq<u8>)
    ensures
        end_outcome(Phase::AwaitingUuid) == Ok::<_, Rejection>(Event::Ended(None, End::EndOfInput)),
        end_outcome(Phase::Active(uuid)) == Ok::<_, Rejection>(
            Event::Ended(Some(uuid), End::EndOfInput),
        ),
        end_outcome(Phase::Ended) == Err::<Event, _>(Rejection::AfterEnd),
        established(Phase::Active(uuid)) == Some(uuid),
        established(Phase::AwaitingUuid) is None,
        established(Phase::Ended) is None,
{
}

/// A session that got its identity goes on for as long as it gets accepted media and
/// keys: each of them means itself, in order, for that identity.
pub proof fn law_accepted_media_goes_through(
    uuid: Seq<u8>,
    rates: Set<SampleRate>,
    messages: Seq<Message>,
    index: int,
)
    requires
        0 <= index < messages.len(),
        messages[0] == Message::Uuid(uuid),
        forall|i: int|
            0 < i <= index ==> match #[trigger] messages[i] {
                Message::Audio(rate, _) => rates.contains(rate),
                Message::Dtmf(value) => {
                    let key = value as char;
                    '0' <= key <= '9' || key == '*' || key == '#' || 'A' <= key <= 'D'
                },
                _ => false,
            },
    ensures
        outcome_at(rates, messages, index) == Ok::<_, Rejection>(
            match messages[index] {
                Message::Audio(rate, pcm) => Event::Audio(uuid, rate, pcm),
                Message::Dtmf(value) => Event::Dtmf(uuid, value),
                _ => Event::Started(uuid),
            },
        ),
        phase_after(Phase::AwaitingUuid, rates, messages.take(index + 1)) == Phase::Active(uuid),
    decreases index,
{
    if index == 0 {
        assert(messages.take(0) =~= Seq::<Message>::empty());
    } else {
        law_accepted_media_goes_through(uuid, rates, messages, index - 1);
    }
    lemma_phase_steps(rates, messages, index);
}

} // verus!
