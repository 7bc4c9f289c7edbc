//! Incremental bounded decoding of one wire frame at a time.
use vstd::prelude::*;

use crate::envelope::{
    length_violation, message_of, validate_typed_length, RawEnvelope, HEADER_BYTES,
};
use crate::error::TypedMessageError;
use crate::message::{Message, TypedMessage};
use crate::wire_type::WireType;

verus! {

/// The result of one non-terminal decoder feed.
#[derive(Clone, Copy, Debug, PartialEq, Eq)]
pub enum DecodeOutcome<M> {
    /// More bytes are needed to complete the current header or body.
    NeedInput,
    /// One complete borrowed message is available.
    Frame(M),
}

/// A terminal error from `feed`.
#[derive(Clone, Copy, Debug, PartialEq, Eq, Structural)]
pub enum DecodeError {
    /// A known type has an invalid declared body length.
    InvalidLength(TypedMessageError),
    /// The caller-owned scratch cannot contain the declared body.
    ResourceLimit {
        /// Declared body bytes required.
        required: usize,
        /// Available scratch bytes.
        capacity: usize,
    },
    /// A complete known body violates typed content rules.
    InvalidContent(TypedMessageError),
    /// An earlier terminal error has made this decoder unusable.
    Failed,
}

/// Result of explicitly ending an input stream.
#[derive(Clone, Copy, Debug, PartialEq, Eq, Structural)]
pub enum FinishError {
    /// EOF arrived in a partial three-byte header.
    TruncatedHeader {
        /// Header byte count.
        expected: usize,
        /// Header bytes received.
        received: usize,
    },
    /// EOF arrived in a partial body.
    TruncatedPayload {
        /// Declared body byte count.
        expected: usize,
        /// Body bytes received.
        received: usize,
    },
    /// A prior terminal error occurred.
    Failed,
}

/// What a decoder remembers between feeds: the bytes of the frame that is not
/// complete yet, or that a terminal error has happened.
pub enum Assembly {
    /// The bytes received of the current frame, header first.
    Pending(Seq<u8>),
    /// A terminal error happened.
    Failed,
}

/// What lies at the front of a byte sequence that starts at a frame boundary.
pub enum Front {
    /// The bytes do not reach the end of a frame.
    Incomplete,
    /// A whole frame: its type byte and its body.
    Frame(u8, Seq<u8>),
    /// A header that cannot be accepted.
    Refused(DecodeError),
}

/// The body length that a header declares.
pub open spec fn declared_length(header: Seq<u8>) -> nat {
    (header[1] as nat) * 256 + header[2] as nat
}

/// Reads the front of `bytes` with room for a body of `capacity` bytes; `strict`
/// applies the typed length policy as soon as the header is there.
pub open spec fn front(bytes: Seq<u8>, capacity: usize, strict: bool) -> Front {
    let length = declared_length(bytes);
    if bytes.len() < 3 {
        Front::Incomplete
    } else if strict && length_violation(bytes[0], length) is Some {
        Front::Refused(DecodeError::InvalidLength(length_violation(bytes[0], length)->0))
    } else if length > capacity {
        Front::Refused(DecodeError::ResourceLimit { required: length as usize, capacity })
    } else if bytes.len() < 3 + length {
        Front::Incomplete
    } else {
        Front::Frame(bytes[0], bytes.subrange(3, 3 + length as int))
    }
}

/// How many bytes of the front belong to what `front` found there.
pub open spec fn front_length(bytes: Seq<u8>, capacity: usize, strict: bool) -> nat {
    match front(bytes, capacity, strict) {
        Front::Incomplete => bytes.len(),
        Front::Frame(_, body) => 3 + body.len(),
        Front::Refused(_) => 3,
    }
}

/// The bytes that are left behind the front.
pub open spec fn behind(bytes: Seq<u8>, capacity: usize, strict: bool) -> Seq<u8> {
    bytes.subrange(front_length(bytes, capacity, strict) as int, bytes.len() as int)
}

/// What scratch storage holds after `bytes` were fed up to the end of one frame: the
/// body bytes at its beginning, and behind them what was there. Nothing is stored of a
/// frame whose header is refused.
pub open spec fn stored(scratch: Seq<u8>, bytes: Seq<u8>, strict: bool) -> Seq<u8> {
    match front(bytes, scratch.len() as usize, strict) {
        Front::Incomplete => if bytes.len() <= 3 {
            scratch
        } else {
            bytes.skip(3) + scratch.skip(bytes.len() - 3)
        },
        Front::Frame(_, body) => body + scratch.skip(body.len() as int),
        Front::Refused(_) => scratch,
    }
}

#[derive(Clone, Copy)]
pub(crate) struct CompletedFrame {
    pub wire_type: WireType,
    pub length: usize,
}

#[derive(Clone, Copy)]
enum FramerState {
    Header { received: usize },
    Body { wire_type: WireType, length: usize, received: usize },
    Failed,
}

/// Frame assembly over a scratch area that the owner keeps.
pub(crate) struct Framer {
    header: [u8; 3],
    state: FramerState,
}

impl Framer {
    /// The bytes of the unfinished frame, of which the body lies in `scratch`.
    pub closed spec fn assembly(self, scratch: Seq<u8>) -> Assembly {
        match self.state {
            FramerState::Header { received } => Assembly::Pending(
                self.header@.subrange(0, received as int),
            ),
            FramerState::Body { received, .. } => Assembly::Pending(
                self.header@ + scratch.subrange(0, received as int),
            ),
            FramerState::Failed => Assembly::Failed,
        }
    }

    /// The state fits the scratch area, and the bytes it holds stop short of a frame.
    pub closed spec fn wf(self, scratch: Seq<u8>, strict: bool) -> bool {
        match self.state {
            FramerState::Header { received } => received < 3,
            FramerState::Body { wire_type, length, received } => {
                &&& received < length <= scratch.len()
                &&& wire_type@ == self.header@[0]
                &&& length == declared_length(self.header@)
                &&& strict ==> length_violation(wire_type@, length as nat) is None
            },
            FramerState::Failed => true,
        }
    }

    pub(crate) fn new() -> (framer: Framer)
        ensures
            forall|scratch: Seq<u8>, strict: bool| #[trigger] framer.wf(scratch, strict),
            forall|scratch: Seq<u8>| #[trigger]
                framer.assembly(scratch) == Assembly::Pending(Seq::<u8>::empty()),
    {
        let framer = Framer { header: [0; 3], state: FramerState::Header { received: 0 } };
        assert(framer.header@.subrange(0, 0) =~= Seq::<u8>::empty());
        framer
    }

    /// What is remembered stops short of a frame.
    pub(crate) proof fn lemma_pending_is_incomplete(self, scratch: Seq<u8>, strict: bool)
        requires
            self.wf(scratch, strict),
            scratch.len() <= usize::MAX,
        ensures
            self.assembly(scratch) matches Assembly::Pending(pending) ==> front(
                pending,
                scratch.len() as usize,
                strict,
            ) is Incomplete,
    {
        if let FramerState::Body { received, .. } = self.state {
            let pending = self.header@ + scratch.subrange(0, received as int);
            assert(declared_length(pending) == declared_length(self.header@));
        }
    }

    /// Takes bytes from the front of `input` up to the end of one frame.
    pub(crate) fn feed(
        &mut self,
        scratch: &mut [u8],
        input: &mut &[u8],
        strict: bool,
    ) -> (result: Result<Option<CompletedFrame>, DecodeError>)
        requires
            old(self).wf(old(scratch)@, strict),
        ensures
            final(self).wf(final(scratch)@, strict),
            final(scratch)@.len() == old(scratch)@.len(),
            match old(self).assembly(old(scratch)@) {
                Assembly::Failed => {
                    &&& result == Err::<Option<CompletedFrame>, _>(DecodeError::Failed)
                    &&& final(self).assembly(final(scratch)@) is Failed
                    &&& final(input)@ == old(input)@
                    &&& final(scratch)@ == old(scratch)@
                },
                Assembly::Pending(pending) => {
                    let bytes = pending + old(input)@;
                    let capacity = old(scratch)@.len() as usize;
                    &&& pending.len() <= front_length(bytes, capacity, strict)
                    &&& final(input)@ == behind(bytes, capacity, strict)
                    &&& final(scratch)@ == stored(old(scratch)@, bytes, strict)
                    &&& match front(bytes, capacity, strict) {
                        Front::Incomplete => {
                            &&& result == Ok::<_, DecodeError>(None::<CompletedFrame>)
                            &&& final(self).assembly(final(scratch)@) == Assembly::Pending(bytes)
                        },
                        Front::Frame(byte, body) => {
                            &&& final(self).assembly(final(scratch)@) == Assembly::Pending(
                                Seq::<u8>::empty(),
                            )
                            &&& result matches Ok(Some(frame))
                            &&& frame.wire_type@ == byte
                            &&& frame.length == body.len()
                            &&& frame.length <= 65_535
                            &&& frame.length <= final(scratch)@.len()
                            &&& final(scratch)@.subrange(0, frame.length as int) == body
                            &&& strict ==> length_violation(byte, body.len()) is None
                        },
                        Front::Refused(error) => {
                            &&& result == Err::<Option<CompletedFrame>, _>(error)
                            &&& final(self).assembly(final(scratch)@) is Failed
                        },
                    }
                },
            },
    {
        let ghost before = *self;
        let ghost start = scratch@;
        let ghost whole = input@;
        let capacity: usize = scratch.len();
        assert(capacity == old(scratch)@.len() as usize);
        if let FramerState::Failed = self.state {
            return Err(DecodeError::Failed);
        }
        if let FramerState::Header { received } = self.state {
            let ghost pending = before.header@.subrange(0, received as int);
            let ghost bytes = pending + whole;
            let copied: usize = copy_into(&mut self.header, received, 3, input);
            let now: usize = received + copied;
            assert(self.header@.subrange(0, now as int) =~= bytes.subrange(0, now as int));
            if now < HEADER_BYTES {
                self.state = FramerState::Header { received: now };
                assert(bytes.subrange(0, now as int) =~= bytes);
                assert(input@ =~= behind(bytes, capacity, strict));
                return Ok(None);
            }
            assert forall|k: int| 0 <= k < 3 implies self.header@[k] == bytes[k] by {
                assert(self.header@.subrange(0, 3)[k] == bytes.subrange(0, 3)[k]);
            }
            assert(input@ =~= bytes.subrange(3, bytes.len() as int));
            let wire_type = WireType::new(self.header[0]);
            let length: usize = self.header[1] as usize * 256 + self.header[2] as usize;
            assert(length == declared_length(bytes));
            if strict {
                if let Err(error) = validate_typed_length(wire_type, length) {
                    self.fail();
                    return Err(DecodeError::InvalidLength(error));
                }
            }
            if length > capacity {
                self.fail();
                return Err(DecodeError::ResourceLimit { required: length, capacity });
            }
            if length == 0 {
                self.state = FramerState::Header { received: 0 };
                assert(self.header@.subrange(0, 0) =~= Seq::<u8>::empty());
                assert(scratch@.subrange(0, 0) =~= bytes.subrange(3, 3));
                return Ok(Some(CompletedFrame { wire_type, length }));
            }
            self.state = FramerState::Body { wire_type, length, received: 0 };
            assert(pending + whole =~= self.header@ + scratch@.subrange(0, 0) + input@);
        }
        if let FramerState::Body { wire_type, length, received } = self.state {
            let ghost rest = input@;
            let ghost bytes = self.header@ + start.subrange(0, received as int) + rest;
            assert(before.assembly(start) matches Assembly::Pending(pending) && bytes =~= pending
                + whole);
            assert(declared_length(bytes) == length);
            assert(bytes[0] == wire_type@);
            let copied: usize = copy_into(scratch, received, length, input);
            let now: usize = received + copied;
            assert(scratch@.subrange(0, now as int) =~= bytes.subrange(3, 3 + now));
            if now < length {
                self.state = FramerState::Body { wire_type, length, received: now };
                assert(self.header@ + scratch@.subrange(0, now as int) =~= bytes);
                assert(input@ =~= behind(bytes, capacity, strict));
                return Ok(None);
            }
            self.state = FramerState::Header { received: 0 };
            assert(self.header@.subrange(0, 0) =~= Seq::<u8>::empty());
            assert(input@ =~= behind(bytes, capacity, strict));
            return Ok(Some(CompletedFrame { wire_type, length }));
        }
        Err(DecodeError::Failed)
    }

    pub(crate) fn fail(&mut self)
        ensures
            forall|scratch: Seq<u8>, strict: bool| #[trigger] final(self).wf(scratch, strict),
            forall|scratch: Seq<u8>| #[trigger] final(self).assembly(scratch) is Failed,
    {
        self.state = FramerState::Failed;
    }

    /// Ends the input: the frame boundary is the only clean place.
    pub(crate) fn finish(
        &self,
        Ghost(scratch): Ghost<Seq<u8>>,
        Ghost(strict): Ghost<bool>,
    ) -> (result: Result<(), FinishError>)
        requires
            self.wf(scratch, strict),
        ensures
            result == finish_of(self.assembly(scratch)),
    {
        match self.state {
            FramerState::Header { received } => if received == 0 {
                Ok(())
            } else {
                Err(FinishError::TruncatedHeader { expected: HEADER_BYTES, received })
            },
            FramerState::Body { length, received, .. } => {
                assert((self.header@ + scratch.subrange(0, received as int))[1] == self.header@[1]);
                Err(FinishError::TruncatedPayload { expected: length, received })
            },
            FramerState::Failed => Err(FinishError::Failed),
        }
    }
}

/// What ending the input means for a decoder that remembers `assembly`.
pub open spec fn finish_of(assembly: Assembly) -> Result<(), FinishError> {
    match assembly {
        Assembly::Failed => Err(FinishError::Failed),
        Assembly::Pending(pending) => if pending.len() == 0 {
            Ok(())
        } else if pending.len() < 3 {
            Err(FinishError::TruncatedHeader { expected: 3, received: pending.len() as usize })
        } else {
            Err(
                FinishError::TruncatedPayload {
                    expected: declared_length(pending) as usize,
                    received: (pending.len() - 3) as usize,
                },
            )
        },
    }
}

/// Moves bytes from the front of `input` into `destination[from..until]`.
fn copy_into(destination: &mut [u8], from: usize, until: usize, input: &mut &[u8]) -> (count: usize)
    requires
        from <= until <= old(destination)@.len(),
    ensures
        final(destination)@.len() == old(destination)@.len(),
        count == if until - from < old(input)@.len() {
            until - from
        } else {
            old(input)@.len() as int
        },
        final(destination)@ == old(destination)@.subrange(0, from as int) + old(input)@.subrange(
            0,
            count as int,
        ) + old(destination)@.subrange(from + count, old(destination)@.len() as int),
        final(input)@ == old(input)@.subrange(count as int, old(input)@.len() as int),
{
    let room: usize = until - from;
    let count: usize = if room < input.len() {
        room
    } else {
        input.len()
    };
    let ghost start = destination@;
    let size: usize = destination.len();
    let (prefix, remainder) = input.split_at(count);
    let mut i: usize = 0;
    while i < count
        invariant
            i <= count,
            from + count <= size,
            size == destination@.len(),
            prefix@.len() == count,
            destination@.len() == start.len(),
            destination@ =~= start.subrange(0, from as int) + prefix@.subrange(0, i as int)
                + start.subrange(from + i, start.len() as int),
        decreases count - i,
    {
        destination[from + i] = prefix[i];
        i = i + 1;
    }
    *input = remainder;
    count
}

/// A streaming decoder that preserves every wire envelope.
pub struct RawDecoder<'storage> {
    scratch: &'storage mut [u8],
    framer: Framer,
}

impl<'storage> RawDecoder<'storage> {
    /// The unfinished frame lies in the scratch storage.
    pub closed spec fn wf(self) -> bool {
        self.framer.wf(self.scratch@, false)
    }

    /// What the decoder remembers of the frame that is not complete yet.
    pub closed spec fn assembly(self) -> Assembly {
        self.framer.assembly(self.scratch@)
    }

    /// What the scratch storage holds.
    pub closed spec fn storage(self) -> Seq<u8> {
        self.scratch@
    }

    /// The longest body that fits the scratch storage.
    pub closed spec fn capacity(self) -> usize {
        self.scratch@.len() as usize
    }

    /// Creates a raw decoder using caller-owned body scratch storage.
    #[must_use]
    pub fn new(scratch: &'storage mut [u8]) -> (decoder: RawDecoder<'storage>)
        ensures
            decoder.wf(),
            decoder.assembly() == Assembly::Pending(Seq::<u8>::empty()),
            decoder.capacity() == old(scratch)@.len(),
            decoder.storage() == old(scratch)@,
    {
        assert(scratch.len() == scratch@.len());
        RawDecoder { scratch, framer: Framer::new() }
    }

    /// Consumes one complete raw frame at most.
    ///
    /// `input` advances only by bytes consumed during this call. A capacity error
    /// is terminal and comes after the full header and no body byte was consumed;
    /// every later call returns [`DecodeError::Failed`] and consumes nothing.
    pub fn feed<'decoder>(&'decoder mut self, input: &mut &[u8]) -> (result: Result<
        DecodeOutcome<RawEnvelope<'decoder>>,
        DecodeError,
    >)
        requires
            old(self).wf(),
        ensures
            final(self).wf(),
            final(self).capacity() == old(self).capacity(),
            match old(self).assembly() {
                Assembly::Failed => {
                    &&& result matches Err(error)
                    &&& error == DecodeError::Failed
                    &&& final(self).assembly() is Failed
                    &&& final(self).storage() == old(self).storage()
                    &&& final(input)@ == old(input)@
                },
                Assembly::Pending(pending) => {
                    let bytes = pending + old(input)@;
                    let capacity = old(self).capacity();
                    &&& pending.len() <= front_length(bytes, capacity, false)
                    &&& final(input)@ == behind(bytes, capacity, false)
                    &&& final(self).storage() == stored(old(self).storage(), bytes, false)
                    &&& match front(bytes, capacity, false) {
                        Front::Incomplete => {
                            &&& result matches Ok(DecodeOutcome::NeedInput)
                            &&& final(self).assembly() == Assembly::Pending(bytes)
                        },
                        Front::Frame(byte, body) => {
                            &&& result matches Ok(DecodeOutcome::Frame(raw))
                            &&& raw.byte() == byte
                            &&& raw.body() == body
                            &&& final(self).assembly() == Assembly::Pending(Seq::<u8>::empty())
                        },
                        Front::Refused(refusal) => {
                            &&& result matches Err(error)
                            &&& error == refusal
                            &&& final(self).assembly() is Failed
                        },
                    }
                },
            },
    {
        match self.framer.feed(self.scratch, input, false) {
            Ok(Some(frame)) => {
                let scratch: &'decoder [u8] = &*self.scratch;
                Ok(
                    DecodeOutcome::Frame(
                        RawEnvelope::from_wire_bounded(frame.wire_type, &scratch[0..frame.length]),
                    ),
                )
            },
            Ok(None) => Ok(DecodeOutcome::NeedInput),
            Err(error) => Err(error),
        }
    }

    /// Finalizes the decoder at an explicit input boundary: clean exactly at a
    /// frame boundary, else the unfinished header or payload size.
    pub fn finish(self) -> (result: Result<(), FinishError>)
        requires
            self.wf(),
        ensures
            result == finish_of(self.assembly()),
    {
        self.framer.finish(Ghost(self.scratch@), Ghost(false))
    }
}

/// What strict decoding finds at the front of a byte sequence.
pub enum TypedFront {
    /// The bytes do not reach the end of a frame.
    Incomplete,
    /// A whole frame that carries this message.
    Message(Message),
    /// A header or a whole frame that cannot be accepted.
    Refused(DecodeError),
}

/// Reads the front of `bytes` as a typed message.
pub open spec fn typed_front(bytes: Seq<u8>, capacity: usize) -> TypedFront {
    match front(bytes, capacity, true) {
        Front::Incomplete => TypedFront::Incomplete,
        Front::Frame(byte, body) => match message_of(byte, body) {
            Ok(message) => TypedFront::Message(message),
            Err(error) => TypedFront::Refused(DecodeError::InvalidContent(error)),
        },
        Front::Refused(error) => TypedFront::Refused(error),
    }
}

/// A streaming decoder that returns only semantically valid typed messages.
pub struct Decoder<'storage> {
    scratch: &'storage mut [u8],
    framer: Framer,
}

impl<'storage> Decoder<'storage> {
    /// The unfinished frame lies in the scratch storage.
    pub closed spec fn wf(self) -> bool {
        self.framer.wf(self.scratch@, true)
    }

    /// What the decoder remembers of the frame that is not complete yet.
    pub closed spec fn assembly(self) -> Assembly {
        self.framer.assembly(self.scratch@)
    }

    /// What the scratch storage holds.
    pub closed spec fn storage(self) -> Seq<u8> {
        self.scratch@
    }

    /// The longest body that fits the scratch storage.
    pub closed spec fn capacity(self) -> usize {
        self.scratch@.len() as usize
    }

    /// Creates a strict typed decoder using caller-owned body scratch storage.
    #[must_use]
    pub fn new(scratch: &'storage mut [u8]) -> (decoder: Decoder<'storage>)
        ensures
            decoder.wf(),
            decoder.assembly() == Assembly::Pending(Seq::<u8>::empty()),
            decoder.capacity() == old(scratch)@.len(),
            decoder.storage() == old(scratch)@,
    {
        assert(scratch.len() == scratch@.len());
        Decoder { scratch, framer: Framer::new() }
    }

    /// Consumes one complete typed frame at most.
    ///
    /// `input` advances only by bytes consumed during this call. A length error
    /// is terminal and comes after the header and before any body byte; invalid
    /// typed content consumes its complete body first.
    pub fn feed<'decoder>(&'decoder mut self, input: &mut &[u8]) -> (result: Result<
        DecodeOutcome<TypedMessage<'decoder>>,
        DecodeError,
    >)
        requires
            old(self).wf(),
        ensures
            final(self).wf(),
            final(self).capacity() == old(self).capacity(),
            match old(self).assembly() {
                Assembly::Failed => {
                    &&& result matches Err(error)
                    &&& error == DecodeError::Failed
                    &&& final(self).assembly() is Failed
                    &&& final(self).storage() == old(self).storage()
                    &&& final(input)@ == old(input)@
                },
                Assembly::Pending(pending) => {
                    let bytes = pending + old(input)@;
                    let capacity = old(self).capacity();
                    &&& pending.len() <= front_length(bytes, capacity, true)
                    &&& final(input)@ == behind(bytes, capacity, true)
                    &&& final(self).storage() == stored(old(self).storage(), bytes, true)
                    &&& match typed_front(bytes, capacity) {
                        TypedFront::Incomplete => {
                            &&& result matches Ok(DecodeOutcome::NeedInput)
                            &&& final(self).assembly() == Assembly::Pending(bytes)
                        },
                        TypedFront::Message(message) => {
                            &&& result matches Ok(DecodeOutcome::Frame(typed))
                            &&& typed@ == message
                            &&& message.valid()
                            &&& final(self).assembly() == Assembly::Pending(Seq::<u8>::empty())
                        },
                        TypedFront::Refused(refusal) => {
                            &&& result matches Err(error)
                            &&& error == refusal
                            &&& final(self).assembly() is Failed
                        },
                    }
                },
            },
    {
        match self.framer.feed(self.scratch, input, true) {
            Ok(Some(frame)) => {
                let scratch: &'decoder [u8] = &*self.scratch;
                let raw = RawEnvelope::from_wire_bounded(
                    frame.wire_type,
                    &scratch[0..frame.length],
                );
                match raw.typed() {
                    Ok(message) => Ok(DecodeOutcome::Frame(message)),
                    Err(error) => {
                        self.framer.fail();
                        Err(DecodeError::InvalidContent(error))
                    },
                }
            },
            Ok(None) => Ok(DecodeOutcome::NeedInput),
            Err(error) => Err(error),
        }
    }

    /// Finalizes the decoder at an explicit input boundary: clean exactly at a
    /// frame boundary, else the unfinished header or payload size.
    pub fn finish(self) -> (result: Result<(), FinishError>)
        requires
            self.wf(),
        ensures
            result == finish_of(self.assembly()),
    {
        self.framer.finish(Ghost(self.scratch@), Ghost(true))
    }
}

/// Everything that feeding `bytes` until they are used up or refused yields from
/// a raw decoder: the frames in order, an error last if there is one, and what
/// the decoder remembers then.
pub open spec fn drain_raw(bytes: Seq<u8>, capacity: usize) -> (Seq<Front>, Assembly)
    decreases bytes.len(),
{
    match front(bytes, capacity, false) {
        Front::Incomplete => (Seq::empty(), Assembly::Pending(bytes)),
        Front::Frame(byte, body) => {
            let (rest, last) = drain_raw(behind(bytes, capacity, false), capacity);
            (seq![Front::Frame(byte, body)] + rest, last)
        },
        Front::Refused(error) => (seq![Front::Refused(error)], Assembly::Failed),
    }
}

/// Everything that feeding `bytes` until they are used up or refused yields from
/// a typed decoder.
pub open spec fn drain_typed(bytes: Seq<u8>, capacity: usize) -> (Seq<TypedFront>, Assembly)
    decreases bytes.len(),
{
    match typed_front(bytes, capacity) {
        TypedFront::Incomplete => (Seq::empty(), Assembly::Pending(bytes)),
        TypedFront::Message(message) => {
            let (rest, last) = drain_typed(behind(bytes, capacity, true), capacity);
            (seq![TypedFront::Message(message)] + rest, last)
        },
        TypedFront::Refused(error) => (seq![TypedFront::Refused(error)], Assembly::Failed),
    }
}

/// A front that is settled stays what it is when more bytes arrive behind it.
pub(crate) proof fn lemma_front_is_settled(bytes: Seq<u8>, more: Seq<u8>, capacity: usize, strict: bool)
    requires
        !(front(bytes, capacity, strict) is Incomplete),
    ensures
        front(bytes + more, capacity, strict) == front(bytes, capacity, strict),
        behind(bytes + more, capacity, strict) == behind(bytes, capacity, strict) + more,
{
    let length = declared_length(bytes);
    assert(declared_length(bytes + more) == length);
    if bytes.len() >= 3 + length {
        assert((bytes + more).subrange(3, 3 + length as int) =~= bytes.subrange(
            3,
            3 + length as int,
        ));
    }
    assert(behind(bytes + more, capacity, strict) =~= behind(bytes, capacity, strict) + more);
}

/// How the input is cut does not matter to a raw decoder: feeding `first` and
/// later `second` yields the frames, the error and the remembered bytes that
/// feeding both at once yields. After an error nothing more is yielded.
pub proof fn law_raw_fragmentation(first: Seq<u8>, second: Seq<u8>, capacity: usize)
    ensures
        match drain_raw(first, capacity) {
            (yielded, Assembly::Pending(pending)) => drain_raw(first + second, capacity) == (
                yielded + drain_raw(pending + second, capacity).0,
                drain_raw(pending + second, capacity).1,
            ),
            (yielded, Assembly::Failed) => drain_raw(first + second, capacity) == (
                yielded,
                Assembly::Failed,
            ),
        },
    decreases first.len(),
{
    match front(first, capacity, false) {
        Front::Incomplete => {
            assert(Seq::<Front>::empty() + drain_raw(first + second, capacity).0 =~= drain_raw(
                first + second,
                capacity,
            ).0);
        },
        Front::Frame(byte, body) => {
            lemma_front_is_settled(first, second, capacity, false);
            let rest = behind(first, capacity, false);
            law_raw_fragmentation(rest, second, capacity);
            if let Assembly::Pending(pending) = drain_raw(rest, capacity).1 {
                let later = drain_raw(pending + second, capacity).0;
                assert(seq![Front::Frame(byte, body)] + (drain_raw(rest, capacity).0 + later) =~= (
                seq![Front::Frame(byte, body)] + drain_raw(rest, capacity).0) + later);
            }
        },
        Front::Refused(_) => {
            lemma_front_is_settled(first, second, capacity, false);
        },
    }
}

/// How the input is cut does not matter to a typed decoder: feeding `first` and
/// later `second` yields the messages, the error and the remembered bytes that
/// feeding both at once yields. After an error nothing more is yielded.
pub proof fn law_typed_fragmentation(first: Seq<u8>, second: Seq<u8>, capacity: usize)
    ensures
        match drain_typed(first, capacity) {
            (yielded, Assembly::Pending(pending)) => drain_typed(first + second, capacity) == (
                yielded + drain_typed(pending + second, capacity).0,
                drain_typed(pending + second, capacity).1,
            ),
            (yielded, Assembly::Failed) => drain_typed(first + second, capacity) == (
                yielded,
                Assembly::Failed,
            ),
        },
    decreases first.len(),
{
    match typed_front(first, capacity) {
        TypedFront::Incomplete => {
            assert(Seq::<TypedFront>::empty() + drain_typed(first + second, capacity).0
                =~= drain_typed(first + second, capacity).0);
        },
        TypedFront::Message(message) => {
            lemma_front_is_settled(first, second, capacity, true);
            let rest = behind(first, capacity, true);
            law_typed_fragmentation(rest, second, capacity);
            if let Assembly::Pending(pending) = drain_typed(rest, capacity).1 {
                let later = drain_typed(pending + second, capacity).0;
                assert(seq![TypedFront::Message(message)] + (drain_typed(rest, capacity).0 + later)
                    =~= (seq![TypedFront::Message(message)] + drain_typed(rest, capacity).0)
                    + later);
            }
        },
        TypedFront::Refused(_) => {
            lemma_front_is_settled(first, second, capacity, true);
        },
    }
}

} // verus!
