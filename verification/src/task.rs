//! What one connection task may do in its turn, and what it has done so far.
use vstd::prelude::*;

use crate::memory::{total, BudgetError, ByteBudget, OwnedBytes};
use crate::record::ConnectionId;
use crate::scheduler::{Readiness, Scheduler, WaitReason};

verus! {

/// Observation counters of one task.
#[derive(Clone, Copy, Debug, PartialEq, Eq, Structural)]
pub struct Progress {
    /// Bytes observed by transport reads.
    pub read: u64,
    /// Bytes consumed by the decoder.
    pub consumed: u64,
    /// Wire bytes accepted by the record channel.
    pub wire_queued: u64,
    /// Records accepted by the record channel.
    pub records_queued: u64,
    /// A constructed record has not been accepted yet.
    pub pending_record: bool,
    /// The terminal record was accepted.
    pub terminal_queued: bool,
    /// A counter could not represent another result.
    pub counter_overflow: bool,
}

impl Progress {
    /// Nothing observed yet.
    pub open spec fn none() -> Progress {
        Progress {
            read: 0,
            consumed: 0,
            wire_queued: 0,
            records_queued: 0,
            pending_record: false,
            terminal_queued: false,
            counter_overflow: false,
        }
    }
}

impl Default for Progress {
    fn default() -> (progress: Progress)
        ensures
            progress == Progress::none(),
    {
        Progress {
            read: 0,
            consumed: 0,
            wire_queued: 0,
            records_queued: 0,
            pending_record: false,
            terminal_queued: false,
            counter_overflow: false,
        }
    }
}

/// An observation counter cannot represent another result.
#[derive(Clone, Copy, Debug, PartialEq, Eq, Structural)]
pub struct CounterOverflow;

/// Why a record could not be handed off.
#[derive(Clone, Copy, Debug, PartialEq, Eq, Structural)]
pub enum SendFailure {
    /// The consumer is gone.
    Disconnected,
    /// The record counter is exhausted.
    CounterOverflow,
}

/// What the record channel did with a record.
#[derive(Clone, Copy, Debug, PartialEq, Eq, Structural)]
pub enum Handoff {
    /// The record is in the channel.
    Accepted,
    /// The channel had no free slot, and the record came back.
    Full,
    /// The consumer is gone.
    Disconnected,
}

/// Where a handoff stands.
#[derive(Clone, Copy, Debug, PartialEq, Eq, Structural)]
pub enum SendStep {
    /// The task gave up its turn.
    Pending,
    /// The task may try the channel now.
    Try,
    /// The record was handed off.
    Done,
    /// The record cannot be handed off.
    Failed(SendFailure),
}

/// Where a copy stands.
pub enum CopyStep {
    /// The task gave up its turn.
    Pending,
    /// The copy was made, or can never be made.
    Ready(Result<OwnedBytes, BudgetError>),
}

/// The sum of a counter and an observation, if it can be represented.
pub fn add_observation(current: u64, count: usize) -> (result: Result<u64, CounterOverflow>)
    ensures
        match result {
            Ok(next) => next == current + count,
            Err(_) => current + count > u64::MAX,
        },
{
    match current.checked_add(count as u64) {
        Some(next) => Ok(next),
        None => Err(CounterOverflow),
    }
}

/// The turn budget and the counters of one connection task.
pub struct TaskContext {
    /// The connection that the task serves.
    pub id: ConnectionId,
    /// The peer's address.
    pub peer: String,
    /// The task's token.
    pub token: usize,
    /// Steps that are left in this turn.
    pub remaining: usize,
    /// What the task has observed and handed off.
    pub progress: Progress,
}

impl TaskContext {
    /// The connection that the task serves.
    pub open spec fn connection(self) -> ConnectionId {
        self.id
    }

    /// The peer's address.
    pub open spec fn peer_text(self) -> Seq<char> {
        self.peer@
    }

    /// The task's token.
    pub open spec fn name(self) -> usize {
        self.token
    }

    /// Steps that are left in this turn.
    pub open spec fn steps(self) -> usize {
        self.remaining
    }

    /// Everything but the counters and the steps is that of `other`.
    pub open spec fn same_task(self, other: TaskContext) -> bool {
        &&& self.id == other.id
        &&& self.peer == other.peer
        &&& self.token == other.token
    }

    /// Whether the task has the turn and requests nothing but, perhaps, `reason`.
    pub open spec fn may_request(self, readiness: Readiness, reason: WaitReason) -> bool {
        &&& readiness.states.contains_key(self.name())
        &&& !(readiness.states[self.name()] is Waiting)
        &&& reason is Queue ==> !readiness.byte_requests.contains(self.name())
        &&& reason is Bytes ==> !readiness.queue_requests.contains(self.name())
    }

    /// Creates the context of a task that has observed nothing and has no step.
    #[must_use]
    pub fn new(id: ConnectionId, peer: String, token: usize) -> (context: TaskContext)
        ensures
            context.connection() == id,
            context.peer_text() == peer@,
            context.name() == token,
            context.steps() == 0,
            context.progress == Progress::none(),
    {
        TaskContext { id, peer, token, remaining: 0, progress: Progress::default() }
    }

    /// Returns the connection that the task serves.
    #[must_use]
    pub fn id(&self) -> (id: ConnectionId)
        ensures
            id == self.connection(),
    {
        self.id
    }

    /// Returns the peer's address.
    #[must_use]
    pub fn peer(&self) -> (peer: String)
        ensures
            peer@ == self.peer_text(),
    {
        self.peer.clone()
    }

    /// Returns the task's token.
    #[must_use]
    pub fn token(&self) -> (token: usize)
        ensures
            token == self.name(),
    {
        self.token
    }

    /// Returns the end of what the decoder has consumed.
    #[must_use]
    pub fn offset(&self) -> (offset: u64)
        ensures
            offset == self.progress.consumed,
    {
        self.progress.consumed
    }

    /// Returns the counters.
    #[must_use]
    pub fn progress(&self) -> (progress: Progress)
        ensures
            progress == self.progress,
    {
        self.progress
    }

    /// Returns the steps that are left in this turn.
    #[must_use]
    pub fn remaining(&self) -> (remaining: usize)
        ensures
            remaining == self.steps(),
    {
        self.remaining
    }

    /// Starts a turn of that many steps.
    pub fn reset_turn(&mut self, steps: usize)
        ensures
            final(self).same_task(*old(self)),
            final(self).progress == old(self).progress,
            final(self).steps() == steps,
    {
        self.remaining = steps;
    }

    /// Uses one step of the turn; without one left, schedules the next turn.
    pub fn permit(&mut self, scheduler: &mut Scheduler) -> (permitted: bool)
        requires
            old(scheduler).wf(),
        ensures
            final(scheduler).wf(),
            final(self).same_task(*old(self)),
            final(self).progress == old(self).progress,
            permitted == (old(self).steps() > 0),
            permitted ==> final(self).steps() == old(self).steps() - 1 && final(scheduler)@ == old(
                scheduler,
            )@,
            !permitted ==> *final(self) == *old(self) && final(scheduler)@ == old(
                scheduler,
            )@.woken(old(self).name()),
    {
        if self.remaining == 0 {
            let _ = scheduler.wake(self.token);
            return false;
        }
        self.remaining = self.remaining - 1;
        true
    }

    /// Parks the task.
    pub fn park(&self, scheduler: &mut Scheduler, reason: WaitReason)
        requires
            old(scheduler).wf(),
            old(scheduler)@.states.contains_key(self.name()),
        ensures
            final(scheduler).wf(),
            final(scheduler)@ == old(scheduler)@.parked(self.name(), reason),
    {
        scheduler.park(self.token, reason);
    }

    /// Counts the bytes of a transport read and returns the offset of the first.
    /// Where the counter cannot hold them it stays, and the overflow is marked.
    pub fn observe_read(&mut self, count: usize) -> (result: Result<u64, CounterOverflow>)
        ensures
            final(self).same_task(*old(self)),
            final(self).steps() == old(self).steps(),
            match result {
                Ok(start) => {
                    &&& start == old(self).progress.read
                    &&& start + count <= u64::MAX
                    &&& final(self).progress == (Progress {
                        read: (start + count) as u64,
                        ..old(self).progress
                    })
                },
                Err(_) => {
                    &&& old(self).progress.read + count > u64::MAX
                    &&& final(self).progress == (Progress {
                        counter_overflow: true,
                        ..old(self).progress
                    })
                },
            },
    {
        let start: u64 = self.progress.read;
        match add_observation(start, count) {
            Ok(next) => {
                self.progress.read = next;
                Ok(start)
            },
            Err(error) => {
                self.progress.counter_overflow = true;
                Err(error)
            },
        }
    }

    /// Counts bytes that the decoder consumed and returns the offset behind them.
    /// Where the counter cannot hold them it stays, and the overflow is marked.
    pub fn consume(&mut self, count: usize) -> (result: Result<u64, CounterOverflow>)
        requires
            old(self).progress.consumed + count <= u64::MAX ==> old(self).progress.consumed + count
                <= old(self).progress.read,
        ensures
            final(self).same_task(*old(self)),
            final(self).steps() == old(self).steps(),
            match result {
                Ok(next) => {
                    &&& next == old(self).progress.consumed + count
                    &&& final(self).progress == (Progress {
                        consumed: next,
                        ..old(self).progress
                    })
                },
                Err(_) => {
                    &&& old(self).progress.consumed + count > u64::MAX
                    &&& final(self).progress == (Progress {
                        counter_overflow: true,
                        ..old(self).progress
                    })
                },
            },
    {
        match add_observation(self.progress.consumed, count) {
            Ok(next) => {
                self.progress.consumed = next;
                Ok(next)
            },
            Err(error) => {
                self.progress.counter_overflow = true;
                Err(error)
            },
        }
    }

    /// Tries to copy bytes into retained storage.
    ///
    /// A request that no budget of this capacity can serve is refused at once.
    /// Any other joins the requests for byte credit, and is tried only while it is
    /// the oldest.
    pub fn copy(&mut self, scheduler: &mut Scheduler, budget: &mut ByteBudget, bytes: &[u8]) -> (step:
        CopyStep)
        requires
            old(scheduler).wf(),
            old(budget).wf(),
            old(self).may_request(old(scheduler)@, WaitReason::Bytes),
        ensures
            final(scheduler).wf(),
            final(budget).wf(),
            final(budget).limit() == old(budget).limit(),
            final(budget).subscription() == old(budget).subscription(),
            final(self).same_task(*old(self)),
            final(self).progress == old(self).progress,
            ({
                let token = old(self).name();
                let before = old(scheduler)@;
                let joined = before.joined(WaitReason::Bytes, token);
                let required = bytes@.len();
                if old(self).steps() == 0 {
                    &&& step is Pending
                    &&& final(self).steps() == 0
                    &&& final(scheduler)@ == before.woken(token)
                    &&& final(budget).retained() == old(budget).retained()
                } else {
                    &&& final(self).steps() == old(self).steps() - 1
                    &&& if required > old(budget).limit() {
                        &&& step matches CopyStep::Ready(Err(error))
                        &&& error == (BudgetError::TooLarge {
                            required: required as usize,
                            capacity: old(budget).limit(),
                        })
                        &&& final(scheduler)@ == before.left(WaitReason::Bytes, token)
                        &&& final(budget).retained() == old(budget).retained()
                    } else if joined.byte_requests[0] != token || total(old(budget).retained())
                        + required > old(budget).limit() {
                        &&& step is Pending
                        &&& final(scheduler)@ == joined.parked(token, WaitReason::Bytes)
                        &&& final(budget).retained() == old(budget).retained()
                    } else {
                        &&& step matches CopyStep::Ready(Ok(owned))
                        &&& owned@ == bytes@
                        &&& owned.entry().1 == required
                        &&& final(scheduler)@ == joined.left(WaitReason::Bytes, token)
                        &&& final(budget).retained() == old(budget).retained().push(owned.entry())
                        &&& final(budget).holds(owned)
                    }
                }
            }),
    {
        if !self.permit(scheduler) {
            return CopyStep::Pending;
        }
        let required: usize = bytes.len();
        let capacity: usize = budget.capacity();
        if required > capacity {
            scheduler.complete(self.token, WaitReason::Bytes);
            return CopyStep::Ready(Err(BudgetError::TooLarge { required, capacity }));
        }
        if !scheduler.request(self.token, WaitReason::Bytes) {
            scheduler.park(self.token, WaitReason::Bytes);
            return CopyStep::Pending;
        }
        match budget.try_copy(bytes) {
            Ok(owned) => {
                scheduler.complete(self.token, WaitReason::Bytes);
                assert(budget.retained().last() == owned.entry());
                CopyStep::Ready(Ok(owned))
            },
            Err(_) => {
                scheduler.park(self.token, WaitReason::Bytes);
                CopyStep::Pending
            },
        }
    }

    /// Notes that a record was constructed and has to be handed off.
    pub fn start_send(&mut self)
        ensures
            final(self).same_task(*old(self)),
            final(self).steps() == old(self).steps(),
            final(self).progress == (Progress { pending_record: true, ..old(self).progress }),
    {
        self.progress.pending_record = true;
    }

    /// Asks whether the task may try the record channel now.
    ///
    /// The request joins those for a queue slot, and only the oldest may try. An
    /// exhausted record counter fails the handoff before anything is tried.
    pub fn admit_send(&mut self, scheduler: &mut Scheduler) -> (step: SendStep)
        requires
            old(scheduler).wf(),
            old(self).may_request(old(scheduler)@, WaitReason::Queue),
        ensures
            final(scheduler).wf(),
            final(self).same_task(*old(self)),
            ({
                let token = old(self).name();
                let before = old(scheduler)@;
                let joined = before.joined(WaitReason::Queue, token);
                if old(self).steps() == 0 {
                    &&& step is Pending
                    &&& final(self).steps() == 0
                    &&& final(self).progress == old(self).progress
                    &&& final(scheduler)@ == before.woken(token)
                } else {
                    &&& final(self).steps() == old(self).steps() - 1
                    &&& if old(self).progress.records_queued == u64::MAX {
                        &&& step == SendStep::Failed(SendFailure::CounterOverflow)
                        &&& final(self).progress == (Progress {
                            counter_overflow: true,
                            ..old(self).progress
                        })
                        &&& final(scheduler)@ == before.left(WaitReason::Queue, token)
                    } else {
                        &&& final(self).progress == old(self).progress
                        &&& if joined.queue_requests[0] != token {
                            &&& step is Pending
                            &&& final(scheduler)@ == joined.parked(token, WaitReason::Queue)
                        } else {
                            &&& step is Try
                            &&& final(scheduler)@ == joined
                        }
                    }
                }
            }),
    {
        if !self.permit(scheduler) {
            return SendStep::Pending;
        }
        if self.progress.records_queued == u64::MAX {
            self.progress.counter_overflow = true;
            scheduler.complete(self.token, WaitReason::Queue);
            return SendStep::Failed(SendFailure::CounterOverflow);
        }
        if !scheduler.request(self.token, WaitReason::Queue) {
            scheduler.park(self.token, WaitReason::Queue);
            return SendStep::Pending;
        }
        SendStep::Try
    }

    /// Accounts for what the channel did with a record of `wire` wire bytes.
    ///
    /// A full channel parks the task with its request in place. A handoff, or a
    /// consumer that is gone, ends the request.
    pub fn settle_send(
        &mut self,
        scheduler: &mut Scheduler,
        handoff: Handoff,
        wire: u64,
        terminal: bool,
    ) -> (step: SendStep)
        requires
            old(scheduler).wf(),
            old(scheduler)@.states.contains_key(old(self).name()),
            !(old(scheduler)@.states[old(self).name()] is Waiting),
            handoff is Accepted ==> old(self).progress.records_queued < u64::MAX,
            handoff is Accepted ==> old(self).progress.wire_queued + wire <= u64::MAX,
        ensures
            final(scheduler).wf(),
            final(self).same_task(*old(self)),
            final(self).steps() == old(self).steps(),
            match handoff {
                Handoff::Accepted => {
                    &&& step is Done
                    &&& final(self).progress == (Progress {
                        pending_record: false,
                        terminal_queued: old(self).progress.terminal_queued || terminal,
                        wire_queued: (old(self).progress.wire_queued + wire) as u64,
                        records_queued: (old(self).progress.records_queued + 1) as u64,
                        ..old(self).progress
                    })
                    &&& final(scheduler)@ == old(scheduler)@.left(
                        WaitReason::Queue,
                        old(self).name(),
                    )
                },
                Handoff::Full => {
                    &&& step is Pending
                    &&& final(self).progress == old(self).progress
                    &&& final(scheduler)@ == old(scheduler)@.parked(
                        old(self).name(),
                        WaitReason::Queue,
                    )
                },
                Handoff::Disconnected => {
                    &&& step == SendStep::Failed(SendFailure::Disconnected)
                    &&& final(self).progress == old(self).progress
                    &&& final(scheduler)@ == old(scheduler)@.left(
                        WaitReason::Queue,
                        old(self).name(),
                    )
                },
            },
    {
        match handoff {
            Handoff::Accepted => {
                self.progress.pending_record = false;
                self.progress.terminal_queued = self.progress.terminal_queued || terminal;
                self.progress.wire_queued = self.progress.wire_queued + wire;
                self.progress.records_queued = self.progress.records_queued + 1;
                scheduler.complete(self.token, WaitReason::Queue);
                SendStep::Done
            },
            Handoff::Full => {
                scheduler.park(self.token, WaitReason::Queue);
                SendStep::Pending
            },
            Handoff::Disconnected => {
                scheduler.complete(self.token, WaitReason::Queue);
                SendStep::Failed(SendFailure::Disconnected)
            },
        }
    }
}

} // verus!
