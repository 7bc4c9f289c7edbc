//! The tasks of one worker: turns, admission, retirement and the run summary.
use std::collections::BTreeMap;
use vstd::prelude::*;

use crate::accept::{
    attempt_decided, classify_accept, failure_counted, rest_of_pause, scope_on_platform, wait_for, AcceptFailure, AcceptPacing,
    AcceptTurn, STOP_RECHECK,
};
use crate::config::{Limits, EVENT_BATCH, READ_BYTES};
use crate::connection::{
    charged_once, law_counters_say_what_was_handed_off, Action, Connection, ReadOutcome, SendOutcome,
};
use crate::fifo::Fifo;
use crate::memory::{BudgetError, ByteBudget};
use crate::record::{ConnectionId, Observation, Record};
use crate::scheduler::{
    lemma_parked_is_accounted_for, lemma_push, lemma_retired_touches, lemma_without, lemma_woken, only_touches,
    without, Readiness, Scheduler, State, WaitReason,
};
use crate::session::IncomingProfile;
use crate::summary::{
    allocate_token, merge_fits, merge_progress, merged, ReceiverError, ReceiverFailure, RunSummary,
    StopCause,
};
use crate::task::{Progress, TaskContext};

verus! {

broadcast use {
    vstd::std_specs::btree::group_btree_axioms,
    vstd::laws_cmp::group_laws_cmp,
};

/// The token of the listener.
pub const LISTENER: usize = 0;

/// The token of wake notifications.
pub const CONTROL: usize = 1;

/// The first token that names a connection.
pub const FIRST_CONNECTION: usize = 2;

/// The most turns that are taken between two looks at the sockets.
pub const TURN_BATCH: usize = 128;

/// What the task that has the turn asks for.
pub enum TaskStep {
    /// Nothing more in this turn.
    Yield,
    /// Read the socket and report with [`Worker::read_done`].
    Read,
    /// Offer this record to the channel and report with [`Worker::sent`].
    Send(Record),
    /// Nothing ever again.
    Done,
}

/// The connection tasks of one worker.
pub struct Worker {
    scheduler: Scheduler,
    live: BTreeMap<usize, Connection>,
    order: Fifo,
    current: Option<Connection>,
    in_turn: bool,
    offering: bool,
    limits: Limits,
    profile: IncomingProfile,
    limit: usize,
    instance: u64,
    next: usize,
    pacing: AcceptPacing,
    summary: RunSummary,
    asked: Ghost<nat>,
}

/// Whether a connection stands soundly among the tasks of a worker.
pub open spec fn stands(connection: Connection, token: usize, readiness: Readiness, limit: usize) -> bool {
    &&& connection.wf()
    &&& connection.task().name() == token
    &&& connection.setting().limit == limit
    &&& connection.admitted(readiness)
}

impl Worker {
    /// Turns and requests of the tasks.
    pub closed spec fn readiness(self) -> Readiness {
        self.scheduler@
    }

    /// The tasks that do not have the turn.
    pub closed spec fn waiting(self) -> Map<usize, Connection> {
        self.live@
    }

    /// The task that has the turn.
    pub closed spec fn running(self) -> Option<Connection> {
        self.current
    }

    /// The live tasks in the order of their admission.
    pub closed spec fn roll(self) -> Seq<usize> {
        self.order@
    }

    /// Whether the task that has the turn may go on.
    pub closed spec fn going_on(self) -> bool {
        self.in_turn
    }

    /// Whether a record of the task that has the turn is out to be offered.
    pub closed spec fn offers(self) -> bool {
        self.offering
    }

    /// How many reads and offers the task that has the turn has asked for in it.
    pub closed spec fn asked(self) -> nat {
        self.asked@
    }

    /// The counters.
    pub closed spec fn counts(self) -> RunSummary {
        self.summary
    }

    /// The pacing of accepts.
    pub closed spec fn accepts(self) -> AcceptPacing {
        self.pacing
    }

    /// The next connection token.
    pub closed spec fn next_token(self) -> usize {
        self.next
    }

    /// The capacity of the byte budget that the tasks copy into.
    pub closed spec fn budget_limit(self) -> usize {
        self.limit
    }

    /// The bounds of the worker.
    pub closed spec fn bounds(self) -> Limits {
        self.limits
    }

    /// The receiver instance that the connections belong to.
    pub closed spec fn instance_id(self) -> u64 {
        self.instance
    }

    /// The rates that the sessions accept.
    pub closed spec fn accepted_rates(self) -> Set<crate::audio::SampleRate> {
        self.profile@
    }

    /// What does not change during a run is that of `other`.
    pub open spec fn same_setup(self, other: Worker) -> bool {
        &&& self.budget_limit() == other.budget_limit()
        &&& self.bounds() == other.bounds()
        &&& self.instance_id() == other.instance_id()
        &&& self.accepted_rates() == other.accepted_rates()
    }

    /// Every live task has one connection, which stands soundly, be it among the
    /// waiting or apart; and the counters are balanced.
    spec fn company(self, apart: Option<Connection>) -> bool {
        let readiness = self.scheduler@;
        &&& self.scheduler.wf()
        &&& self.order.wf()
        &&& readiness.capacity == self.limits@.connections
        &&& self.summary.balanced()
        &&& self.summary.counters_complete && self.summary.accepted < usize::MAX
            ==> self.summary.accepted == self.summary.ended + self.summary.abandoned
            + self.order@.len()
        &&& forall|t: usize| #[trigger]
            readiness.states.contains_key(t) <==> self.live@.contains_key(t) || (
            apart matches Some(c) && c.task().name() == t)
        &&& forall|t: usize| #[trigger]
            self.order@.contains(t) <==> readiness.states.contains_key(t)
        &&& forall|t: usize| #[trigger] readiness.states.contains_key(t) ==> t < self.next
        &&& forall|t: usize| #[trigger]
            self.live@.contains_key(t) ==> stands(self.live@[t], t, readiness, self.limit) && (
            self.live@[t].sending() ==> !self.live@[t].offered())
        &&& forall|t: usize| #[trigger]
            self.live@.contains_key(t) ==> self.live@[t].task().progress.counter_overflow
                || !(readiness.states[t] is Running)
        &&& apart matches Some(c) ==> {
            &&& stands(c, c.task().name(), readiness, self.limit)
            &&& !self.live@.contains_key(c.task().name())
        }
    }

    /// The tasks stand soundly; the one that has the turn may go on only while it is
    /// not parked; and one that gave up its turn has named a wait or has another turn
    /// coming.
    pub closed spec fn wf(self) -> bool {
        &&& self.company(self.current)
        &&& match self.current {
            None => !self.in_turn && !self.offering,
            Some(c) => {
                let state = self.scheduler@.states[c.task().name()];
                &&& self.in_turn ==> !(state is Waiting)
                &&& !self.in_turn && !c.finished() ==> !(state is Running)
                &&& self.offering ==> self.in_turn && c.sending() && c.offered()
                &&& !self.offering && c.sending() ==> !c.offered()
                &&& self.asked@ + c.task().steps() <= self.limits@.turn_steps
            },
        }
    }

    /// Creates a worker without connections, for a byte budget that can retain
    /// `limit` bytes.
    #[must_use]
    pub fn new(limits: Limits, profile: IncomingProfile, limit: usize, instance: u64) -> (worker:
        Worker)
        ensures
            worker.wf(),
            worker.readiness().states == Map::<usize, State>::empty(),
            worker.waiting() == Map::<usize, Connection>::empty(),
            worker.running() is None,
            worker.roll() == Seq::<usize>::empty(),
            worker.bounds() == limits,
            worker.budget_limit() == limit,
            worker.instance_id() == instance,
            worker.accepted_rates() == profile@,
            worker.next_token() == FIRST_CONNECTION,
            worker.accepts().listener_ready && worker.accepts().paused_at is None,
            worker.counts() == (RunSummary {
                fixed_buffer_capacity: limits@.fixed_buffers() as usize,
                ..RunSummary::none()
            }),
    {
        let mut summary = RunSummary::default();
        summary.fixed_buffer_capacity = limits.fixed_buffer_capacity();
        let connections: usize = limits.max_connections();
        Worker {
            scheduler: Scheduler::new(connections),
            live: BTreeMap::new(),
            order: Fifo::new(),
            current: None,
            in_turn: false,
            offering: false,
            limits,
            profile,
            limit,
            instance,
            next: FIRST_CONNECTION,
            pacing: AcceptPacing::new(),
            summary,
            asked: Ghost(0),
        }
    }
}

/// Tasks stand as they stood where nobody touched their requests.
proof fn lemma_others_stand(
    live: Map<usize, Connection>,
    before: Readiness,
    after: Readiness,
    limit: usize,
)
    requires
        forall|t: usize| #[trigger] live.contains_key(t) ==> stands(live[t], t, before, limit),
        forall|t: usize| #[trigger] live.contains_key(t) ==> after.states.contains_key(t),
        forall|t: usize| #[trigger]
            live.contains_key(t) && after.queue_requests.contains(t)
                ==> before.queue_requests.contains(t),
        forall|t: usize| #[trigger]
            live.contains_key(t) && after.byte_requests.contains(t)
                ==> before.byte_requests.contains(t),
    ensures
        forall|t: usize| #[trigger] live.contains_key(t) ==> stands(live[t], t, after, limit),
{
    assert forall|t: usize| #[trigger] live.contains_key(t) implies stands(
        live[t],
        t,
        after,
        limit,
    ) by {
        assert(stands(live[t], t, before, limit));
        live[t].lemma_stays_admitted(before, after);
    }
}

impl Worker {
    /// Everything but the task that has the turn, and the turns and requests, is that
    /// of `other`.
    pub open spec fn same_company(self, other: Worker) -> bool {
        &&& self.waiting() == other.waiting()
        &&& self.roll() == other.roll()
        &&& self.counts() == other.counts()
        &&& self.accepts() == other.accepts()
        &&& self.next_token() == other.next_token()
        &&& self.same_setup(other)
    }

    /// Hands the next turn to its task, with all its steps; returns whether a turn was
    /// coming.
    pub fn begin_turn(&mut self) -> (begun: bool)
        requires
            old(self).wf(),
            old(self).running() is None,
        ensures
            final(self).wf(),
            begun == (old(self).readiness().turns.len() > 0),
            !begun ==> *final(self) == *old(self),
            begun ==> {
                let token = old(self).readiness().turns[0];
                &&& old(self).waiting().contains_key(token)
                &&& final(self).waiting() == old(self).waiting().remove(token)
                &&& final(self).readiness() == old(self).readiness().taken()
                &&& final(self).roll() == old(self).roll()
                &&& final(self).counts() == old(self).counts()
                &&& final(self).accepts() == old(self).accepts()
                &&& final(self).next_token() == old(self).next_token()
                &&& final(self).same_setup(*old(self))
                &&& final(self).going_on()
                &&& !final(self).offers()
                &&& final(self).asked() == 0
                &&& final(self).running() matches Some(c)
                &&& c.task().name() == token
                &&& c.same_past(old(self).waiting()[token])
                &&& c.same_work(old(self).waiting()[token])
                &&& c.task().progress == old(self).waiting()[token].task().progress
                &&& c.task().steps() == old(self).bounds()@.turn_steps
            },
    {
        let ghost before = self.scheduler@;
        let ghost live = self.live@;
        proof {
            self.scheduler.lemma_contents_are_valid();
        }
        if !self.scheduler.has_ready() {
            return false;
        }
        let token: usize = match self.scheduler.take() {
            Some(token) => token,
            None => return false,
        };
        proof {
            assert(before.turns.contains(token));
            assert(before.states.contains_key(token));
            assert(live.contains_key(token));
            assert(stands(live[token], token, before, self.limit));
        }
        let removed = self.live.remove(&token);
        if let Some(mut connection) = removed {
            assert(connection == live[token]);
            connection.reset_turn(self.limits.turn_steps());
            proof {
                let after = self.scheduler@;
                assert(after.states.dom() =~= before.states.dom());
                connection.lemma_stays_admitted(before, after);
                lemma_others_stand(live, before, after, self.limit);
                assert(self.live@ =~= live.remove(token));
            }
            self.current = Some(connection);
            self.in_turn = true;
            self.offering = false;
            proof {
                self.asked@ = 0;
                assert forall|t: usize| #[trigger]
                    self.scheduler@.states.contains_key(t) <==> self.live@.contains_key(t) || (
                    self.current matches Some(c) && c.task().name() == t) by {
                    assert(before.states.contains_key(t) <==> live.contains_key(t));
                }
                assert forall|t: usize| #[trigger]
                    self.order@.contains(t) <==> self.scheduler@.states.contains_key(t) by {
                    assert(self.order@.contains(t) <==> before.states.contains_key(t));
                }
                assert forall|t: usize| #[trigger]
                    self.scheduler@.states.contains_key(t) implies t < self.next by {
                    assert(before.states.contains_key(t));
                }
                assert forall|t: usize| #[trigger] self.live@.contains_key(t) implies stands(
                    self.live@[t],
                    t,
                    self.scheduler@,
                    self.limit,
                ) && (self.live@[t].sending() ==> !self.live@[t].offered()) by {
                    assert(live.contains_key(t));
                }
            }
            return true;
        }
        false
    }
}

impl Worker {
    /// The tasks stand after one of them, which is apart, did something.
    proof fn lemma_company_stands(
        self,
        old: Worker,
        before: Readiness,
        after: Readiness,
        token: usize,
    )
        requires
            old.wf(),
            old.scheduler@ == before,
            old.current matches Some(c) && c.task().name() == token,
            self.scheduler@ == after,
            self.live@ == old.live@,
            self.order == old.order,
            self.next == old.next,
            self.limit == old.limit,
            self.current matches Some(c) && c.task().name() == token,
            only_touches(before, after, token),
        ensures
            forall|t: usize| #[trigger]
                after.states.contains_key(t) <==> self.live@.contains_key(t) || (
                self.current matches Some(c) && c.task().name() == t),
            forall|t: usize| #[trigger] self.order@.contains(t) <==> after.states.contains_key(t),
            forall|t: usize| #[trigger] after.states.contains_key(t) ==> t < self.next,
            forall|t: usize| #[trigger]
                self.live@.contains_key(t) ==> stands(self.live@[t], t, after, self.limit) && (
                self.live@[t].sending() ==> !self.live@[t].offered()),
    {
        assert forall|t: usize| #[trigger] self.live@.contains_key(t) implies {
            &&& after.states.contains_key(t)
            &&& after.queue_requests.contains(t) ==> before.queue_requests.contains(t)
            &&& after.byte_requests.contains(t) ==> before.byte_requests.contains(t)
        } by {
            assert(before.states.contains_key(t));
            assert(t != token);
        }
        lemma_others_stand(self.live@, before, after, self.limit);
        assert forall|t: usize| #[trigger]
            after.states.contains_key(t) <==> self.live@.contains_key(t) || (
            self.current matches Some(c) && c.task().name() == t) by {
            assert(before.states.contains_key(t) <==> old.live@.contains_key(t) || (
            old.current matches Some(c) && c.task().name() == t));
        }
        assert forall|t: usize| #[trigger] self.order@.contains(t) <==> after.states.contains_key(
            t,
        ) by {
            assert(old.order@.contains(t) <==> before.states.contains_key(t));
        }
        assert forall|t: usize| #[trigger] after.states.contains_key(t) implies t < self.next by {
            assert(before.states.contains_key(t));
        }
    }

    /// Lets the task that has the turn go on until it needs its socket or the channel,
    /// has to wait, runs out of steps, or is over.
    pub fn poll(&mut self, budget: &mut ByteBudget) -> (step: TaskStep)
        requires
            old(self).wf(),
            old(self).running() is Some,
            old(self).going_on(),
            !old(self).offers(),
            old(budget).wf(),
            old(budget).limit() == old(self).budget_limit(),
        ensures
            final(self).wf(),
            final(self).same_company(*old(self)),
            final(budget).wf(),
            final(budget).limit() == old(budget).limit(),
            final(budget).subscription() == old(budget).subscription(),
            only_touches(
                old(self).readiness(),
                final(self).readiness(),
                old(self).running()->0.task().name(),
            ),
            ({
                let then = final(self).running()->0;
                let old_task = old(self).running()->0;
                &&& final(self).running() is Some
                &&& charged_once(
                    *old(budget),
                    *final(budget),
                    old_task.held(),
                    match step {
                        TaskStep::Send(record) => record.kind.charge(),
                        _ => then.held(),
                    },
                )
                &&& final(self).asked() == old(self).asked() + if step is Read || step is Send {
                    1nat
                } else {
                    0
                }
                &&& final(self).offers() == (step is Send)
                &&& final(self).going_on() == (step is Read || step is Send)
                &&& match step {
                    TaskStep::Yield => then.polled(
                        old_task,
                        final(self).readiness(),
                        *final(budget),
                        Action::Yield,
                    ),
                    TaskStep::Read => then.polled(
                        old_task,
                        final(self).readiness(),
                        *final(budget),
                        Action::Read,
                    ),
                    TaskStep::Done => then.polled(
                        old_task,
                        final(self).readiness(),
                        *final(budget),
                        Action::Done,
                    ),
                    TaskStep::Send(record) => {
                        &&& then.same_past(old_task)
                        &&& then.sending()
                        &&& then.task().steps() < old_task.task().steps()
                        &&& then.task().progress == (Progress {
                            consumed: then.task().progress.consumed,
                            pending_record: then.task().progress.pending_record,
                            ..old_task.task().progress
                        })
                        &&& old_task.task().progress.consumed <= then.task().progress.consumed
                        &&& record@ == then.offer()
                        &&& record.connection == then.task().connection()
                        &&& then.held() is None
                        &&& final(self).readiness().queue_requests[0] == then.task().name()
                    },
                }
            }),
    {
        let ghost before = *self;
        let mut connection = match self.current.take() {
            Some(connection) => connection,
            None => return TaskStep::Done,
        };
        let ghost token = connection.task().name();
        let action = connection.poll(&mut self.scheduler, budget);
        proof {
            self.scheduler.lemma_contents_are_valid();
            connection.lemma_admitted_is_live(self.scheduler@);
        }
        let step = match action {
            Action::Yield => {
                self.in_turn = false;
                TaskStep::Yield
            },
            Action::Read => TaskStep::Read,
            Action::Send => {
                self.offering = true;
                TaskStep::Send(connection.take_record())
            },
            Action::Done => {
                self.in_turn = false;
                TaskStep::Done
            },
        };
        self.current = Some(connection);
        proof {
            if step is Read || step is Send {
                self.asked@ = before.asked@ + 1;
            }
            self.lemma_company_stands(before, before.scheduler@, self.scheduler@, token);
        }
        step
    }

    /// Accounts for a read of the socket of the task that has the turn; returns
    /// whether the turn goes on.
    pub fn read_done(&mut self, outcome: ReadOutcome<'_>) -> (on: bool)
        requires
            old(self).wf(),
            old(self).going_on(),
            !old(self).offers(),
            old(self).running() matches Some(c) && c.reading(),
        ensures
            final(self).wf(),
            final(self).same_company(*old(self)),
            only_touches(
                old(self).readiness(),
                final(self).readiness(),
                old(self).running()->0.task().name(),
            ),
            final(self).running() matches Some(c) && c.read_as(
                old(self).running()->0,
                old(self).readiness(),
                final(self).readiness(),
                outcome,
                on,
            ),
            final(self).going_on() == on,
            final(self).asked() == old(self).asked(),
            !final(self).offers(),
    {
        let ghost before = *self;
        let mut connection = match self.current.take() {
            Some(connection) => connection,
            None => return false,
        };
        let ghost token = connection.task().name();
        proof {
            self.scheduler.lemma_contents_are_valid();
            connection.lemma_admitted_is_live(self.scheduler@);
            lemma_parked_is_accounted_for(self.scheduler@, token, WaitReason::Kernel);
        }
        let on: bool = connection.read_done(&mut self.scheduler, outcome);
        self.in_turn = on;
        self.current = Some(connection);
        proof {
            connection.lemma_admitted_is_live(self.scheduler@);
            self.lemma_company_stands(before, before.scheduler@, self.scheduler@, token);
        }
        on
    }

    /// Accounts for the channel's answer to the offered record of the task that has
    /// the turn; returns whether the turn goes on.
    pub fn sent(&mut self, outcome: SendOutcome) -> (on: bool)
        requires
            old(self).wf(),
            old(self).going_on(),
            old(self).offers(),
            outcome matches SendOutcome::Full(record) ==> record@
                == old(self).running()->0.offer() && record.connection
                == old(self).running()->0.task().connection(),
        ensures
            final(self).wf(),
            final(self).same_company(*old(self)),
            old(self).running() is Some,
            only_touches(
                old(self).readiness(),
                final(self).readiness(),
                old(self).running()->0.task().name(),
            ),
            final(self).running() matches Some(c) && c.sent_as(
                old(self).running()->0,
                old(self).readiness(),
                final(self).readiness(),
                outcome,
                on,
            ),
            final(self).going_on() == on,
            final(self).asked() == old(self).asked(),
            !final(self).offers(),
    {
        let ghost before = *self;
        let mut connection = match self.current.take() {
            Some(connection) => connection,
            None => return false,
        };
        let ghost token = connection.task().name();
        proof {
            self.scheduler.lemma_contents_are_valid();
            connection.lemma_admitted_is_live(self.scheduler@);
            lemma_parked_is_accounted_for(self.scheduler@, token, WaitReason::Queue);
        }
        let on: bool = connection.sent(&mut self.scheduler, outcome);
        self.in_turn = on;
        self.offering = false;
        self.current = Some(connection);
        proof {
            connection.lemma_admitted_is_live(self.scheduler@);
            self.lemma_company_stands(before, before.scheduler@, self.scheduler@, token);
        }
        on
    }
}

/// Whether a task that ended can be added to the counters, and its own are complete.
pub open spec fn absorbs(summary: RunSummary, progress: Progress) -> bool {
    merge_fits(summary, progress) && !progress.counter_overflow
}

/// The counters with a task that ended added. Where they cannot hold it they are
/// marked incomplete.
pub open spec fn absorbed(summary: RunSummary, progress: Progress) -> RunSummary {
    if merge_fits(summary, progress) {
        merged(summary, progress)
    } else {
        RunSummary { counters_complete: false, ..summary }
    }
}

/// The counters with some tasks that ended added one after the other.
pub open spec fn absorbed_all(summary: RunSummary, ended: Seq<Progress>) -> RunSummary
    decreases ended.len(),
{
    if ended.len() == 0 {
        summary
    } else {
        absorbed(absorbed_all(summary, ended.drop_last()), ended.last())
    }
}

/// Whether all of some tasks that ended can be added one after the other.
pub open spec fn absorbs_all(summary: RunSummary, ended: Seq<Progress>) -> bool
    decreases ended.len(),
{
    ended.len() == 0 || (absorbs_all(summary, ended.drop_last()) && absorbs(
        absorbed_all(summary, ended.drop_last()),
        ended.last(),
    ))
}

impl Worker {
    /// Adds the counters of a task that ended.
    fn absorb(&mut self, progress: Progress) -> (result: Result<(), ReceiverFailure>)
        requires
            old(self).summary.balanced(),
            progress.wire_queued <= progress.read,
        ensures
            final(self).summary == absorbed(old(self).summary, progress),
            final(self).summary.balanced(),
            match result {
                Ok(()) => absorbs(old(self).summary, progress),
                Err(failure) => !absorbs(old(self).summary, progress) && failure
                    is CounterExhausted,
            },
            final(self).scheduler == old(self).scheduler,
            final(self).live == old(self).live,
            final(self).order == old(self).order,
            final(self).current == old(self).current,
            final(self).in_turn == old(self).in_turn,
            final(self).offering == old(self).offering,
            final(self).limits == old(self).limits,
            final(self).limit == old(self).limit,
            final(self).next == old(self).next,
            final(self).pacing == old(self).pacing,
            final(self).instance == old(self).instance,
            final(self).profile == old(self).profile,
    {
        let result = merge_progress(&mut self.summary, progress);
        if result.is_err() {
            self.summary.counters_complete = false;
        }
        result
    }

    /// What the end of a task leaves.
    pub open spec fn released(
        self,
        old: Worker,
        gone: Connection,
        record: Option<Record>,
        result: Result<(), ReceiverFailure>,
    ) -> bool {
        let token = gone.task().name();
        let progress = gone.task().progress;
        &&& self.readiness() == old.readiness().retired(token)
        &&& self.running() is None
        &&& self.roll() == without(old.roll(), token)
        &&& self.counts() == absorbed(old.counts(), progress)
        &&& self.accepts() == old.accepts()
        &&& self.next_token() == old.next_token()
        &&& self.same_setup(old)
        &&& (record is Some) == gone.keeps_record()
        &&& record matches Some(record) ==> record@ == gone.offer() && record.kind.charge()
            == gone.held()
        &&& match result {
            Ok(()) => absorbs(old.counts(), progress),
            Err(failure) => !absorbs(old.counts(), progress) && failure is CounterExhausted,
        }
    }

    /// Ends a task that was put apart from the others.
    fn take_down(&mut self, connection: Connection) -> (ended: (
        Option<Record>,
        Result<(), ReceiverFailure>,
    ))
        requires
            old(self).company(Some(connection)),
            old(self).current is None,
            !old(self).in_turn,
            !old(self).offering,
            connection.sending() ==> !connection.offered(),
        ensures
            final(self).wf(),
            final(self).waiting() == old(self).waiting(),
            final(self).released(*old(self), connection, ended.0, ended.1),
    {
        let ghost before = *self;
        let ghost readiness = self.scheduler@;
        let token: usize = connection.context().token();
        proof {
            self.scheduler.lemma_contents_are_valid();
            self.order.lemma_tokens_are_distinct();
            connection.lemma_admitted_is_live(readiness);
            lemma_retired_touches(readiness, token);
            law_counters_say_what_was_handed_off(connection);
            lemma_without(before.order@, token);
        }
        self.scheduler.retire(token);
        let ghost after = self.scheduler@;
        let _ = self.order.remove(token);
        let progress = connection.context().progress();
        let record = connection.into_record();
        let result = self.absorb(progress);
        proof {
            assert forall|t: usize| #[trigger]
                after.states.contains_key(t) <==> self.live@.contains_key(t) by {
                assert(readiness.states.contains_key(t) <==> before.live@.contains_key(t) || t
                    == token);
            }
            assert forall|t: usize| #[trigger]
                self.order@.contains(t) <==> after.states.contains_key(t) by {
                assert(before.order@.contains(t) <==> readiness.states.contains_key(t));
            }
            assert forall|t: usize| #[trigger] after.states.contains_key(t) implies t
                < self.next by {
                assert(readiness.states.contains_key(t));
            }
            assert forall|t: usize| #[trigger] self.live@.contains_key(t) implies {
                &&& after.states.contains_key(t)
                &&& after.queue_requests.contains(t) ==> readiness.queue_requests.contains(t)
                &&& after.byte_requests.contains(t) ==> readiness.byte_requests.contains(t)
            } by {
                assert(t != token);
            }
            lemma_others_stand(self.live@, readiness, after, self.limit);
        }
        (record, result)
    }

    /// Ends a task that does not have the turn.
    pub fn retire(&mut self, token: usize) -> (ended: (Option<Record>, Result<(), ReceiverFailure>))
        requires
            old(self).wf(),
            old(self).running() is None,
            old(self).waiting().contains_key(token),
        ensures
            final(self).wf(),
            final(self).waiting() == old(self).waiting().remove(token),
            final(self).released(*old(self), old(self).waiting()[token], ended.0, ended.1),
    {
        let ghost before = *self;
        match self.live.remove(&token) {
            None => (None, Ok(())),
            Some(connection) => {
                proof {
                    assert(stands(before.live@[token], token, before.scheduler@, before.limit));
                    assert(self.live@ =~= before.live@.remove(token));
                    assert forall|t: usize| #[trigger]
                        self.scheduler@.states.contains_key(t) <==> self.live@.contains_key(t) || t
                            == token by {
                        assert(before.scheduler@.states.contains_key(t)
                            <==> before.live@.contains_key(t));
                    }
                    assert forall|t: usize| #[trigger] self.live@.contains_key(t) implies stands(
                        self.live@[t],
                        t,
                        self.scheduler@,
                        self.limit,
                    ) && (self.live@[t].sending() ==> !self.live@[t].offered()) by {
                        assert(before.live@.contains_key(t));
                    }
                }
                self.take_down(connection)
            },
        }
    }

    /// Ends the turn. A task that is over is retired; one whose counters overflowed
    /// stays, and fails the worker; any other waits for its next turn.
    pub fn end_turn(&mut self) -> (ended: (Option<Record>, Result<(), ReceiverFailure>))
        requires
            old(self).wf(),
            old(self).running() matches Some(c) && (c.finished() || !old(self).going_on()),
            !old(self).offers(),
        ensures
            final(self).wf(),
            final(self).running() is None,
            ({
                let task = old(self).running()->0;
                let token = task.task().name();
                if task.finished() && !task.task().progress.counter_overflow {
                    &&& final(self).waiting() == old(self).waiting()
                    &&& final(self).released(*old(self), task, ended.0, ended.1)
                } else {
                    &&& final(self).waiting() == old(self).waiting().insert(token, task)
                    &&& final(self).readiness() == old(self).readiness()
                    &&& final(self).roll() == old(self).roll()
                    &&& final(self).counts() == old(self).counts()
                    &&& final(self).accepts() == old(self).accepts()
                    &&& final(self).next_token() == old(self).next_token()
                    &&& final(self).same_setup(*old(self))
                    &&& ended.0 is None
                    &&& match ended.1 {
                        Ok(()) => {
                            &&& !task.task().progress.counter_overflow
                            &&& !(final(self).readiness().states[token] is Running)
                        },
                        Err(failure) => task.task().progress.counter_overflow && failure
                            is CounterExhausted,
                    }
                }
            }),
    {
        let ghost before = *self;
        let connection = match self.current.take() {
            Some(connection) => connection,
            None => return (None, Ok(())),
        };
        self.in_turn = false;
        self.offering = false;
        let overflow: bool = connection.context().progress().counter_overflow;
        if connection.is_finished() && !overflow {
            return self.take_down(connection);
        }
        let token: usize = connection.context().token();
        let ghost put_back = connection;
        self.live.insert(token, connection);
        proof {
            assert(self.live@ =~= before.live@.insert(token, put_back));
            put_back.lemma_admitted_is_live(self.scheduler@);
            assert forall|t: usize| #[trigger]
                self.scheduler@.states.contains_key(t) <==> self.live@.contains_key(t) by {
                assert(before.scheduler@.states.contains_key(t) <==> before.live@.contains_key(t)
                    || t == token);
            }
            assert forall|t: usize| #[trigger] self.live@.contains_key(t) implies stands(
                self.live@[t],
                t,
                self.scheduler@,
                self.limit,
            ) && (self.live@[t].sending() ==> !self.live@[t].offered()) by {
                if t != token {
                    assert(before.live@.contains_key(t));
                }
            }
        }
        if overflow {
            return (None, Err(ReceiverFailure::CounterExhausted));
        }
        (None, Ok(()))
    }
}

/// The counters of some tasks, in order.
pub open spec fn progress_of(waiting: Map<usize, Connection>, roll: Seq<usize>) -> Seq<Progress> {
    Seq::new(roll.len(), |i: int| waiting[roll[i]].task().progress)
}

/// The observations of some records, each with the charge entry of its bytes.
pub open spec fn listed(records: Seq<Record>) -> Seq<(Observation, Option<(nat, usize)>)> {
    Seq::new(records.len(), |i: int| (records[i]@, records[i].kind.charge()))
}

/// The observations that some tasks have in hand, in order, each with the charge
/// entry of its bytes.
pub open spec fn in_hand(waiting: Map<usize, Connection>, roll: Seq<usize>) -> Seq<
    (Observation, Option<(nat, usize)>),
>
    decreases roll.len(),
{
    if roll.len() == 0 {
        Seq::empty()
    } else {
        let task = waiting[roll.last()];
        let before = in_hand(waiting, roll.drop_last());
        if task.keeps_record() {
            before.push((task.offer(), task.held()))
        } else {
            before
        }
    }
}

impl Worker {
    /// Ends all tasks in the order of their admission, and returns the records that
    /// were not handed off. Every task is added to the counters; where that failed for
    /// one, the worker fails.
    pub fn retire_all(&mut self) -> (ended: (Vec<Record>, Result<(), ReceiverFailure>))
        requires
            old(self).wf(),
            old(self).running() is None,
        ensures
            final(self).wf(),
            final(self).running() is None,
            final(self).roll() == Seq::<usize>::empty(),
            final(self).waiting() == Map::<usize, Connection>::empty(),
            final(self).accepts() == old(self).accepts(),
            final(self).next_token() == old(self).next_token(),
            final(self).same_setup(*old(self)),
            final(self).counts() == absorbed_all(
                old(self).counts(),
                progress_of(old(self).waiting(), old(self).roll()),
            ),
            listed(ended.0@) == in_hand(
                old(self).waiting(),
                old(self).roll(),
            ),
            match ended.1 {
                Ok(()) => absorbs_all(
                    old(self).counts(),
                    progress_of(old(self).waiting(), old(self).roll()),
                ),
                Err(failure) => failure is CounterExhausted && !absorbs_all(
                    old(self).counts(),
                    progress_of(old(self).waiting(), old(self).roll()),
                ),
            },
    {
        let ghost start = *self;
        let ghost roll = self.order@;
        let ghost all = progress_of(start.live@, roll);
        let mut records: Vec<Record> = Vec::new();
        let mut failed: bool = false;
        let ghost mut done: int = 0;
        proof {
            self.order.lemma_tokens_are_distinct();
            assert(roll.skip(0) =~= roll);
            assert(all.take(0) =~= Seq::<Progress>::empty());
            assert(roll.take(0) =~= Seq::<usize>::empty());
            assert(listed(records@) =~= Seq::empty());
        }
        while !self.order.is_empty()
            invariant
                self.wf(),
                self.running() is None,
                start.wf(),
                roll == start.order@,
                roll.no_duplicates(),
                all == progress_of(start.live@, roll),
                0 <= done <= roll.len(),
                self.order@ == roll.skip(done),
                forall|t: usize| #[trigger]
                    self.live@.contains_key(t) ==> start.live@.contains_key(t) && self.live@[t]
                        == start.live@[t],
                self.pacing == start.pacing,
                self.next == start.next,
                self.limit == start.limit,
                self.limits == start.limits,
                self.instance == start.instance,
                self.profile@ == start.profile@,
                self.summary == absorbed_all(start.summary, all.take(done)),
                failed == !absorbs_all(start.summary, all.take(done)),
                listed(records@) == in_hand(
                    start.live@,
                    roll.take(done),
                ),
            decreases self.order@.len(),
        {
            let token: usize = match self.order.first() {
                Some(token) => token,
                None => 0,
            };
            let ghost before = *self;
            proof {
                assert(self.order@[0] == roll[done]);
                assert(self.order@.contains(token));
                assert(self.scheduler@.states.contains_key(token));
                assert(self.live@.contains_key(token));
                self.order.lemma_tokens_are_distinct();
                lemma_without(self.order@, token);
            }
            let ghost told = records@;
            let (record, result) = self.retire(token);
            if let Some(record) = record {
                records.push(record);
            }
            if result.is_err() {
                failed = true;
            }
            proof {
                let next = done + 1;
                assert(self.order@ =~= roll.skip(next));
                assert(all.take(next).drop_last() =~= all.take(done));
                assert(all.take(next).last() == before.live@[token].task().progress);
                assert(roll.take(next).drop_last() =~= roll.take(done));
                assert(roll.take(next).last() == token);
                let task = before.live@[token];
                if task.keeps_record() {
                    assert(listed(records@) =~= listed(told).push((task.offer(), task.held())));
                }
                done = next;
            }
        }
        proof {
            assert(done == roll.len());
            assert(all.take(done) =~= all);
            assert(roll.take(done) =~= roll);
            assert(self.order@ =~= Seq::<usize>::empty());
            assert forall|t: usize| !#[trigger] self.live@.contains_key(t) by {
                if self.live@.contains_key(t) {
                    assert(self.scheduler@.states.contains_key(t));
                    assert(self.order@.contains(t));
                }
            }
            assert(self.live@ =~= Map::<usize, Connection>::empty());
        }
        if failed {
            (records, Err(ReceiverFailure::CounterExhausted))
        } else {
            (records, Ok(()))
        }
    }
}

impl Worker {
    /// Everything but the turns is that of `other`.
    pub open spec fn same_tasks(self, other: Worker) -> bool {
        &&& self.running() == other.running()
        &&& self.going_on() == other.going_on()
        &&& self.offers() == other.offers()
        &&& self.same_company(other)
    }

    proof fn lemma_woken_company(self, old: Worker, token: usize)
        requires
            old.company(None),
            self.scheduler.wf(),
            self.scheduler@ == old.scheduler@.woken(token),
            self.live == old.live,
            self.order == old.order,
            self.next == old.next,
            self.limit == old.limit,
            self.limits == old.limits,
            self.summary == old.summary,
        ensures
            self.company(None),
    {
        let before = old.scheduler@;
        let after = self.scheduler@;
        old.scheduler.lemma_contents_are_valid();
        lemma_woken(before, token);
        assert forall|t: usize| #[trigger] self.live@.contains_key(t) implies {
            &&& after.states.contains_key(t)
            &&& after.queue_requests.contains(t) ==> before.queue_requests.contains(t)
            &&& after.byte_requests.contains(t) ==> before.byte_requests.contains(t)
        } by {
            assert(before.states.contains_key(t));
        }
        lemma_others_stand(self.live@, before, after, self.limit);
        assert forall|t: usize| #[trigger]
            after.states.contains_key(t) <==> self.live@.contains_key(t) by {
            assert(before.states.contains_key(t) <==> old.live@.contains_key(t));
        }
        assert forall|t: usize| #[trigger] self.order@.contains(t) <==> after.states.contains_key(
            t,
        ) by {
            assert(old.order@.contains(t) <==> before.states.contains_key(t));
        }
        assert forall|t: usize| #[trigger] after.states.contains_key(t) implies t < self.next by {
            assert(before.states.contains_key(t));
        }
    }

    /// Wakes the task with the oldest request for a resource that was credited.
    pub fn resume_credit(&mut self, reason: WaitReason)
        requires
            old(self).wf(),
            old(self).running() is None,
            !(reason is Kernel),
        ensures
            final(self).wf(),
            final(self).same_tasks(*old(self)),
            final(self).readiness() == old(self).readiness().credited(reason),
    {
        let ghost before = *self;
        self.scheduler.resume_credit(reason);
        proof {
            let requests = before.scheduler@.requests(reason);
            if requests.len() > 0 {
                self.lemma_woken_company(before, requests[0]);
            }
        }
    }

    /// Accounts for readiness of a socket: that of the listener makes accepts due, and
    /// that of a connection wakes its task if it is parked for it.
    pub fn io_ready(&mut self, token: usize)
        requires
            old(self).wf(),
            old(self).running() is None,
        ensures
            final(self).wf(),
            if token == LISTENER {
                &&& final(self).accepts() == (AcceptPacing {
                    listener_ready: true,
                    ..old(self).accepts()
                })
                &&& final(self).readiness() == old(self).readiness()
                &&& final(self).waiting() == old(self).waiting()
                &&& final(self).running() == old(self).running()
                &&& final(self).roll() == old(self).roll()
                &&& final(self).counts() == old(self).counts()
                &&& final(self).next_token() == old(self).next_token()
                &&& final(self).same_setup(*old(self))
            } else if token == CONTROL {
                *final(self) == *old(self)
            } else {
                &&& final(self).same_tasks(*old(self))
                &&& final(self).readiness() == old(self).readiness().socket_ready(token)
            },
    {
        let ghost before = *self;
        if token == LISTENER {
            self.pacing.listener_ready = true;
        } else if token != CONTROL {
            self.scheduler.io_ready(token);
            proof {
                if before.scheduler@.states.contains_key(token) && before.scheduler@.states[token]
                    == State::Waiting(WaitReason::Kernel) {
                    self.lemma_woken_company(before, token);
                }
            }
        }
    }

    /// Returns how long the worker may wait for readiness, in nanoseconds.
    #[must_use]
    pub fn poll_timeout(&self, now: u64) -> (timeout: u64)
        requires
            self.wf(),
        ensures
            timeout == wait_for(self.readiness().turns.len() > 0, self.accepts(), now),
    {
        self.pacing.poll_timeout(self.scheduler.has_ready(), now)
    }

    /// Returns the counters.
    #[must_use]
    pub fn summary(&self) -> (summary: RunSummary)
        ensures
            summary == self.counts(),
    {
        self.summary
    }

    /// Returns whether a token names a live task that does not have the turn.
    #[must_use]
    pub fn is_waiting(&self, token: usize) -> (waiting: bool)
        ensures
            waiting == self.waiting().contains_key(token),
    {
        self.live.contains_key(&token)
    }

    /// Returns the token of the task that has the turn.
    #[must_use]
    pub fn turn_holder(&self) -> (token: Option<usize>)
        ensures
            token == match self.running() {
                Some(task) => Some(task.task().name()),
                None => None,
            },
    {
        match &self.current {
            Some(connection) => Some(connection.context().token()),
            None => None,
        }
    }

    /// Returns how many tasks are live.
    #[must_use]
    pub fn live(&self) -> (live: usize)
        requires
            self.wf(),
        ensures
            live == self.roll().len(),
            live <= self.bounds()@.connections,
    {
        proof {
            self.lemma_roll_counts_states();
        }
        self.scheduler.live()
    }

    proof fn lemma_roll_counts_states(self)
        requires
            self.wf(),
        ensures
            self.scheduler@.states.len() == self.order@.len(),
            self.scheduler@.states.len() <= self.limits@.connections,
    {
        self.scheduler.lemma_contents_are_valid();
        self.order.lemma_tokens_are_distinct();
        self.order@.unique_seq_to_set();
        assert(self.order@.to_set() =~= self.scheduler@.states.dom()) by {
            assert forall|t: usize|
                self.order@.to_set().contains(t) <==> self.scheduler@.states.dom().contains(t) by {
                assert(self.order@.contains(t) <==> self.scheduler@.states.contains_key(t));
            }
        }
    }

    /// Everything but the pacing and the counters is that of `other`.
    pub open spec fn same_population(self, other: Worker) -> bool {
        &&& self.readiness() == other.readiness()
        &&& self.waiting() == other.waiting()
        &&& self.running() == other.running()
        &&& self.roll() == other.roll()
        &&& self.same_setup(other)
    }

    /// Begins a turn of accept attempts, unless none is due.
    pub fn begin_accept(&mut self, now: u64) -> (turn: Option<AcceptTurn>)
        requires
            old(self).wf(),
        ensures
            final(self).wf(),
            final(self).same_population(*old(self)),
            final(self).counts() == old(self).counts(),
            final(self).next_token() == old(self).next_token(),
            ({
                let pacing = old(self).accepts();
                if pacing.listener_ready && rest_of_pause(pacing.paused_at, now) == 0 {
                    let steps = old(self).bounds()@.turn_steps;
                    &&& final(self).accepts() == (AcceptPacing { paused_at: None, ..pacing })
                    &&& turn matches Some(turn)
                    &&& turn.attempts == if steps < EVENT_BATCH {
                        steps
                    } else {
                        EVENT_BATCH as nat
                    }
                    &&& !turn.progressed
                } else {
                    &&& final(self).accepts() == pacing
                    &&& turn is None
                }
            }),
    {
        let steps: usize = self.limits.turn_steps();
        self.pacing.begin(steps, now)
    }

    /// Decides on the next attempt of an accept turn; returns whether to make it.
    pub fn next_attempt(&mut self, turn: &mut AcceptTurn, stopping: bool, now: u64) -> (result: Result<
        bool,
        ReceiverFailure,
    >)
        requires
            old(self).wf(),
        ensures
            final(self).wf(),
            final(self).same_population(*old(self)),
            final(self).next_token() == old(self).next_token(),
            attempt_decided(
                *old(turn),
                *final(turn),
                old(self).accepts(),
                final(self).accepts(),
                old(self).counts(),
                final(self).counts(),
                stopping,
                now,
                result,
            ),
    {
        self.pacing.next_attempt(turn, &mut self.summary, stopping, now)
    }

    /// Accounts for a failed attempt of the platform's accept; returns whether the
    /// turn goes on. A failure of the listener fails the worker with the original
    /// error. Which failure has which scope is said by [`classify_accept`].
    pub fn attempt_failed(&mut self, error: std::io::Error, now: u64) -> (result: Result<
        bool,
        ReceiverFailure,
    >)
        requires
            old(self).wf(),
        ensures
            final(self).wf(),
            final(self).same_population(*old(self)),
            final(self).next_token() == old(self).next_token(),
            exists|scope: AcceptFailure|
                {
                    &&& scope_on_platform(error, scope)
                    &&& #[trigger] failure_counted(
                        scope,
                        error,
                        old(self).accepts(),
                        final(self).accepts(),
                        old(self).counts(),
                        final(self).counts(),
                        now,
                        result,
                    )
                },
    {
        let scope = classify_accept(&error);
        self.attempt_failed_as(scope, error, now)
    }

    /// Accounts for a failed attempt with a known scope.
    pub fn attempt_failed_as(&mut self, scope: AcceptFailure, error: std::io::Error, now: u64) -> (result:
        Result<bool, ReceiverFailure>)
        requires
            old(self).wf(),
        ensures
            final(self).wf(),
            final(self).same_population(*old(self)),
            final(self).next_token() == old(self).next_token(),
            failure_counted(
                scope,
                error,
                old(self).accepts(),
                final(self).accepts(),
                old(self).counts(),
                final(self).counts(),
                now,
                result,
            ),
    {
        if let AcceptFailure::Fatal = scope {
            return Err(ReceiverFailure::Io(error));
        }
        let ghost before = *self;
        let result = self.pacing.attempt_failed(&mut self.summary, scope, now);
        assert(failure_counted(
            scope,
            error,
            before.pacing,
            self.pacing,
            before.summary,
            self.summary,
            now,
            result,
        ));
        result
    }

    /// What an accepted socket is answered.
    pub open spec fn answered(
        self,
        old: Worker,
        result: Result<Option<usize>, ReceiverFailure>,
    ) -> bool {
        if old.roll().len() == old.bounds()@.connections {
            &&& self.next_token() == old.next_token()
            &&& if old.counts().refused == usize::MAX {
                &&& result matches Err(failure)
                &&& failure is CounterExhausted
                &&& self.counts() == old.counts()
            } else {
                &&& result matches Ok(token)
                &&& token is None
                &&& self.counts() == (RunSummary {
                    refused: (old.counts().refused + 1) as usize,
                    ..old.counts()
                })
            }
        } else {
            &&& self.counts() == old.counts()
            &&& if old.next_token() == usize::MAX {
                &&& result matches Err(failure)
                &&& failure is TokenExhausted
                &&& self.next_token() == old.next_token()
            } else {
                &&& result matches Ok(token)
                &&& token == Some(old.next_token())
                &&& self.next_token() == old.next_token() + 1
                &&& !self.roll().contains(old.next_token())
                &&& self.roll().len() < self.bounds()@.connections
            }
        }
    }

    /// Accounts for an accepted socket: with the bound on live connections reached it
    /// is refused, else it gets the token under which it is admitted once its
    /// readiness is registered.
    pub fn accepted(&mut self, turn: &mut AcceptTurn) -> (result: Result<
        Option<usize>,
        ReceiverFailure,
    >)
        requires
            old(self).wf(),
            old(self).running() is None,
        ensures
            final(self).wf(),
            final(self).same_population(*old(self)),
            final(self).accepts() == old(self).accepts(),
            *final(turn) == (AcceptTurn { progressed: true, ..*old(turn) }),
            final(self).answered(*old(self), result),
    {
        turn.progressed = true;
        proof {
            self.lemma_roll_counts_states();
        }
        if self.scheduler.live() == self.limits.max_connections() {
            match self.summary.refused.checked_add(1) {
                Some(refused) => self.summary.refused = refused,
                None => return Err(ReceiverFailure::CounterExhausted),
            }
            return Ok(None);
        }
        match allocate_token(&mut self.next) {
            Ok(token) => {
                assert(self.order@.contains(token) ==> self.scheduler@.states.contains_key(token));
                Ok(Some(token))
            },
            Err(failure) => Err(failure),
        }
    }

    /// What the admission of a connection leaves.
    pub open spec fn enrolled(
        self,
        old: Worker,
        token: usize,
        peer: Seq<char>,
        result: Result<(), ReceiverFailure>,
    ) -> bool {
        &&& self.readiness() == old.readiness().inserted(token)
        &&& self.roll() == old.roll().push(token)
        &&& self.accepts() == old.accepts()
        &&& self.next_token() == old.next_token()
        &&& self.same_setup(old)
        &&& self.waiting().remove(token) == old.waiting()
        &&& self.waiting().contains_key(token)
        &&& ({
            let connection = self.waiting()[token];
            &&& connection.task().connection()@ == (old.instance_id(), token)
            &&& connection.setting().peer == peer
            &&& connection.setting().capacity == old.bounds()@.payload
            &&& connection.setting().rates == old.accepted_rates()
            &&& connection.chunks() == Seq::<Seq<u8>>::empty()
            &&& connection.handed() == Seq::<crate::record::Observation>::empty()
            &&& connection.task().progress == Progress::none()
            &&& connection.end() is None
            &&& !connection.finished()
            &&& !connection.sending()
            &&& !connection.alone()
        })
        &&& if old.counts().accepted == usize::MAX {
            &&& result matches Err(failure)
            &&& failure is CounterExhausted
            &&& self.counts() == old.counts()
        } else {
            &&& result is Ok
            &&& self.counts() == (RunSummary {
                accepted: (old.counts().accepted + 1) as usize,
                ..old.counts()
            })
        }
    }

    /// Admits a connection under a token of its own, with its first turn coming. It
    /// is admitted even where the counter of admissions is exhausted, which fails the
    /// worker.
    pub fn enroll(&mut self, token: usize, peer: String) -> (result: Result<(), ReceiverFailure>)
        requires
            old(self).wf(),
            old(self).running() is None,
            token < old(self).next_token(),
            !old(self).roll().contains(token),
            old(self).roll().len() < old(self).bounds()@.connections,
        ensures
            final(self).wf(),
            final(self).running() is None,
            final(self).enrolled(*old(self), token, peer@, result),
    {
        let ghost before = *self;
        proof {
            self.lemma_roll_counts_states();
            self.scheduler.lemma_contents_are_valid();
            self.order.lemma_tokens_are_distinct();
            assert(!self.scheduler@.states.contains_key(token)) by {
                assert(self.order@.contains(token) <==> self.scheduler@.states.contains_key(token));
            }
            assert(!self.live@.contains_key(token));
        }
        let context = TaskContext::new(ConnectionId::new(self.instance, token), peer, token);
        self.scheduler.insert(token);
        let connection = Connection::new(
            context,
            self.limits.payload_capacity(),
            self.profile,
            self.limit,
        );
        let ghost admitted = connection;
        self.live.insert(token, connection);
        self.order.push(token);
        proof {
            let old_readiness = before.scheduler@;
            let after = self.scheduler@;
            assert(!old_readiness.queue_requests.contains(token));
            assert(!old_readiness.byte_requests.contains(token));
            admitted.lemma_is_admitted(after);
            assert(self.live@.remove(token) =~= before.live@);
            assert forall|t: usize| #[trigger] before.live@.contains_key(t) implies {
                &&& after.states.contains_key(t)
                &&& after.queue_requests.contains(t) ==> old_readiness.queue_requests.contains(t)
                &&& after.byte_requests.contains(t) ==> old_readiness.byte_requests.contains(t)
            } by {
                assert(old_readiness.states.contains_key(t));
            }
            lemma_others_stand(before.live@, old_readiness, after, self.limit);
            assert forall|t: usize| #[trigger] self.live@.contains_key(t) implies stands(
                self.live@[t],
                t,
                after,
                self.limit,
            ) && (self.live@[t].sending() ==> !self.live@[t].offered()) by {
                if t != token {
                    assert(before.live@.contains_key(t));
                }
            }
            assert forall|t: usize| #[trigger]
                after.states.contains_key(t) <==> self.live@.contains_key(t) by {
                assert(old_readiness.states.contains_key(t) <==> before.live@.contains_key(t));
            }
            lemma_push(before.order@, token);
            assert forall|t: usize| #[trigger]
                self.order@.contains(t) <==> after.states.contains_key(t) by {
                assert(before.order@.contains(t) <==> old_readiness.states.contains_key(t));
            }
            assert forall|t: usize| #[trigger] after.states.contains_key(t) implies t
                < self.next by {
                if t != token {
                    assert(old_readiness.states.contains_key(t));
                }
            }
        }
        match self.summary.accepted.checked_add(1) {
            Some(accepted) => {
                self.summary.accepted = accepted;
                Ok(())
            },
            None => Err(ReceiverFailure::CounterExhausted),
        }
    }
}

impl Worker {
    /// The counters at the shutdown boundary.
    pub open spec fn at_shutdown(self, result: Result<StopCause, ReceiverFailure>) -> RunSummary {
        RunSummary {
            live: self.roll().len() as usize,
            counters_complete: self.counts().counters_complete && !(result matches Err(failure)
                && failure is CounterExhausted),
            ..self.counts()
        }
    }

    /// Ends all tasks after the run came to `result`, and returns the records that were
    /// not handed off.
    pub fn shut_down(&mut self, result: &Result<StopCause, ReceiverFailure>) -> (ended: (
        Vec<Record>,
        Result<(), ReceiverFailure>,
    ))
        requires
            old(self).wf(),
            old(self).running() is None,
        ensures
            final(self).wf(),
            final(self).running() is None,
            final(self).roll() == Seq::<usize>::empty(),
            final(self).same_setup(*old(self)),
            ({
                let ended_tasks = progress_of(old(self).waiting(), old(self).roll());
                let counts = old(self).at_shutdown(*result);
                &&& final(self).counts() == absorbed_all(counts, ended_tasks)
                &&& listed(ended.0@) == in_hand(
                    old(self).waiting(),
                    old(self).roll(),
                )
                &&& match ended.1 {
                    Ok(()) => absorbs_all(counts, ended_tasks),
                    Err(failure) => failure is CounterExhausted && !absorbs_all(
                        counts,
                        ended_tasks,
                    ),
                }
            }),
    {
        if let Err(ReceiverFailure::CounterExhausted) = result {
            self.summary.counters_complete = false;
        }
        self.summary.live = self.live();
        self.retire_all()
    }

    /// Gives the worker's result: the counters with what the budget still retains,
    /// under the cause of the stop, or under the failure of the run or else of the
    /// cleanup.
    pub fn conclude(
        self,
        result: Result<StopCause, ReceiverFailure>,
        cleanup: Result<(), ReceiverFailure>,
        retained: usize,
    ) -> (concluded: Result<RunSummary, ReceiverError>)
        ensures
            concluded_as(self.counts(), result, cleanup, retained, concluded),
    {
        let mut summary = self.summary;
        summary.retained_output_bytes = retained;
        match result {
            Err(failure) => Err(ReceiverError::new(failure, summary)),
            Ok(cause) => match cleanup {
                Err(failure) => Err(ReceiverError::new(failure, summary)),
                Ok(()) => {
                    summary.stopped_by = Some(cause);
                    Ok(summary)
                },
            },
        }
    }
}

/// What a run and its cleanup come to.
pub open spec fn concluded_as(
    counted: RunSummary,
    result: Result<StopCause, ReceiverFailure>,
    cleanup: Result<(), ReceiverFailure>,
    retained: usize,
    concluded: Result<RunSummary, ReceiverError>,
) -> bool {
    let counts = RunSummary { retained_output_bytes: retained, ..counted };
    match (result, cleanup, concluded) {
        (Ok(cause), Ok(()), Ok(summary)) => summary == (RunSummary {
            stopped_by: Some(cause),
            ..counts
        }),
        (Ok(_), Err(failure), Err(error)) => {
            &&& error.cause() == failure
            &&& error.observed() == counts
        },
        (Err(failure), _, Err(error)) => {
            &&& error.cause() == failure
            &&& error.observed() == counts
        },
        _ => false,
    }
}

/// A worker ends well exactly if its run and its cleanup did, and then tells the cause;
/// else it fails for the first of the two that failed. Either way its counters are told
/// as they are, with what is still retained.
pub proof fn law_workers_end_with_their_first_failure(
    counted: RunSummary,
    result: Result<StopCause, ReceiverFailure>,
    cleanup: Result<(), ReceiverFailure>,
    retained: usize,
    concluded: Result<RunSummary, ReceiverError>,
)
    requires
        concluded_as(counted, result, cleanup, retained, concluded),
    ensures
        concluded is Ok <==> result is Ok && cleanup is Ok,
        concluded matches Ok(summary) ==> {
            &&& summary.stopped_by == Some(result->Ok_0)
            &&& summary.retained_output_bytes == retained
            &&& summary.accepted == counted.accepted
            &&& summary.raw_bytes_read == counted.raw_bytes_read
            &&& summary.undelivered_records == counted.undelivered_records
            &&& summary.abandoned == counted.abandoned
            &&& summary.counters_complete == counted.counters_complete
        },
        concluded matches Err(error) ==> {
            &&& error.cause() == if result is Err {
                result->Err_0
            } else {
                cleanup->Err_0
            }
            &&& error.observed().retained_output_bytes == retained
            &&& error.observed().accepted == counted.accepted
            &&& error.observed().raw_bytes_read == counted.raw_bytes_read
            &&& error.observed().abandoned == counted.abandoned
            &&& error.observed().counters_complete == counted.counters_complete
            &&& error.observed().stopped_by == counted.stopped_by
        },
{
}

/// Every raw byte that was read is either handed off or counted as undelivered.
pub proof fn law_raw_bytes_are_accounted_for(worker: Worker)
    requires
        worker.wf(),
    ensures
        worker.counts().raw_bytes_read == worker.counts().raw_bytes_handed_off
            + worker.counts().undelivered_raw_bytes,
{
}

/// While the counters are complete, every admitted connection is live, or was ended
/// with its terminal record handed off, or was abandoned.
pub proof fn law_connections_are_accounted_for(worker: Worker)
    requires
        worker.wf(),
        worker.counts().counters_complete,
        worker.counts().accepted < usize::MAX,
    ensures
        worker.counts().accepted == worker.counts().ended + worker.counts().abandoned
            + worker.roll().len(),
{
}

/// Every task without the turn has named what it waits for, or has a turn coming: none
/// is forgotten. (A task whose counters overflowed fails the worker instead.)
pub proof fn law_no_task_is_forgotten(worker: Worker, token: usize)
    requires
        worker.wf(),
        worker.waiting().contains_key(token),
        !worker.waiting()[token].task().progress.counter_overflow,
    ensures
        worker.readiness().turns.contains(token) || worker.readiness().states[token] is Waiting,
{
    worker.scheduler.lemma_contents_are_valid();
    worker.waiting()[token].lemma_admitted_is_live(worker.scheduler@);
}

/// The largest copy that a worker can need: a whole read or a whole payload.
pub open spec fn largest_copy(limits: Limits) -> nat {
    if limits@.payload > READ_BYTES {
        limits@.payload
    } else {
        READ_BYTES as nat
    }
}

/// A turn asks for no more reads and offers than it has steps.
pub proof fn law_turns_ask_a_bounded_number_of_times(worker: Worker)
    requires
        worker.wf(),
        worker.running() is Some,
    ensures
        worker.asked() <= worker.bounds()@.turn_steps,
{
}

/// Checks that a byte budget can retain the largest copy that a worker can need.
pub fn check_budget(limits: Limits, capacity: usize) -> (result: Result<(), ReceiverError>)
    ensures
        match result {
            Ok(()) => largest_copy(limits) <= capacity,
            Err(error) => {
                &&& largest_copy(limits) > capacity
                &&& error.cause() == ReceiverFailure::BudgetTooSmall(
                    BudgetError::TooLarge { required: largest_copy(limits) as usize, capacity },
                )
                &&& error.observed() == RunSummary::none()
            },
        },
{
    let payload: usize = limits.payload_capacity();
    let required: usize = if payload > READ_BYTES {
        payload
    } else {
        READ_BYTES
    };
    if capacity < required {
        return Err(
            ReceiverError::before_run(
                ReceiverFailure::BudgetTooSmall(BudgetError::TooLarge { required, capacity }),
            ),
        );
    }
    Ok(())
}

/// A budget that can retain the largest copy can retain every read and every payload of
/// the worker, and nothing smaller would do.
pub proof fn law_the_largest_copy_is_a_read_or_a_payload(limits: Limits)
    ensures
        largest_copy(limits) >= 4096,
        largest_copy(limits) >= limits@.payload,
        largest_copy(limits) == 4096 || largest_copy(limits) == limits@.payload,
{
}

/// Shutting down counts the connections that are live then, keeps every other counter,
/// and marks them incomplete exactly if they were or one is what the run failed for.
pub proof fn law_shutdown_counts_live_connections(
    worker: Worker,
    result: Result<StopCause, ReceiverFailure>,
)
    requires
        worker.wf(),
    ensures
        ({
            let counts = worker.at_shutdown(result);
            &&& counts.live == worker.roll().len()
            &&& counts.counters_complete <==> worker.counts().counters_complete && !(result is Err
                && result->Err_0 is CounterExhausted)
            &&& counts.accepted == worker.counts().accepted && counts.ended == worker.counts().ended
            &&& counts.abandoned == worker.counts().abandoned && counts.refused
                == worker.counts().refused
            &&& counts.raw_bytes_read == worker.counts().raw_bytes_read
            &&& counts.records_handed_off == worker.counts().records_handed_off
        }),
{
    worker.lemma_roll_counts_states();
}

/// However many tasks end together, each is one connection more among those that ended
/// or were abandoned, as long as the counters hold them.
pub proof fn law_every_task_that_ends_is_counted(summary: RunSummary, ended: Seq<Progress>)
    requires
        absorbs_all(summary, ended),
        summary.balanced(),
        forall|i: int| 0 <= i < ended.len() ==> (#[trigger] ended[i]).wire_queued <= ended[i].read,
    ensures
        ({
            let after = absorbed_all(summary, ended);
            &&& after.ended + after.abandoned == summary.ended + summary.abandoned + ended.len()
            &&& after.balanced()
            &&& after.counters_complete == summary.counters_complete
            &&& after.accepted == summary.accepted
        }),
    decreases ended.len(),
{
    if ended.len() > 0 {
        let fewer = ended.drop_last();
        assert(ended.last() == ended[ended.len() - 1]);
        assert forall|i: int| 0 <= i < fewer.len() implies (#[trigger] fewer[i]).wire_queued
            <= fewer[i].read by {
            assert(fewer[i] == ended[i]);
        }
        law_every_task_that_ends_is_counted(summary, fewer);
        crate::summary::law_merging_adds_what_a_task_did(
            absorbed_all(summary, fewer),
            ended.last(),
        );
    }
}

/// An accepted socket is refused exactly if as many connections are live as may be, and
/// is then counted; any other gets a token that none had before it. Accepts fail only for
/// a counter or tokens that are used up.
pub proof fn law_sockets_are_refused_only_at_the_bound(
    old: Worker,
    worker: Worker,
    result: Result<Option<usize>, ReceiverFailure>,
)
    requires
        old.wf(),
        worker.answered(old, result),
    ensures
        result matches Ok(token) ==> (token is None <==> old.roll().len()
            >= old.bounds()@.connections),
        result == Ok::<_, ReceiverFailure>(None::<usize>) ==> worker.counts().refused
            == old.counts().refused + 1 && worker.next_token() == old.next_token(),
        result matches Ok(Some(token)) ==> token == old.next_token() && worker.next_token() == token
            + 1 && !old.waiting().contains_key(token) && worker.counts() == old.counts(),
        result is Err ==> worker.counts() == old.counts() && (old.counts().refused == usize::MAX
            || old.next_token() == usize::MAX),
{
    old.lemma_roll_counts_states();
    if let Ok(Some(token)) = result {
        if old.waiting().contains_key(token) {
            assert(old.scheduler@.states.contains_key(token));
        }
    }
}

/// An admitted connection begins as one that has read and told nothing, with the peer, the
/// room and the rates of its worker, has a turn coming, and leaves all others as they are.
pub proof fn law_admitted_connections_begin_afresh(
    old: Worker,
    worker: Worker,
    token: usize,
    peer: Seq<char>,
    result: Result<(), ReceiverFailure>,
    other: usize,
)
    requires
        worker.enrolled(old, token, peer, result),
    ensures
        ({
            let connection = worker.waiting()[token];
            &&& worker.waiting().contains_key(token)
            &&& connection.chunks().len() == 0 && connection.handed().len() == 0
            &&& connection.end() is None && !connection.finished()
            &&& connection.setting().peer == peer
            &&& connection.setting().capacity == old.bounds()@.payload
            &&& connection.setting().rates == old.accepted_rates()
            &&& connection.task().connection()@ == (old.instance_id(), token)
        }),
        worker.readiness().turns.contains(token),
        worker.roll().last() == token,
        other != token && old.waiting().contains_key(other) ==> worker.waiting().contains_key(other)
            && worker.waiting()[other] == old.waiting()[other],
        result is Ok ==> worker.counts().accepted == old.counts().accepted + 1,
        result is Err ==> old.counts().accepted == usize::MAX,
{
    let turns = old.readiness().turns;
    assert(turns.push(token)[turns.len() as int] == token);
    if other != token && old.waiting().contains_key(other) {
        assert(worker.waiting().remove(token).contains_key(other));
        assert(worker.waiting().remove(token)[other] == worker.waiting()[other]);
    }
}

/// When all tasks end, every record that one of them has in hand is returned, with the
/// charge of its bytes, in the order of the tasks, and nothing else is.
pub proof fn law_records_in_hand_are_all_returned(
    waiting: Map<usize, Connection>,
    roll: Seq<usize>,
    token: usize,
)
    ensures
        in_hand(waiting, roll).len() <= roll.len(),
        waiting[token].keeps_record() ==> in_hand(waiting, roll.push(token)) == in_hand(
            waiting,
            roll,
        ).push((waiting[token].offer(), waiting[token].held())),
        !waiting[token].keeps_record() ==> in_hand(waiting, roll.push(token)) == in_hand(
            waiting,
            roll,
        ),
        roll.contains(token) && waiting[token].keeps_record() ==> in_hand(
            waiting,
            roll,
        ).contains((waiting[token].offer(), waiting[token].held())),
        progress_of(waiting, roll).len() == roll.len(),
        forall|i: int|
            0 <= i < roll.len() ==> #[trigger] progress_of(waiting, roll)[i]
                == waiting[roll[i]].task().progress,
    decreases roll.len(),
{
    assert(roll.push(token).drop_last() =~= roll);
    if roll.len() > 0 {
        let rest = roll.drop_last();
        let entry = (waiting[token].offer(), waiting[token].held());
        law_records_in_hand_are_all_returned(waiting, rest, token);
        if roll.contains(token) && waiting[token].keeps_record() {
            let before = in_hand(waiting, rest);
            let all = in_hand(waiting, roll);
            if roll.last() == token {
                assert(all[all.len() - 1] == entry);
            } else {
                let i = choose|i: int| 0 <= i < roll.len() && roll[i] == token;
                assert(rest[i] == token);
                let j = choose|j: int| 0 <= j < before.len() && before[j] == entry;
                assert(all[j] == entry);
            }
        }
    }
}

} // verus!
