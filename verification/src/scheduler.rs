//! Explicit task readiness and resource admission for one worker.
use std::collections::BTreeMap;
use vstd::prelude::*;

use crate::fifo::Fifo;

verus! {

broadcast use {
    vstd::std_specs::btree::group_btree_axioms,
    vstd::laws_cmp::group_laws_cmp,
};

/// What a parked task waits for.
#[derive(Clone, Copy, Debug, PartialEq, Eq, Structural)]
pub enum WaitReason {
    /// Readiness of its socket.
    Kernel,
    /// A slot of the handoff queue.
    Queue,
    /// Retained-byte credit.
    Bytes,
}

/// What the scheduler knows of one live task.
#[derive(Clone, Copy, Debug, PartialEq, Eq, Structural)]
pub enum State {
    /// It has a turn coming.
    Queued,
    /// It has the turn.
    Running,
    /// It has the turn and was woken during it, so another turn is coming.
    Notified,
    /// It is parked.
    Waiting(WaitReason),
}

impl State {
    /// Whether a turn is coming.
    pub open spec fn turn_coming(self) -> bool {
        self is Queued || self is Notified
    }
}

/// The contents of a scheduler: the state of every live task, the order of the
/// coming turns, and the orders in which requests for a queue slot and for byte
/// credit were made.
pub struct Readiness {
    /// Live tasks.
    pub states: Map<usize, State>,
    /// Coming turns, next first.
    pub turns: Seq<usize>,
    /// Requests for a queue slot, oldest first.
    pub queue_requests: Seq<usize>,
    /// Requests for byte credit, oldest first.
    pub byte_requests: Seq<usize>,
    /// The greatest number of live tasks.
    pub capacity: usize,
}

impl Readiness {
    /// The requests for the resource behind a wait reason.
    pub open spec fn requests(self, reason: WaitReason) -> Seq<usize> {
        match reason {
            WaitReason::Kernel => Seq::empty(),
            WaitReason::Queue => self.queue_requests,
            WaitReason::Bytes => self.byte_requests,
        }
    }

    /// The same contents with other requests for one resource.
    pub open spec fn with_requests(self, reason: WaitReason, requests: Seq<usize>) -> Readiness {
        match reason {
            WaitReason::Kernel => self,
            WaitReason::Queue => Readiness { queue_requests: requests, ..self },
            WaitReason::Bytes => Readiness { byte_requests: requests, ..self },
        }
    }

    /// A task has one turn coming exactly if its state says so, only live tasks
    /// have turns or requests, no task requests both resources, and a task that
    /// is parked for a resource has requested it.
    pub open spec fn valid(self) -> bool {
        &&& self.states.dom().finite()
        &&& self.states.len() <= self.capacity
        &&& self.turns.no_duplicates()
        &&& self.queue_requests.no_duplicates()
        &&& self.byte_requests.no_duplicates()
        &&& forall|t: usize| #[trigger]
            self.turns.contains(t) <==> self.states.contains_key(t) && self.states[t].turn_coming()
        &&& forall|t: usize| #[trigger]
            self.queue_requests.contains(t) ==> self.states.contains_key(t)
                && !self.byte_requests.contains(t) && self.states[t] != State::Waiting(
                WaitReason::Kernel,
            ) && self.states[t] != State::Waiting(WaitReason::Bytes)
        &&& forall|t: usize| #[trigger]
            self.byte_requests.contains(t) ==> self.states.contains_key(t)
                && !self.queue_requests.contains(t) && self.states[t] != State::Waiting(
                WaitReason::Kernel,
            ) && self.states[t] != State::Waiting(WaitReason::Queue)
        &&& forall|t: usize|
            #![trigger self.states[t]]
            self.states.contains_key(t) && self.states[t] == State::Waiting(WaitReason::Queue)
                ==> self.queue_requests.contains(t)
        &&& forall|t: usize|
            #![trigger self.states[t]]
            self.states.contains_key(t) && self.states[t] == State::Waiting(WaitReason::Bytes)
                ==> self.byte_requests.contains(t)
    }

    /// Gives a live task a turn behind all others, unless one is coming already.
    pub open spec fn woken(self, token: usize) -> Readiness {
        if !self.states.contains_key(token) || self.states[token].turn_coming() {
            self
        } else {
            Readiness {
                states: self.states.insert(
                    token,
                    if self.states[token] is Running {
                        State::Notified
                    } else {
                        State::Queued
                    },
                ),
                turns: self.turns.push(token),
                ..self
            }
        }
    }

    /// Takes away the coming turn of a task, and calls the task running.
    pub open spec fn quieted(self, token: usize) -> Readiness {
        Readiness {
            states: self.states.insert(token, State::Running),
            turns: without(self.turns, token),
            ..self
        }
    }

    /// Puts a request behind all others for the resource, unless the task has one.
    pub open spec fn joined(self, reason: WaitReason, token: usize) -> Readiness {
        if self.requests(reason).contains(token) {
            self
        } else {
            self.with_requests(reason, self.requests(reason).push(token))
        }
    }

    /// Ends the request of a task; where it was the oldest, the next one's task is
    /// woken.
    pub open spec fn left(self, reason: WaitReason, token: usize) -> Readiness {
        let requests = self.requests(reason);
        if !requests.contains(token) {
            self
        } else {
            let rest = without(requests, token);
            let after = self.with_requests(reason, rest);
            if requests[0] == token && rest.len() > 0 {
                after.woken(rest[0])
            } else {
                after
            }
        }
    }

    /// Admits a task and gives it a turn.
    pub open spec fn inserted(self, token: usize) -> Readiness {
        Readiness {
            states: self.states.insert(token, State::Queued),
            turns: self.turns.push(token),
            ..self
        }
    }

    /// Hands the next turn to its task, if a turn is coming.
    pub open spec fn taken(self) -> Readiness {
        if self.turns.len() == 0 {
            self
        } else {
            Readiness {
                states: self.states.insert(self.turns[0], State::Running),
                turns: self.turns.drop_first(),
                ..self
            }
        }
    }

    /// Parks a task. A wake during its turn survives: its coming turn stays. The
    /// task keeps its place among the requests for what it waits for, and gives up
    /// a request for anything else.
    pub open spec fn parked(self, token: usize, reason: WaitReason) -> Readiness {
        let quiet = if self.states[token] is Notified {
            self
        } else {
            self.quieted(token)
        };
        let moved = match reason {
            WaitReason::Kernel => quiet.left(WaitReason::Queue, token).left(
                WaitReason::Bytes,
                token,
            ),
            WaitReason::Queue => quiet.left(WaitReason::Bytes, token).joined(
                WaitReason::Queue,
                token,
            ),
            WaitReason::Bytes => quiet.left(WaitReason::Queue, token).joined(
                WaitReason::Bytes,
                token,
            ),
        };
        Readiness {
            states: moved.states.insert(
                token,
                if moved.states[token] is Notified {
                    State::Queued
                } else {
                    State::Waiting(reason)
                },
            ),
            ..moved
        }
    }

    /// Wakes a task whose socket became ready, if it is parked for that.
    pub open spec fn socket_ready(self, token: usize) -> Readiness {
        if self.states.contains_key(token) && self.states[token] == State::Waiting(
            WaitReason::Kernel,
        ) {
            self.woken(token)
        } else {
            self
        }
    }

    /// Wakes the task with the oldest request for a resource that was credited.
    pub open spec fn credited(self, reason: WaitReason) -> Readiness {
        if self.requests(reason).len() == 0 {
            self
        } else {
            self.woken(self.requests(reason)[0])
        }
    }

    /// Ends a task: its turn and its requests go, and where it had the oldest
    /// request, the next one's task is woken.
    pub open spec fn retired(self, token: usize) -> Readiness {
        if !self.states.contains_key(token) {
            self
        } else {
            let quiet = self.quieted(token).left(WaitReason::Queue, token).left(
                WaitReason::Bytes,
                token,
            );
            Readiness { states: quiet.states.remove(token), ..quiet }
        }
    }
}

/// An order without one token.
pub open spec fn without(order: Seq<usize>, token: usize) -> Seq<usize> {
    if order.contains(token) {
        order.remove(order.index_of(token))
    } else {
        order
    }
}

pub(crate) proof fn lemma_without(order: Seq<usize>, token: usize)
    requires
        order.no_duplicates(),
    ensures
        without(order, token).no_duplicates(),
        forall|t: usize| #[trigger]
            without(order, token).contains(t) <==> order.contains(t) && t != token,
        without(order, token).len() == order.len() - if order.contains(token) {
            1int
        } else {
            0
        },
        order.len() > 0 && order[0] == token ==> without(order, token) == order.drop_first(),
        order.len() > 0 && order[0] != token ==> without(order, token).len() > 0 && without(
            order,
            token,
        )[0] == order[0],
{
    if order.contains(token) {
        let at = order.index_of(token);
        let after = order.remove(at);
        assert(order[at] == token);
        assert forall|i: int| 0 <= i < after.len() implies #[trigger] after[i] == order[if i < at {
            i
        } else {
            i + 1
        }] by {}
        assert forall|t: usize| #[trigger] after.contains(t) <==> order.contains(t) && t
            != token by {
            if after.contains(t) {
                let i = after.index_of(t);
                assert(after[i] == t);
                assert(order.contains(t));
            }
            if order.contains(t) && t != token {
                let i = order.index_of(t);
                assert(order[i] == t);
                if i < at {
                    assert(after[i] == t);
                } else {
                    assert(after[i - 1] == t);
                }
            }
        }
        if order[0] == token {
            assert(at == 0);
            assert(after =~= order.drop_first());
        }
    }
}

pub(crate) proof fn lemma_push(order: Seq<usize>, token: usize)
    requires
        order.no_duplicates(),
        !order.contains(token),
    ensures
        order.push(token).no_duplicates(),
        forall|t: usize| #[trigger]
            order.push(token).contains(t) <==> order.contains(t) || t == token,
{
    let after = order.push(token);
    assert(after[order.len() as int] == token);
    assert forall|t: usize| #[trigger] after.contains(t) <==> order.contains(t) || t == token by {
        if order.contains(t) {
            let i = order.index_of(t);
            assert(after[i] == t);
        }
        if after.contains(t) && t != token {
            let i = after.index_of(t);
            assert(order[i] == t);
        }
    }
}

proof fn lemma_drop_first(order: Seq<usize>)
    requires
        order.no_duplicates(),
        order.len() > 0,
    ensures
        order.drop_first() == without(order, order[0]),
{
    assert(order.contains(order[0]));
    lemma_without(order, order[0]);
}

pub(crate) proof fn lemma_woken(r: Readiness, token: usize)
    requires
        r.valid(),
    ensures
        r.woken(token).valid(),
        r.woken(token).states.dom() == r.states.dom(),
        r.states.contains_key(token) ==> r.woken(token).turns.contains(token),
{
    let after = r.woken(token);
    if r.states.contains_key(token) && !r.states[token].turn_coming() {
        assert(!r.turns.contains(token));
        lemma_push(r.turns, token);
        assert(after.states.dom() =~= r.states.dom());
        assert forall|t: usize| #[trigger]
            after.queue_requests.contains(t) implies after.states.contains_key(t)
            && !after.byte_requests.contains(t) && after.states[t] != State::Waiting(
            WaitReason::Kernel,
        ) && after.states[t] != State::Waiting(WaitReason::Bytes) by {
            assert(r.queue_requests.contains(t));
        }
        assert forall|t: usize| #[trigger]
            after.byte_requests.contains(t) implies after.states.contains_key(t)
            && !after.queue_requests.contains(t) && after.states[t] != State::Waiting(
            WaitReason::Kernel,
        ) && after.states[t] != State::Waiting(WaitReason::Queue) by {
            assert(r.byte_requests.contains(t));
        }
        assert forall|t: usize| #[trigger]
            after.turns.contains(t) <==> after.states.contains_key(t)
            && after.states[t].turn_coming() by {
            assert(r.turns.contains(t) <==> r.states.contains_key(t) && r.states[t].turn_coming());
        }
    }
}

pub(crate) proof fn lemma_quieted(r: Readiness, token: usize)
    requires
        r.valid(),
        r.states.contains_key(token),
    ensures
        r.quieted(token).valid(),
        r.quieted(token).states.dom() == r.states.dom(),
{
    let after = r.quieted(token);
    lemma_without(r.turns, token);
    assert(after.states.dom() =~= r.states.dom());
    assert forall|t: usize| #[trigger]
        after.queue_requests.contains(t) implies after.states.contains_key(t)
        && !after.byte_requests.contains(t) && after.states[t] != State::Waiting(WaitReason::Kernel)
        && after.states[t] != State::Waiting(WaitReason::Bytes) by {
        assert(r.queue_requests.contains(t));
    }
    assert forall|t: usize| #[trigger]
        after.byte_requests.contains(t) implies after.states.contains_key(t)
        && !after.queue_requests.contains(t) && after.states[t] != State::Waiting(
        WaitReason::Kernel,
    ) && after.states[t] != State::Waiting(WaitReason::Queue) by {
        assert(r.byte_requests.contains(t));
    }
    assert forall|t: usize| #[trigger]
        after.turns.contains(t) <==> after.states.contains_key(t)
        && after.states[t].turn_coming() by {
        assert(r.turns.contains(t) <==> r.states.contains_key(t) && r.states[t].turn_coming());
    }
}

pub(crate) proof fn lemma_joined(r: Readiness, reason: WaitReason, token: usize)
    requires
        r.valid(),
        r.states.contains_key(token),
        r.states[token] is Running || r.states[token].turn_coming(),
        reason is Queue ==> !r.byte_requests.contains(token),
        reason is Bytes ==> !r.queue_requests.contains(token),
    ensures
        r.joined(reason, token).valid(),
        !(reason is Kernel) ==> r.joined(reason, token).requests(reason).contains(token),
{
    let requests = r.requests(reason);
    let after = r.joined(reason, token);
    if !requests.contains(token) && !(reason is Kernel) {
        lemma_push(requests, token);
        assert(after.states == r.states);
        assert(after.turns == r.turns);
        assert forall|t: usize| #[trigger]
            after.queue_requests.contains(t) implies after.states.contains_key(t)
            && !after.byte_requests.contains(t) && after.states[t] != State::Waiting(
            WaitReason::Kernel,
        ) && after.states[t] != State::Waiting(WaitReason::Bytes) by {
            assert(r.queue_requests.contains(t) || t == token);
        }
        assert forall|t: usize| #[trigger]
            after.byte_requests.contains(t) implies after.states.contains_key(t)
            && !after.queue_requests.contains(t) && after.states[t] != State::Waiting(
            WaitReason::Kernel,
        ) && after.states[t] != State::Waiting(WaitReason::Queue) by {
            assert(r.byte_requests.contains(t) || t == token);
        }
        assert forall|t: usize|
            #![trigger after.states[t]]
            after.states.contains_key(t) && after.states[t] == State::Waiting(
                WaitReason::Queue,
            ) implies after.queue_requests.contains(t) by {
            assert(r.states[t] == after.states[t]);
            assert(r.queue_requests.contains(t));
        }
        assert forall|t: usize|
            #![trigger after.states[t]]
            after.states.contains_key(t) && after.states[t] == State::Waiting(
                WaitReason::Bytes,
            ) implies after.byte_requests.contains(t) by {
            assert(r.states[t] == after.states[t]);
            assert(r.byte_requests.contains(t));
        }
    }
}

pub(crate) proof fn lemma_left(r: Readiness, reason: WaitReason, token: usize)
    requires
        r.valid(),
        r.states.contains_key(token),
        !(r.states[token] is Waiting),
    ensures
        r.left(reason, token).valid(),
        r.left(reason, token).capacity == r.capacity,
        r.left(reason, token).states.dom() == r.states.dom(),
        r.left(reason, token).states[token] == r.states[token],
        !r.left(reason, token).requests(reason).contains(token),
        forall|other: WaitReason|
            other != reason ==> #[trigger] r.left(reason, token).requests(other) == r.requests(
                other,
            ),
{
    let requests = r.requests(reason);
    if requests.contains(token) {
        lemma_without(requests, token);
        let rest = without(requests, token);
        let after = r.with_requests(reason, rest);
        assert(after.states == r.states);
        assert(after.turns == r.turns);
        assert forall|t: usize| #[trigger]
            after.queue_requests.contains(t) implies after.states.contains_key(t)
            && !after.byte_requests.contains(t) && after.states[t] != State::Waiting(
            WaitReason::Kernel,
        ) && after.states[t] != State::Waiting(WaitReason::Bytes) by {
            assert(r.queue_requests.contains(t));
            assert(after.byte_requests.contains(t) ==> r.byte_requests.contains(t));
        }
        assert forall|t: usize| #[trigger]
            after.byte_requests.contains(t) implies after.states.contains_key(t)
            && !after.queue_requests.contains(t) && after.states[t] != State::Waiting(
            WaitReason::Kernel,
        ) && after.states[t] != State::Waiting(WaitReason::Queue) by {
            assert(r.byte_requests.contains(t));
            assert(after.queue_requests.contains(t) ==> r.queue_requests.contains(t));
        }
        assert forall|t: usize|
            #![trigger after.states[t]]
            after.states.contains_key(t) && after.states[t] == State::Waiting(
                WaitReason::Queue,
            ) implies after.queue_requests.contains(t) by {
            assert(r.states[t] == after.states[t]);
            assert(r.queue_requests.contains(t));
        }
        assert forall|t: usize|
            #![trigger after.states[t]]
            after.states.contains_key(t) && after.states[t] == State::Waiting(
                WaitReason::Bytes,
            ) implies after.byte_requests.contains(t) by {
            assert(r.states[t] == after.states[t]);
            assert(r.byte_requests.contains(t));
        }
        assert(after.valid());
        if requests[0] == token && rest.len() > 0 {
            assert(rest.contains(rest[0]));
            lemma_woken(after, rest[0]);
        }
    }
}

proof fn lemma_inserted(r: Readiness, token: usize)
    requires
        r.valid(),
        !r.states.contains_key(token),
        r.states.len() < r.capacity,
    ensures
        r.inserted(token).valid(),
{
    let after = r.inserted(token);
    assert(!r.turns.contains(token));
    lemma_push(r.turns, token);
    assert forall|t: usize| #[trigger]
        after.turns.contains(t) <==> after.states.contains_key(t)
        && after.states[t].turn_coming() by {
        assert(r.turns.contains(t) <==> r.states.contains_key(t) && r.states[t].turn_coming());
    }
    assert forall|t: usize| #[trigger]
        after.queue_requests.contains(t) implies after.states.contains_key(t)
        && !after.byte_requests.contains(t) && after.states[t] != State::Waiting(WaitReason::Kernel)
        && after.states[t] != State::Waiting(WaitReason::Bytes) by {
        assert(r.queue_requests.contains(t));
    }
    assert forall|t: usize| #[trigger]
        after.byte_requests.contains(t) implies after.states.contains_key(t)
        && !after.queue_requests.contains(t) && after.states[t] != State::Waiting(
        WaitReason::Kernel,
    ) && after.states[t] != State::Waiting(WaitReason::Queue) by {
        assert(r.byte_requests.contains(t));
    }
}

proof fn lemma_taken(r: Readiness)
    requires
        r.valid(),
    ensures
        r.taken().valid(),
        r.turns.len() > 0 ==> r.states.contains_key(r.turns[0]),
{
    if r.turns.len() > 0 {
        let token = r.turns[0];
        assert(r.turns.contains(token));
        lemma_drop_first(r.turns);
        lemma_quieted(r, token);
        assert(r.taken() == r.quieted(token));
    }
}

pub(crate) proof fn lemma_parked(r: Readiness, token: usize, reason: WaitReason)
    requires
        r.valid(),
        r.states.contains_key(token),
    ensures
        r.parked(token, reason).valid(),
{
    let quiet = if r.states[token] is Notified {
        r
    } else {
        r.quieted(token)
    };
    if !(r.states[token] is Notified) {
        lemma_quieted(r, token);
    }
    let moved = match reason {
        WaitReason::Kernel => {
            lemma_left(quiet, WaitReason::Queue, token);
            let first = quiet.left(WaitReason::Queue, token);
            lemma_left(first, WaitReason::Bytes, token);
            assert(first.left(WaitReason::Bytes, token).requests(WaitReason::Queue)
                == first.requests(WaitReason::Queue));
            first.left(WaitReason::Bytes, token)
        },
        WaitReason::Queue => {
            lemma_left(quiet, WaitReason::Bytes, token);
            let first = quiet.left(WaitReason::Bytes, token);
            assert(!first.requests(WaitReason::Bytes).contains(token));
            lemma_joined(first, WaitReason::Queue, token);
            first.joined(WaitReason::Queue, token)
        },
        WaitReason::Bytes => {
            lemma_left(quiet, WaitReason::Queue, token);
            let first = quiet.left(WaitReason::Queue, token);
            assert(!first.requests(WaitReason::Queue).contains(token));
            lemma_joined(first, WaitReason::Bytes, token);
            first.joined(WaitReason::Bytes, token)
        },
    };
    let after = r.parked(token, reason);
    assert(moved.valid());
    assert(moved.states[token] == quiet.states[token]);
    assert(reason is Kernel ==> !moved.queue_requests.contains(token)
        && !moved.byte_requests.contains(token));
    assert(reason is Queue ==> moved.queue_requests.contains(token)
        && !moved.byte_requests.contains(token));
    assert(reason is Bytes ==> moved.byte_requests.contains(token)
        && !moved.queue_requests.contains(token));
    assert(after.states.dom() =~= moved.states.dom());
    assert forall|t: usize| #[trigger]
        after.turns.contains(t) <==> after.states.contains_key(t)
        && after.states[t].turn_coming() by {
        assert(moved.turns.contains(t) <==> moved.states.contains_key(t)
            && moved.states[t].turn_coming());
    }
    assert forall|t: usize| #[trigger]
        after.queue_requests.contains(t) implies after.states.contains_key(t)
        && !after.byte_requests.contains(t) && after.states[t] != State::Waiting(WaitReason::Kernel)
        && after.states[t] != State::Waiting(WaitReason::Bytes) by {
        assert(moved.queue_requests.contains(t));
    }
    assert forall|t: usize| #[trigger]
        after.byte_requests.contains(t) implies after.states.contains_key(t)
        && !after.queue_requests.contains(t) && after.states[t] != State::Waiting(
        WaitReason::Kernel,
    ) && after.states[t] != State::Waiting(WaitReason::Queue) by {
        assert(moved.byte_requests.contains(t));
    }
    assert forall|t: usize|
        #![trigger after.states[t]]
        after.states.contains_key(t) && after.states[t] == State::Waiting(
            WaitReason::Queue,
        ) implies after.queue_requests.contains(t) by {
        if t != token {
            assert(moved.states[t] == after.states[t]);
        }
    }
    assert forall|t: usize|
        #![trigger after.states[t]]
        after.states.contains_key(t) && after.states[t] == State::Waiting(
            WaitReason::Bytes,
        ) implies after.byte_requests.contains(t) by {
        if t != token {
            assert(moved.states[t] == after.states[t]);
        }
    }
}

proof fn lemma_retired(r: Readiness, token: usize)
    requires
        r.valid(),
    ensures
        r.retired(token).valid(),
        !r.retired(token).states.contains_key(token),
{
    if r.states.contains_key(token) {
        let quiet = r.quieted(token);
        lemma_quieted(r, token);
        lemma_without(r.turns, token);
        lemma_left(quiet, WaitReason::Queue, token);
        let first = quiet.left(WaitReason::Queue, token);
        lemma_left(first, WaitReason::Bytes, token);
        let second = first.left(WaitReason::Bytes, token);
        assert(second.requests(WaitReason::Queue) == first.requests(WaitReason::Queue));
        assert(!second.requests(WaitReason::Queue).contains(token));
        assert(!second.requests(WaitReason::Bytes).contains(token));
        assert(second.states[token] is Running);
        assert(!second.turns.contains(token));
        let after = r.retired(token);
        assert forall|t: usize| #[trigger]
            after.turns.contains(t) <==> after.states.contains_key(t)
            && after.states[t].turn_coming() by {
            assert(second.turns.contains(t) <==> second.states.contains_key(t)
                && second.states[t].turn_coming());
        }
        assert forall|t: usize| #[trigger]
            after.queue_requests.contains(t) implies after.states.contains_key(t)
            && !after.byte_requests.contains(t) && after.states[t] != State::Waiting(
            WaitReason::Kernel,
        ) && after.states[t] != State::Waiting(WaitReason::Bytes) by {
            assert(second.queue_requests.contains(t));
        }
        assert forall|t: usize| #[trigger]
            after.byte_requests.contains(t) implies after.states.contains_key(t)
            && !after.queue_requests.contains(t) && after.states[t] != State::Waiting(
            WaitReason::Kernel,
        ) && after.states[t] != State::Waiting(WaitReason::Queue) by {
            assert(second.byte_requests.contains(t));
        }
        assert forall|t: usize|
            #![trigger after.states[t]]
            after.states.contains_key(t) && after.states[t] == State::Waiting(
                WaitReason::Queue,
            ) implies after.queue_requests.contains(t) by {
            assert(second.states[t] == after.states[t]);
        }
        assert forall|t: usize|
            #![trigger after.states[t]]
            after.states.contains_key(t) && after.states[t] == State::Waiting(
                WaitReason::Bytes,
            ) implies after.byte_requests.contains(t) by {
            assert(second.states[t] == after.states[t]);
        }
    }
}

/// Turn taking and resource admission for the tasks of one worker.
pub struct Scheduler {
    states: BTreeMap<usize, State>,
    turns: Fifo,
    queue_requests: Fifo,
    byte_requests: Fifo,
    capacity: usize,
}

impl View for Scheduler {
    type V = Readiness;

    closed spec fn view(&self) -> Readiness {
        Readiness {
            states: self.states@,
            turns: self.turns@,
            queue_requests: self.queue_requests@,
            byte_requests: self.byte_requests@,
            capacity: self.capacity,
        }
    }
}

impl Scheduler {
    /// The orders are linked soundly and the contents are valid.
    pub closed spec fn wf(self) -> bool {
        &&& self.turns.wf()
        &&& self.queue_requests.wf()
        &&& self.byte_requests.wf()
        &&& self@.valid()
    }

    /// The contents of a sound scheduler are valid.
    pub proof fn lemma_contents_are_valid(&self)
        requires
            self.wf(),
        ensures
            self@.valid(),
    {
    }

    spec fn linked(self) -> bool {
        &&& self.turns.wf()
        &&& self.queue_requests.wf()
        &&& self.byte_requests.wf()
    }

    /// Link entries that the three orders read or wrote so far.
    pub closed spec fn work(self) -> int {
        self.turns.work() + self.queue_requests.work() + self.byte_requests.work()
    }

    /// Creates a scheduler for at most `capacity` live tasks.
    #[must_use]
    pub fn new(capacity: usize) -> (scheduler: Scheduler)
        ensures
            scheduler.wf(),
            scheduler.work() == 0,
            scheduler@ == (Readiness {
                states: Map::empty(),
                turns: Seq::empty(),
                queue_requests: Seq::empty(),
                byte_requests: Seq::empty(),
                capacity,
            }),
    {
        Scheduler {
            states: BTreeMap::new(),
            turns: Fifo::new(),
            queue_requests: Fifo::new(),
            byte_requests: Fifo::new(),
            capacity,
        }
    }

    /// Returns how many tasks are live.
    #[must_use]
    pub fn live(&self) -> (live: usize)
        requires
            self.wf(),
        ensures
            live == self@.states.len(),
            live <= self@.capacity,
    {
        self.states.len()
    }

    /// Returns the greatest number of live tasks.
    #[must_use]
    pub fn capacity(&self) -> (capacity: usize)
        ensures
            capacity == self@.capacity,
    {
        self.capacity
    }

    /// Returns the state of a live task.
    #[must_use]
    pub fn state(&self, token: usize) -> (state: Option<State>)
        ensures
            state == if self@.states.contains_key(token) {
                Some(self@.states[token])
            } else {
                None
            },
    {
        match self.states.get(&token) {
            Some(state) => Some(*state),
            None => None,
        }
    }

    /// Returns the coming turns, next first.
    #[must_use]
    pub fn turns(&self) -> (turns: &Fifo)
        requires
            self.wf(),
        ensures
            turns.wf(),
            turns@ == self@.turns,
    {
        &self.turns
    }

    /// Returns the requests for a resource, oldest first.
    #[must_use]
    pub fn requests(&self, reason: WaitReason) -> (requests: &Fifo)
        requires
            self.wf(),
            !(reason is Kernel),
        ensures
            requests.wf(),
            requests@ == self@.requests(reason),
    {
        match reason {
            WaitReason::Queue => &self.queue_requests,
            _ => &self.byte_requests,
        }
    }

    fn wake_linked(&mut self, token: usize) -> (woken: bool)
        requires
            old(self).linked(),
            old(self)@.states.contains_key(token) && !old(self)@.states[token].turn_coming()
                ==> !old(self)@.turns.contains(token),
        ensures
            final(self).linked(),
            final(self)@ == old(self)@.woken(token),
            woken == (old(self)@.states.contains_key(token)
                && !old(self)@.states[token].turn_coming()),
            final(self).work() <= old(self).work() + 3,
    {
        match self.state(token) {
            None => false,
            Some(State::Queued) | Some(State::Notified) => false,
            Some(State::Running) => {
                self.states.insert(token, State::Notified);
                self.turns.push(token);
                true
            },
            Some(State::Waiting(_)) => {
                self.states.insert(token, State::Queued);
                self.turns.push(token);
                true
            },
        }
    }

    fn quiet(&mut self, token: usize)
        requires
            old(self).linked(),
        ensures
            final(self).linked(),
            final(self)@ == old(self)@.quieted(token),
            final(self).work() <= old(self).work() + 5,
    {
        self.states.insert(token, State::Running);
        let _ = self.turns.remove(token);
    }

    fn join(&mut self, reason: WaitReason, token: usize)
        requires
            old(self).linked(),
            !(reason is Kernel),
        ensures
            final(self).linked(),
            final(self)@ == old(self)@.joined(reason, token),
            final(self).work() <= old(self).work() + 3,
    {
        match reason {
            WaitReason::Queue => {
                if !self.queue_requests.contains(token) {
                    self.queue_requests.push(token);
                }
            },
            _ => {
                if !self.byte_requests.contains(token) {
                    self.byte_requests.push(token);
                }
            },
        }
    }

    fn leave(&mut self, reason: WaitReason, token: usize)
        requires
            old(self).wf(),
            old(self)@.states.contains_key(token),
            !(old(self)@.states[token] is Waiting),
        ensures
            final(self).wf(),
            final(self)@ == old(self)@.left(reason, token),
            final(self).work() <= old(self).work() + 8,
    {
        let ghost before = self@;
        proof {
            lemma_left(before, reason, token);
        }
        let first = match reason {
            WaitReason::Kernel => None,
            WaitReason::Queue => self.queue_requests.first(),
            WaitReason::Bytes => self.byte_requests.first(),
        };
        let removed: bool = match reason {
            WaitReason::Kernel => false,
            WaitReason::Queue => self.queue_requests.remove(token),
            WaitReason::Bytes => self.byte_requests.remove(token),
        };
        if removed && first == Some(token) {
            let next = match reason {
                WaitReason::Kernel => None,
                WaitReason::Queue => self.queue_requests.first(),
                WaitReason::Bytes => self.byte_requests.first(),
            };
            if let Some(next) = next {
                let _ = self.wake_linked(next);
            }
        }
    }

    /// Admits a task that was never live before, with a turn coming.
    pub fn insert(&mut self, token: usize)
        requires
            old(self).wf(),
            old(self)@.states.len() < old(self)@.capacity,
            !old(self)@.states.contains_key(token),
        ensures
            final(self).wf(),
            final(self)@ == old(self)@.inserted(token),
            final(self).work() <= old(self).work() + 3,
    {
        proof {
            lemma_inserted(self@, token);
            assert(!self@.turns.contains(token));
        }
        self.states.insert(token, State::Queued);
        self.turns.push(token);
    }

    /// Hands the next turn to its task.
    pub fn take(&mut self) -> (token: Option<usize>)
        requires
            old(self).wf(),
        ensures
            final(self).wf(),
            final(self)@ == old(self)@.taken(),
            token == if old(self)@.turns.len() == 0 {
                None
            } else {
                Some(old(self)@.turns[0])
            },
            final(self).work() <= old(self).work() + 5,
    {
        proof {
            lemma_taken(self@);
        }
        match self.turns.pop() {
            None => None,
            Some(token) => {
                self.states.insert(token, State::Running);
                Some(token)
            },
        }
    }

    /// Returns whether a turn is coming for any task.
    #[must_use]
    pub fn has_ready(&self) -> (ready: bool)
        requires
            self.wf(),
        ensures
            ready == (self@.turns.len() > 0),
    {
        !self.turns.is_empty()
    }

    /// Wakes a task; returns whether that gave it a turn, so that the worker has to
    /// be told.
    pub fn wake(&mut self, token: usize) -> (woken: bool)
        requires
            old(self).wf(),
        ensures
            final(self).wf(),
            final(self)@ == old(self)@.woken(token),
            woken == (old(self)@.states.contains_key(token)
                && !old(self)@.states[token].turn_coming()),
            final(self).work() <= old(self).work() + 3,
    {
        proof {
            lemma_woken(self@, token);
        }
        self.wake_linked(token)
    }

    /// Wakes a task whose socket became ready, if it is parked for that.
    pub fn io_ready(&mut self, token: usize)
        requires
            old(self).wf(),
        ensures
            final(self).wf(),
            final(self)@ == old(self)@.socket_ready(token),
            final(self).work() <= old(self).work() + 3,
    {
        if let Some(State::Waiting(WaitReason::Kernel)) = self.state(token) {
            let _ = self.wake(token);
        }
    }

    /// Parks a live task.
    pub fn park(&mut self, token: usize, reason: WaitReason)
        requires
            old(self).wf(),
            old(self)@.states.contains_key(token),
        ensures
            final(self).wf(),
            final(self)@ == old(self)@.parked(token, reason),
            final(self).work() <= old(self).work() + 21,
    {
        let ghost before = self@;
        proof {
            lemma_parked(before, token, reason);
        }
        if let Some(State::Notified) = self.state(token) {
        } else {
            proof {
                lemma_quieted(before, token);
            }
            self.quiet(token);
        }
        match reason {
            WaitReason::Kernel => {
                proof {
                    lemma_left(self@, WaitReason::Queue, token);
                }
                self.leave(WaitReason::Queue, token);
                self.leave(WaitReason::Bytes, token);
            },
            WaitReason::Queue => {
                self.leave(WaitReason::Bytes, token);
                self.join(WaitReason::Queue, token);
            },
            WaitReason::Bytes => {
                self.leave(WaitReason::Queue, token);
                self.join(WaitReason::Bytes, token);
            },
        }
        if let Some(State::Notified) = self.state(token) {
            self.states.insert(token, State::Queued);
        } else {
            self.states.insert(token, State::Waiting(reason));
        }
    }

    /// Makes a running task's request for a resource, unless it has made it, and
    /// returns whether it is the oldest: only the oldest may try the resource.
    pub fn request(&mut self, token: usize, reason: WaitReason) -> (oldest: bool)
        requires
            old(self).wf(),
            !(reason is Kernel),
            old(self)@.states.contains_key(token),
            !(old(self)@.states[token] is Waiting),
            reason is Queue ==> !old(self)@.byte_requests.contains(token),
            reason is Bytes ==> !old(self)@.queue_requests.contains(token),
        ensures
            final(self).wf(),
            final(self)@ == old(self)@.joined(reason, token),
            oldest == (final(self)@.requests(reason)[0] == token),
            final(self).work() <= old(self).work() + 3,
    {
        proof {
            lemma_joined(self@, reason, token);
        }
        self.join(reason, token);
        match reason {
            WaitReason::Queue => self.queue_requests.first() == Some(token),
            _ => self.byte_requests.first() == Some(token),
        }
    }

    /// Ends a running task's request, served or given up.
    pub fn complete(&mut self, token: usize, reason: WaitReason)
        requires
            old(self).wf(),
            old(self)@.states.contains_key(token),
            !(old(self)@.states[token] is Waiting),
        ensures
            final(self).wf(),
            final(self)@ == old(self)@.left(reason, token),
            final(self).work() <= old(self).work() + 8,
    {
        self.leave(reason, token);
    }

    /// Wakes the task with the oldest request for a resource that was credited.
    pub fn resume_credit(&mut self, reason: WaitReason)
        requires
            old(self).wf(),
            !(reason is Kernel),
        ensures
            final(self).wf(),
            final(self)@ == old(self)@.credited(reason),
            final(self).work() <= old(self).work() + 3,
    {
        let first = match reason {
            WaitReason::Queue => self.queue_requests.first(),
            _ => self.byte_requests.first(),
        };
        if let Some(token) = first {
            let _ = self.wake(token);
        }
    }

    /// Returns whether a task that gave up its turn has named a wait or has a turn
    /// coming; a retired task has nothing to name.
    #[must_use]
    pub fn verify_pending(&self, token: usize) -> (accounted: bool)
        ensures
            accounted == !(self@.states.contains_key(token) && self@.states[token] is Running),
    {
        !matches!(self.state(token), Some(State::Running))
    }

    /// Ends a task.
    pub fn retire(&mut self, token: usize)
        requires
            old(self).wf(),
        ensures
            final(self).wf(),
            final(self)@ == old(self)@.retired(token),
            final(self).work() <= old(self).work() + 21,
    {
        let ghost before = self@;
        proof {
            lemma_retired(before, token);
        }
        if self.state(token).is_none() {
            return ;
        }
        proof {
            lemma_quieted(before, token);
        }
        self.quiet(token);
        proof {
            lemma_left(self@, WaitReason::Queue, token);
        }
        self.leave(WaitReason::Queue, token);
        self.leave(WaitReason::Bytes, token);
        let _ = self.states.remove(&token);
    }

    /// Returns the number of link entries that the orders read or wrote so far.
    #[must_use]
    pub fn accesses(&self) -> (accesses: u64)
        ensures
            accesses == if self.work() <= u64::MAX {
                self.work()
            } else {
                u64::MAX as int
            },
    {
        self.turns.accesses().saturating_add(self.queue_requests.accesses()).saturating_add(
            self.byte_requests.accesses(),
        )
    }
}

/// Everything that can happen to a scheduler.
pub enum Operation {
    /// A task is admitted.
    Insert(usize),
    /// The next turn is handed out.
    Take,
    /// A task is woken.
    Wake(usize),
    /// The socket of a task became ready.
    SocketReady(usize),
    /// A task is parked.
    Park(usize, WaitReason),
    /// A task requests a resource.
    Request(usize, WaitReason),
    /// A task's request ended, served or given up.
    Complete(usize, WaitReason),
    /// A resource was credited.
    Credit(WaitReason),
    /// A task ended.
    Retire(usize),
}

impl Readiness {
    /// Whether an operation may happen now.
    pub open spec fn admits(self, operation: Operation) -> bool {
        match operation {
            Operation::Insert(token) => {
                &&& self.states.len() < self.capacity
                &&& !self.states.contains_key(token)
            },
            Operation::Park(token, _) => self.states.contains_key(token),
            Operation::Request(token, reason) => {
                &&& !(reason is Kernel)
                &&& self.states.contains_key(token)
                &&& !(self.states[token] is Waiting)
                &&& reason is Queue ==> !self.byte_requests.contains(token)
                &&& reason is Bytes ==> !self.queue_requests.contains(token)
            },
            Operation::Complete(token, _) => {
                &&& self.states.contains_key(token)
                &&& !(self.states[token] is Waiting)
            },
            Operation::Credit(reason) => !(reason is Kernel),
            _ => true,
        }
    }

    /// The contents after an operation.
    pub open spec fn after(self, operation: Operation) -> Readiness {
        match operation {
            Operation::Insert(token) => self.inserted(token),
            Operation::Take => self.taken(),
            Operation::Wake(token) => self.woken(token),
            Operation::SocketReady(token) => self.socket_ready(token),
            Operation::Park(token, reason) => self.parked(token, reason),
            Operation::Request(token, reason) => self.joined(reason, token),
            Operation::Complete(token, reason) => self.left(reason, token),
            Operation::Credit(reason) => self.credited(reason),
            Operation::Retire(token) => self.retired(token),
        }
    }
}

/// Whatever happens, the contents stay valid: one coming turn per task at most,
/// turns and requests of live tasks only, one resource requested at a time, and
/// no task parked for a resource that it has not requested.
pub proof fn law_operations_keep_validity(r: Readiness, operation: Operation)
    requires
        r.valid(),
        r.admits(operation),
    ensures
        r.after(operation).valid(),
{
    match operation {
        Operation::Insert(token) => lemma_inserted(r, token),
        Operation::Take => lemma_taken(r),
        Operation::Wake(token) => lemma_woken(r, token),
        Operation::SocketReady(token) => lemma_woken(r, token),
        Operation::Park(token, reason) => lemma_parked(r, token, reason),
        Operation::Request(token, reason) => lemma_joined(r, reason, token),
        Operation::Complete(token, reason) => lemma_left(r, reason, token),
        Operation::Credit(reason) => {
            if r.requests(reason).len() > 0 {
                lemma_woken(r, r.requests(reason)[0]);
            }
        },
        Operation::Retire(token) => lemma_retired(r, token),
    }
}

/// Whether `later` came out of `earlier` by tokens leaving and others joining at
/// the end: who stays keeps the place among those who stay, and nobody moves back.
pub open spec fn order_kept(earlier: Seq<usize>, later: Seq<usize>) -> bool {
    forall|t: usize| #[trigger]
        earlier.contains(t) && #[trigger] later.contains(t) ==> {
            &&& later.index_of(t) <= earlier.index_of(t)
            &&& forall|u: usize| #[trigger]
                later.contains(u) ==> (earlier.contains(u) && earlier.index_of(u)
                    < earlier.index_of(t) ==> later.index_of(u) < later.index_of(t)) && (
                !earlier.contains(u) ==> later.index_of(t) < later.index_of(u))
        }
}

proof fn lemma_index(order: Seq<usize>, index: int)
    requires
        order.no_duplicates(),
        0 <= index < order.len(),
    ensures
        order.index_of(order[index]) == index,
{
    assert(order.contains(order[index]));
    assert(order[order.index_of(order[index])] == order[index]);
}

proof fn lemma_push_keeps_order(order: Seq<usize>, token: usize)
    requires
        order.no_duplicates(),
        !order.contains(token),
    ensures
        order_kept(order, order.push(token)),
{
    let later = order.push(token);
    lemma_push(order, token);
    assert forall|t: usize| order.contains(t) implies later.index_of(t) == order.index_of(t) by {
        let i = order.index_of(t);
        assert(later[i] == t);
        lemma_index(later, i);
    }
    assert(later[order.len() as int] == token);
    lemma_index(later, order.len() as int);
}

proof fn lemma_without_keeps_order(order: Seq<usize>, token: usize)
    requires
        order.no_duplicates(),
    ensures
        order_kept(order, without(order, token)),
{
    let later = without(order, token);
    lemma_without(order, token);
    if order.contains(token) {
        let at = order.index_of(token);
        assert forall|t: usize| #[trigger] later.contains(t) implies later.index_of(t)
            == order.index_of(t) - if order.index_of(t) < at {
            0int
        } else {
            1
        } by {
            assert(order.contains(t));
            let i = order.index_of(t);
            assert(order[i] == t);
            assert(i != at);
            let j = if i < at {
                i
            } else {
                i - 1
            };
            assert(later[j] == t);
            lemma_index(later, j);
        }
        assert forall|t: usize, u: usize| #[trigger]
            later.contains(t) && #[trigger] later.contains(u) && order.index_of(u)
                < order.index_of(t) implies later.index_of(u) < later.index_of(t) by {
            assert(order.contains(t) && order.contains(u));
            assert(order[order.index_of(t)] == t);
            assert(order[order.index_of(u)] == u);
        }
    }
}

/// Admission is first-in first-out: whatever happens, requests for a resource
/// that stay keep their order, none moves back, and a new request stands behind
/// all that were there before it.
pub proof fn law_requests_keep_their_order(r: Readiness, operation: Operation, reason: WaitReason)
    requires
        r.valid(),
        r.admits(operation),
    ensures
        order_kept(r.requests(reason), r.after(operation).requests(reason)),
{
    let before = r.requests(reason);
    let after = r.after(operation).requests(reason);
    if !(reason is Kernel) {
        assert(before.no_duplicates());
        match operation {
            Operation::Request(token, requested) => {
                if requested == reason && !before.contains(token) {
                    lemma_push_keeps_order(before, token);
                }
            },
            Operation::Complete(token, _) => {
                lemma_left(r, reason, token);
                lemma_without_keeps_order(before, token);
            },
            Operation::Park(token, wanted) => {
                lemma_without_keeps_order(before, token);
                if !before.contains(token) {
                    lemma_push_keeps_order(before, token);
                }
                assert(after == before || after == without(before, token) || (!before.contains(
                    token,
                ) && after == before.push(token)));
            },
            Operation::Retire(token) => {
                lemma_without_keeps_order(before, token);
                assert(after == before || after == without(before, token));
            },
            _ => {
                assert(after == before);
            },
        }
    }
}

proof fn lemma_order_kept_in_two_steps(first: Seq<usize>, second: Seq<usize>, third: Seq<usize>)
    requires
        order_kept(first, second),
        order_kept(second, third),
        forall|t: usize| #[trigger] first.contains(t) && third.contains(t) ==> second.contains(t),
    ensures
        order_kept(first, third),
{
    assert forall|t: usize| #[trigger] first.contains(t) && #[trigger] third.contains(t) implies {
        &&& third.index_of(t) <= first.index_of(t)
        &&& forall|u: usize| #[trigger]
            third.contains(u) ==> (first.contains(u) && first.index_of(u) < first.index_of(t)
                ==> third.index_of(u) < third.index_of(t)) && (!first.contains(u)
                ==> third.index_of(t) < third.index_of(u))
    } by {
        assert(second.contains(t));
        assert forall|u: usize| #[trigger] third.contains(u) implies (first.contains(u)
            && first.index_of(u) < first.index_of(t) ==> third.index_of(u) < third.index_of(t)) && (
        !first.contains(u) ==> third.index_of(t) < third.index_of(u)) by {
            if first.contains(u) {
                assert(second.contains(u));
            }
        }
    }
}

proof fn lemma_woken_keeps_turn_order(r: Readiness, token: usize)
    requires
        r.valid(),
    ensures
        order_kept(r.turns, r.woken(token).turns),
        forall|t: usize| #[trigger]
            r.woken(token).turns.contains(t) ==> r.turns.contains(t) || t == token,
        forall|t: usize| #[trigger] r.turns.contains(t) ==> r.woken(token).turns.contains(t),
{
    if r.states.contains_key(token) && !r.states[token].turn_coming() {
        assert(!r.turns.contains(token));
        lemma_push(r.turns, token);
        lemma_push_keeps_order(r.turns, token);
    }
}

proof fn lemma_left_keeps_turn_order(r: Readiness, reason: WaitReason, token: usize)
    requires
        r.valid(),
        r.states.contains_key(token),
        !(r.states[token] is Waiting),
    ensures
        order_kept(r.turns, r.left(reason, token).turns),
        forall|t: usize| #[trigger]
            r.turns.contains(t) ==> r.left(reason, token).turns.contains(t),
        r.left(reason, token).turns.contains(token) ==> r.turns.contains(token),
{
    let requests = r.requests(reason);
    if requests.contains(token) {
        lemma_left(r, reason, token);
        lemma_without(requests, token);
        let rest = without(requests, token);
        if requests[0] == token && rest.len() > 0 {
            let next = rest[0];
            assert(rest.contains(next));
            if r.states.contains_key(next) && !r.states[next].turn_coming() {
                assert(!r.turns.contains(next));
                lemma_push(r.turns, next);
                lemma_push_keeps_order(r.turns, next);
            }
        }
    }
}

/// Turns are first-in first-out: whatever happens, coming turns that stay keep
/// their order, and a new turn comes behind all that were coming before it.
pub proof fn law_turns_keep_their_order(r: Readiness, operation: Operation)
    requires
        r.valid(),
        r.admits(operation),
    ensures
        order_kept(r.turns, r.after(operation).turns),
{
    match operation {
        Operation::Insert(token) => {
            assert(!r.turns.contains(token));
            lemma_push_keeps_order(r.turns, token);
        },
        Operation::Take => {
            if r.turns.len() > 0 {
                lemma_drop_first(r.turns);
                lemma_without_keeps_order(r.turns, r.turns[0]);
            }
        },
        Operation::Wake(token) => lemma_woken_keeps_turn_order(r, token),
        Operation::SocketReady(token) => lemma_woken_keeps_turn_order(r, token),
        Operation::Request(_, _) => {},
        Operation::Complete(token, reason) => lemma_left_keeps_turn_order(r, reason, token),
        Operation::Credit(reason) => {
            if r.requests(reason).len() > 0 {
                lemma_woken_keeps_turn_order(r, r.requests(reason)[0]);
            }
        },
        Operation::Park(token, reason) => {
            let quiet = if r.states[token] is Notified {
                r
            } else {
                r.quieted(token)
            };
            lemma_without_keeps_order(r.turns, token);
            lemma_without(r.turns, token);
            if !(r.states[token] is Notified) {
                lemma_quieted(r, token);
            }
            lemma_leaving_keeps_turn_order(r, quiet, token);
        },
        Operation::Retire(token) => {
            if r.states.contains_key(token) {
                lemma_without_keeps_order(r.turns, token);
                lemma_without(r.turns, token);
                lemma_quieted(r, token);
                lemma_leaving_keeps_turn_order(r, r.quieted(token), token);
            }
        },
    }
}

proof fn lemma_leaving_keeps_turn_order(r: Readiness, quiet: Readiness, token: usize)
    requires
        quiet.valid(),
        quiet.states.contains_key(token),
        !(quiet.states[token] is Waiting),
        order_kept(r.turns, quiet.turns),
        forall|t: usize| #[trigger]
            r.turns.contains(t) ==> quiet.turns.contains(t) || t == token,
    ensures
        order_kept(r.turns, quiet.left(WaitReason::Bytes, token).turns),
        order_kept(r.turns, quiet.left(WaitReason::Queue, token).turns),
        order_kept(
            r.turns,
            quiet.left(WaitReason::Queue, token).left(WaitReason::Bytes, token).turns,
        ),
{
    let one = quiet.left(WaitReason::Queue, token);
    let other = quiet.left(WaitReason::Bytes, token);
    let both = one.left(WaitReason::Bytes, token);
    lemma_left(quiet, WaitReason::Queue, token);
    lemma_left_keeps_turn_order(quiet, WaitReason::Queue, token);
    lemma_left_keeps_turn_order(quiet, WaitReason::Bytes, token);
    lemma_left_keeps_turn_order(one, WaitReason::Bytes, token);
    lemma_order_kept_in_two_steps(r.turns, quiet.turns, one.turns);
    lemma_order_kept_in_two_steps(r.turns, quiet.turns, other.turns);
    lemma_order_kept_in_two_steps(quiet.turns, one.turns, both.turns);
    lemma_order_kept_in_two_steps(r.turns, quiet.turns, both.turns);
}

/// A credited resource reaches the oldest request: its task has a turn coming.
pub proof fn law_credit_reaches_the_oldest_request(r: Readiness, reason: WaitReason)
    requires
        r.valid(),
        r.requests(reason).len() > 0,
    ensures
        r.credited(reason).requests(reason) == r.requests(reason),
        r.credited(reason).turns.contains(r.requests(reason)[0]),
{
    let token = r.requests(reason)[0];
    assert(r.requests(reason).contains(token));
    lemma_woken(r, token);
}

/// When the oldest request ends, be it served, given up or retired with its task,
/// the task behind it has a turn coming without any further credit.
pub proof fn law_next_request_gets_its_turn(r: Readiness, reason: WaitReason, operation: Operation)
    requires
        r.valid(),
        r.admits(operation),
        r.requests(reason).len() > 1,
        r.after(operation).requests(reason) == r.requests(reason).drop_first(),
    ensures
        r.after(operation).turns.contains(r.requests(reason)[1]),
{
    let token = r.requests(reason)[0];
    let next = r.requests(reason)[1];
    let requests = r.requests(reason);
    assert(requests.contains(token));
    assert(requests.contains(next));
    assert(r.after(operation).requests(reason).len() == requests.len() - 1);
    assert(r.states.contains_key(token) && r.states.contains_key(next));
    match operation {
        Operation::Complete(leaver, left) => {
            lemma_end_wakes_next(r, reason, leaver, left);
        },
        Operation::Park(leaver, wanted) => {
            let quiet = if r.states[leaver] is Notified {
                r
            } else {
                r.quieted(leaver)
            };
            if !(r.states[leaver] is Notified) {
                lemma_quieted(r, leaver);
            }
            lemma_without(requests, leaver);
            match wanted {
                WaitReason::Kernel => {
                    let one = quiet.left(WaitReason::Queue, leaver);
                    lemma_left(quiet, WaitReason::Queue, leaver);
                    lemma_left(one, WaitReason::Bytes, leaver);
                    assert(one.requests(WaitReason::Bytes) == quiet.requests(WaitReason::Bytes));
                    if reason is Queue {
                        lemma_end_wakes_next(quiet, reason, leaver, WaitReason::Queue);
                        lemma_left_keeps_turn_order(one, WaitReason::Bytes, leaver);
                        assert(one.turns.contains(next));
                    } else {
                        lemma_end_wakes_next(one, reason, leaver, WaitReason::Bytes);
                    }
                },
                WaitReason::Queue => {
                    lemma_left(quiet, WaitReason::Bytes, leaver);
                    lemma_end_wakes_next(quiet, reason, leaver, WaitReason::Bytes);
                },
                WaitReason::Bytes => {
                    lemma_left(quiet, WaitReason::Queue, leaver);
                    lemma_end_wakes_next(quiet, reason, leaver, WaitReason::Queue);
                },
            }
        },
        Operation::Retire(leaver) => {
            if r.states.contains_key(leaver) {
                let quiet = r.quieted(leaver);
                lemma_quieted(r, leaver);
                let one = quiet.left(WaitReason::Queue, leaver);
                lemma_left(quiet, WaitReason::Queue, leaver);
                lemma_left(one, WaitReason::Bytes, leaver);
                assert(one.requests(WaitReason::Bytes) == quiet.requests(WaitReason::Bytes));
                if reason is Queue {
                    lemma_end_wakes_next(quiet, reason, leaver, WaitReason::Queue);
                    lemma_left_keeps_turn_order(one, WaitReason::Bytes, leaver);
                    assert(one.turns.contains(next));
                } else {
                    lemma_end_wakes_next(one, reason, leaver, WaitReason::Bytes);
                }
            }
        },
        _ => {},
    }
}

proof fn lemma_end_wakes_next(r: Readiness, reason: WaitReason, leaver: usize, left: WaitReason)
    requires
        r.valid(),
        r.states.contains_key(leaver),
        !(r.states[leaver] is Waiting),
        r.requests(reason).len() > 1,
        r.left(left, leaver).requests(reason) == r.requests(reason).drop_first(),
    ensures
        r.left(left, leaver).turns.contains(r.requests(reason)[1]),
{
    let requests = r.requests(reason);
    let next = requests[1];
    assert(requests.drop_first().len() == requests.len() - 1);
    lemma_left(r, left, leaver);
    assert(left == reason);
    lemma_without(requests, leaver);
    let rest = without(requests, leaver);
    assert(requests.contains(leaver));
    if requests[0] != leaver {
        assert(rest[0] == requests[0]);
        assert(requests.drop_first()[0] == requests[1]);
        assert(false);
    }
    assert(rest[0] == next);
    assert(requests.contains(next));
    if !r.states[next].turn_coming() {
        assert(r.turns.push(next)[r.turns.len() as int] == next);
    }
}

/// A wake during a turn is not lost: whatever the task then waits for, its next
/// turn is coming.
pub proof fn law_wake_survives_parking(r: Readiness, token: usize, reason: WaitReason)
    requires
        r.valid(),
        r.states.contains_key(token),
        r.states[token] is Running,
    ensures
        r.woken(token).parked(token, reason).turns.contains(token),
{
    lemma_woken(r, token);
    let woken = r.woken(token);
    assert(woken.states[token] is Notified);
    lemma_parked(woken, token, reason);
    let parked = woken.parked(token, reason);
    lemma_left(woken, WaitReason::Queue, token);
    lemma_left(woken, WaitReason::Bytes, token);
    lemma_left(woken.left(WaitReason::Queue, token), WaitReason::Bytes, token);
    assert(parked.states[token] is Queued);
    assert(parked.states.contains_key(token));
}

/// Waking a task again before its turn changes nothing.
pub proof fn law_repeated_wakes_give_one_turn(r: Readiness, token: usize)
    ensures
        r.woken(token).woken(token) == r.woken(token),
{
}

/// A task that is not live cannot be woken or given anything, whatever refers to
/// it still.
pub proof fn law_retired_tasks_stay_silent(r: Readiness, token: usize)
    requires
        r.valid(),
    ensures
        !r.retired(token).states.contains_key(token),
        !r.retired(token).turns.contains(token),
        !r.retired(token).queue_requests.contains(token),
        !r.retired(token).byte_requests.contains(token),
        r.retired(token).woken(token) == r.retired(token),
        r.retired(token).socket_ready(token) == r.retired(token),
        r.retired(token).retired(token) == r.retired(token),
{
    lemma_retired(r, token);
    let gone = r.retired(token);
    assert(gone.turns.contains(token) ==> gone.states.contains_key(token));
    assert(gone.queue_requests.contains(token) ==> gone.states.contains_key(token));
    assert(gone.byte_requests.contains(token) ==> gone.states.contains_key(token));
}

/// Socket readiness does not wake a task that waits for a resource.
pub proof fn law_readiness_does_not_spin_resource_waits(r: Readiness, token: usize)
    requires
        r.states.contains_key(token),
        r.states[token] == State::Waiting(WaitReason::Queue) || r.states[token] == State::Waiting(
            WaitReason::Bytes,
        ),
    ensures
        r.socket_ready(token) == r,
{
}

/// Memberships are bounded by the live tasks: at most one coming turn each, and
/// at most one request each over both resources.
pub proof fn law_memberships_are_bounded(r: Readiness)
    requires
        r.valid(),
    ensures
        r.turns.len() <= r.states.len() <= r.capacity,
        r.queue_requests.len() + r.byte_requests.len() <= r.states.len(),
{
    let live = r.states.dom();
    r.turns.unique_seq_to_set();
    assert(r.turns.to_set().subset_of(live)) by {
        assert forall|t: usize| r.turns.to_set().contains(t) implies live.contains(t) by {
            assert(r.turns.contains(t));
        }
    }
    vstd::set_lib::lemma_len_subset(r.turns.to_set(), live);
    let all = r.queue_requests + r.byte_requests;
    assert(all.no_duplicates()) by {
        assert forall|i: int, j: int| 0 <= i < all.len() && 0 <= j < all.len() && i
            != j implies all[i] != all[j] by {
            if i < r.queue_requests.len() && j >= r.queue_requests.len() {
                assert(r.queue_requests.contains(all[i]));
                assert(r.byte_requests.contains(all[j]));
            }
            if j < r.queue_requests.len() && i >= r.queue_requests.len() {
                assert(r.queue_requests.contains(all[j]));
                assert(r.byte_requests.contains(all[i]));
            }
        }
    }
    all.unique_seq_to_set();
    assert(all.to_set().subset_of(live)) by {
        assert forall|t: usize| all.to_set().contains(t) implies live.contains(t) by {
            let i = all.index_of(t);
            assert(all[i] == t);
            if i < r.queue_requests.len() {
                assert(r.queue_requests.contains(t));
            } else {
                assert(r.byte_requests[i - r.queue_requests.len()] == t);
                assert(r.byte_requests.contains(t));
            }
        }
    }
    vstd::set_lib::lemma_len_subset(all.to_set(), live);
}

/// Whether what happened is the doing of one task: requests of the others stay, and
/// the others can at most have been woken.
pub open spec fn only_touches(before: Readiness, after: Readiness, token: usize) -> bool {
    &&& after.capacity == before.capacity
    &&& after.states.dom() == before.states.dom()
    &&& forall|t: usize|
        t != token ==> (#[trigger] after.queue_requests.contains(t) <==> before.queue_requests.contains(t))
    &&& forall|t: usize|
        t != token ==> (#[trigger] after.byte_requests.contains(t) <==> before.byte_requests.contains(t))
    &&& forall|t: usize|
        #![trigger after.states[t]]
        t != token && before.states.contains_key(t) ==> {
            ||| after.states[t] == before.states[t]
            ||| before.states[t] is Waiting && after.states[t] is Queued
            ||| before.states[t] is Running && after.states[t] is Notified
        }
}

/// What two operations of one task do together is the doing of that task.
pub(crate) proof fn lemma_touches_in_two_steps(
    first: Readiness,
    second: Readiness,
    third: Readiness,
    token: usize,
)
    requires
        only_touches(first, second, token),
        only_touches(second, third, token),
    ensures
        only_touches(first, third, token),
{
    assert forall|t: usize| t != token implies (#[trigger] third.queue_requests.contains(t)
        <==> first.queue_requests.contains(t)) by {
        assert(second.queue_requests.contains(t) <==> first.queue_requests.contains(t));
    }
    assert forall|t: usize| t != token implies (#[trigger] third.byte_requests.contains(t)
        <==> first.byte_requests.contains(t)) by {
        assert(second.byte_requests.contains(t) <==> first.byte_requests.contains(t));
    }
    assert forall|t: usize|
        #![trigger third.states[t]]
        t != token && first.states.contains_key(t) implies {
        ||| third.states[t] == first.states[t]
        ||| first.states[t] is Waiting && third.states[t] is Queued
        ||| first.states[t] is Running && third.states[t] is Notified
    } by {
        assert(second.states.contains_key(t));
        assert(second.states[t] == second.states[t]);
    }
}

pub(crate) proof fn lemma_woken_touches(r: Readiness, woken: usize, token: usize)
    requires
        r.valid(),
    ensures
        only_touches(r, r.woken(woken), token),
{
    lemma_woken(r, woken);
}

pub(crate) proof fn lemma_quieted_touches(r: Readiness, token: usize)
    requires
        r.valid(),
        r.states.contains_key(token),
    ensures
        only_touches(r, r.quieted(token), token),
{
    lemma_quieted(r, token);
}

pub(crate) proof fn lemma_joined_touches(r: Readiness, reason: WaitReason, token: usize)
    requires
        r.valid(),
    ensures
        only_touches(r, r.joined(reason, token), token),
{
    if !r.requests(reason).contains(token) && !(reason is Kernel) {
        lemma_push(r.requests(reason), token);
    }
}

pub(crate) proof fn lemma_left_touches(r: Readiness, reason: WaitReason, token: usize)
    requires
        r.valid(),
        r.states.contains_key(token),
        !(r.states[token] is Waiting),
    ensures
        only_touches(r, r.left(reason, token), token),
{
    lemma_left(r, reason, token);
    let requests = r.requests(reason);
    if requests.contains(token) {
        lemma_without(requests, token);
        let rest = without(requests, token);
        let after = r.with_requests(reason, rest);
        assert(only_touches(r, after, token));
    }
}

pub(crate) proof fn lemma_parked_touches(r: Readiness, token: usize, reason: WaitReason)
    requires
        r.valid(),
        r.states.contains_key(token),
    ensures
        only_touches(r, r.parked(token, reason), token),
{
    let quiet = if r.states[token] is Notified {
        r
    } else {
        r.quieted(token)
    };
    lemma_quieted(r, token);
    lemma_quieted_touches(r, token);
    assert(only_touches(r, quiet, token));
    lemma_left(quiet, WaitReason::Queue, token);
    lemma_left(quiet, WaitReason::Bytes, token);
    lemma_left_touches(quiet, WaitReason::Queue, token);
    lemma_left_touches(quiet, WaitReason::Bytes, token);
    let one = quiet.left(WaitReason::Queue, token);
    let other = quiet.left(WaitReason::Bytes, token);
    lemma_left_touches(one, WaitReason::Bytes, token);
    lemma_joined_touches(one, WaitReason::Bytes, token);
    lemma_joined_touches(other, WaitReason::Queue, token);
    lemma_touches_in_two_steps(r, quiet, one, token);
    lemma_touches_in_two_steps(r, quiet, other, token);
    let moved = match reason {
        WaitReason::Kernel => one.left(WaitReason::Bytes, token),
        WaitReason::Queue => other.joined(WaitReason::Queue, token),
        WaitReason::Bytes => one.joined(WaitReason::Bytes, token),
    };
    match reason {
        WaitReason::Kernel => lemma_touches_in_two_steps(r, one, moved, token),
        WaitReason::Queue => lemma_touches_in_two_steps(r, other, moved, token),
        WaitReason::Bytes => lemma_touches_in_two_steps(r, one, moved, token),
    }
    let after = r.parked(token, reason);
    assert(after.states.dom() =~= moved.states.dom());
    assert(only_touches(moved, after, token));
    lemma_touches_in_two_steps(r, moved, after, token);
}

/// A parked task has named what it waits for, or has a turn coming.
pub(crate) proof fn lemma_parked_is_accounted_for(r: Readiness, token: usize, reason: WaitReason)
    requires
        r.valid(),
        r.states.contains_key(token),
    ensures
        r.parked(token, reason).states[token] == State::Waiting(reason) || r.parked(
            token,
            reason,
        ).states[token] is Queued,
{
    let quiet = if r.states[token] is Notified {
        r
    } else {
        r.quieted(token)
    };
    lemma_quieted(r, token);
    lemma_left(quiet, WaitReason::Queue, token);
    lemma_left(quiet, WaitReason::Bytes, token);
    lemma_left(quiet.left(WaitReason::Queue, token), WaitReason::Bytes, token);
}

/// Retiring a task changes the requests of no other.
pub(crate) proof fn lemma_retired_touches(r: Readiness, token: usize)
    requires
        r.valid(),
        r.states.contains_key(token),
    ensures
        r.retired(token).valid(),
        r.retired(token).capacity == r.capacity,
        r.retired(token).states.dom() == r.states.dom().remove(token),
        forall|t: usize|
            t != token ==> (#[trigger] r.retired(token).queue_requests.contains(t)
                <==> r.queue_requests.contains(t)),
        forall|t: usize|
            t != token ==> (#[trigger] r.retired(token).byte_requests.contains(t)
                <==> r.byte_requests.contains(t)),
{
    lemma_retired(r, token);
    let quiet = r.quieted(token);
    lemma_quieted(r, token);
    lemma_quieted_touches(r, token);
    lemma_left(quiet, WaitReason::Queue, token);
    lemma_left_touches(quiet, WaitReason::Queue, token);
    let one = quiet.left(WaitReason::Queue, token);
    lemma_left_touches(one, WaitReason::Bytes, token);
    let both = one.left(WaitReason::Bytes, token);
    lemma_touches_in_two_steps(r, quiet, one, token);
    lemma_touches_in_two_steps(r, one, both, token);
    assert(r.retired(token).states.dom() =~= r.states.dom().remove(token));
    assert forall|t: usize| t != token implies (#[trigger] r.retired(
        token,
    ).queue_requests.contains(t) <==> r.queue_requests.contains(t)) by {
        assert(both.queue_requests.contains(t) <==> r.queue_requests.contains(t));
    }
    assert forall|t: usize| t != token implies (#[trigger] r.retired(
        token,
    ).byte_requests.contains(t) <==> r.byte_requests.contains(t)) by {
        assert(both.byte_requests.contains(t) <==> r.byte_requests.contains(t));
    }
}

/// Whoever is admitted or woken has a turn coming, behind all turns that were coming, and
/// the state of no other task changes.
pub proof fn law_woken_tasks_get_a_turn(r: Readiness, token: usize, other: usize)
    requires
        r.valid(),
        other != token,
    ensures
        r.states.contains_key(token) ==> r.woken(token).turns.contains(token),
        r.inserted(token).turns == r.turns.push(token),
        r.inserted(token).states.contains_key(token),
        r.states.contains_key(token) && !r.turns.contains(token) ==> r.woken(token).turns
            == r.turns.push(token),
        r.woken(token).states.contains_key(other) == r.states.contains_key(other),
        r.states.contains_key(other) ==> r.woken(token).states[other] == r.states[other]
            && r.inserted(token).states[other] == r.states[other],
        r.woken(token).queue_requests == r.queue_requests,
        r.woken(token).byte_requests == r.byte_requests,
{
    lemma_woken(r, token);
    assert(r.turns.contains(token) <==> r.states.contains_key(token)
        && r.states[token].turn_coming());
}

/// The turn that was coming first is handed out, its task runs, and the others stay in
/// their order.
pub proof fn law_the_first_turn_is_handed_out(r: Readiness)
    requires
        r.turns.len() > 0,
    ensures
        r.taken().turns == r.turns.skip(1),
        r.taken().states[r.turns[0]] is Running,
        r.taken().queue_requests == r.queue_requests,
        r.taken().byte_requests == r.byte_requests,
{
    assert(r.turns.drop_first() =~= r.turns.skip(1));
}

/// A task that parks without having been woken waits for what it named, and has no turn
/// until it is woken.
pub proof fn law_parked_tasks_wait(r: Readiness, token: usize, reason: WaitReason)
    requires
        r.valid(),
        r.states.contains_key(token),
        r.states[token] is Running,
        !(reason is Kernel) ==> r.requests(reason).contains(token),
    ensures
        r.parked(token, reason).states[token] == State::Waiting(reason),
        !r.parked(token, reason).turns.contains(token),
        r.parked(token, reason).woken(token).turns.contains(token),
{
    lemma_parked(r, token, reason);
    lemma_quieted(r, token);
    let quiet = r.quieted(token);
    assert(quiet.states[token] is Running);
    lemma_left(quiet, WaitReason::Queue, token);
    lemma_left(quiet, WaitReason::Bytes, token);
    lemma_left(quiet.left(WaitReason::Queue, token), WaitReason::Bytes, token);
    let parked = r.parked(token, reason);
    assert(parked.states[token] == State::Waiting(reason));
    assert(parked.turns.contains(token) ==> parked.states[token].turn_coming());
    lemma_woken(parked, token);
}

} // verus!
