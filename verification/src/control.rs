//! Requests to close single connections of a receiver.
use std::collections::BTreeMap;
use vstd::prelude::*;

use crate::fifo::Fifo;
use crate::record::ConnectionId;

verus! {

broadcast use {
    vstd::std_specs::btree::group_btree_axioms,
    vstd::laws_cmp::group_laws_cmp,
};

/// Why a connection cannot be closed.
#[derive(Clone, Copy, Debug, PartialEq, Eq, Structural)]
pub enum ConnectionCloseError {
    /// The identity belongs to another receiver, or its connection is over.
    UnknownOrStale,
}

/// How a connection that was to be closed ended.
#[derive(Clone, Copy, Debug, PartialEq, Eq, Structural)]
pub enum ConnectionCloseResult {
    /// It was retired on request.
    RetiredByRequest,
    /// It ended with its receiver.
    ReceiverStopped,
    /// It ended by itself before the request was taken up.
    EndedByItself,
}

/// The live connections of a receiver and the requests to close them.
///
/// An identity is never used again, so a request can reach no other connection than
/// the one it names.
pub struct CloseRegistry {
    instance: u64,
    live: BTreeMap<usize, bool>,
    requests: Fifo,
}

/// The live connections with whether they are to be closed, and the requests in order.
pub struct Closings {
    /// The receiver instance.
    pub instance: u64,
    /// Live connections, with whether their closing was requested.
    pub live: Map<usize, bool>,
    /// Requests that were not taken up, oldest first.
    pub requests: Seq<usize>,
}

impl Closings {
    /// The account with a connection that was admitted.
    pub open spec fn admitting(self, token: usize) -> Closings {
        Closings { live: self.live.insert(token, false), ..self }
    }

    /// What asking for the closing of a connection came to.
    pub open spec fn asked(
        self,
        old: Closings,
        id: (u64, usize),
        result: Result<(), ConnectionCloseError>,
    ) -> bool {
        if id.0 == old.instance && old.live.contains_key(id.1) {
            &&& result is Ok
            &&& if old.live[id.1] {
                self == old
            } else {
                self == (Closings {
                    live: old.live.insert(id.1, true),
                    requests: old.requests.push(id.1),
                    ..old
                })
            }
        } else {
            &&& result == Err::<(), _>(ConnectionCloseError::UnknownOrStale)
            &&& self == old
        }
    }

    /// What taking up the oldest request came to.
    pub open spec fn taken_up(self, old: Closings, token: Option<usize>) -> bool {
        match token {
            None => old.requests.len() == 0 && self == old,
            Some(token) => {
                &&& old.requests.len() > 0
                &&& token == old.requests[0]
                &&& old.live.contains_key(token)
                &&& self == (Closings { requests: old.requests.drop_first(), ..old })
            },
        }
    }

    /// What the end of a connection leaves.
    pub open spec fn over(self, old: Closings, token: usize) -> bool {
        self == (Closings {
            live: old.live.remove(token),
            requests: crate::scheduler::without(old.requests, token),
            ..old
        })
    }
}

impl View for CloseRegistry {
    type V = Closings;

    closed spec fn view(&self) -> Closings {
        Closings { instance: self.instance, live: self.live@, requests: self.requests@ }
    }
}

impl CloseRegistry {
    /// Only live connections have requests, and each that waits is marked.
    pub closed spec fn wf(self) -> bool {
        &&& self.requests.wf()
        &&& forall|t: usize| #[trigger]
            self.requests@.contains(t) ==> self.live@.contains_key(t) && self.live@[t]
    }

    /// Creates a registry for a receiver instance.
    #[must_use]
    pub fn new(instance: u64) -> (registry: CloseRegistry)
        ensures
            registry.wf(),
            registry@ == (Closings {
                instance,
                live: Map::empty(),
                requests: Seq::empty(),
            }),
    {
        CloseRegistry { instance, live: BTreeMap::new(), requests: Fifo::new() }
    }

    /// Adds a connection that was admitted.
    pub fn opened(&mut self, token: usize)
        requires
            old(self).wf(),
            !old(self)@.live.contains_key(token),
        ensures
            final(self).wf(),
            final(self)@ == old(self)@.admitting(token),
    {
        let ghost before = self.live@;
        self.live.insert(token, false);
        proof {
            assert forall|t: usize| #[trigger] self.requests@.contains(t) implies
                self.live@.contains_key(t) && self.live@[t] by {
                assert(before.contains_key(t));
            }
        }
    }

    /// Requests the closing of a live connection of this receiver. A connection whose
    /// closing was requested already has no second request.
    pub fn close(&mut self, id: ConnectionId) -> (result: Result<(), ConnectionCloseError>)
        requires
            old(self).wf(),
        ensures
            final(self).wf(),
            final(self)@.asked(old(self)@, id@, result),
    {
        if id.instance() != self.instance {
            return Err(ConnectionCloseError::UnknownOrStale);
        }
        let token: usize = id.sequence();
        let requested: bool = match self.live.get(&token) {
            None => return Err(ConnectionCloseError::UnknownOrStale),
            Some(requested) => *requested,
        };
        if !requested {
            let ghost waiting = self.requests@;
            proof {
                self.requests.lemma_tokens_are_distinct();
                assert(!waiting.contains(token));
            }
            self.live.insert(token, true);
            self.requests.push(token);
            proof {
                crate::scheduler::lemma_push(waiting, token);
                assert forall|t: usize| #[trigger] self.requests@.contains(t) implies
                    self.live@.contains_key(t) && self.live@[t] by {
                    if t != token {
                        assert(waiting.contains(t));
                    }
                }
            }
        }
        Ok(())
    }

    /// Takes up the oldest request.
    pub fn next_request(&mut self) -> (token: Option<usize>)
        requires
            old(self).wf(),
        ensures
            final(self).wf(),
            final(self)@.taken_up(old(self)@, token),
    {
        let ghost waiting = self.requests@;
        let token = self.requests.pop();
        proof {
            if waiting.len() > 0 {
                assert(waiting.contains(waiting[0]));
                assert forall|t: usize| #[trigger] self.requests@.contains(t) implies
                    self.live@.contains_key(t) && self.live@[t] by {
                    let i = self.requests@.index_of(t);
                    assert(waiting[i + 1] == t);
                    assert(waiting.contains(t));
                }
            }
        }
        token
    }

    /// Removes a connection that ended, and its request if it has one.
    pub fn ended(&mut self, token: usize)
        requires
            old(self).wf(),
        ensures
            final(self).wf(),
            final(self)@.over(old(self)@, token),
    {
        let ghost before = self.live@;
        let ghost waiting = self.requests@;
        proof {
            self.requests.lemma_tokens_are_distinct();
            crate::scheduler::lemma_without(waiting, token);
        }
        let _ = self.live.remove(&token);
        let _ = self.requests.remove(token);
        proof {
            assert(self.live@ =~= before.remove(token));
            assert forall|t: usize| #[trigger] self.requests@.contains(t) implies
                self.live@.contains_key(t) && self.live@[t] by {
                assert(waiting.contains(t));
            }
        }
    }
}

/// A request reaches the connection that it names and no other: it is granted exactly for
/// a live connection of this receiver, the connection is then asked for once, behind the
/// requests before it, and nothing of another connection changes.
pub proof fn law_requests_reach_the_connection_that_they_name(
    old: Closings,
    closings: Closings,
    id: (u64, usize),
    result: Result<(), ConnectionCloseError>,
    other: usize,
)
    requires
        closings.asked(old, id, result),
        forall|t: usize| #[trigger] old.requests.contains(t) ==> old.live.contains_key(t) && old.live[t],
    ensures
        result is Ok <==> id.0 == old.instance && old.live.contains_key(id.1),
        result is Err ==> closings == old,
        result is Ok ==> closings.live.contains_key(id.1) && closings.live[id.1],
        old.requests.is_prefix_of(closings.requests),
        closings.requests.len() <= old.requests.len() + 1,
        closings.requests.len() > old.requests.len() ==> closings.requests.last() == id.1,
        result is Ok && !old.live[id.1] ==> closings.requests.len() == old.requests.len() + 1,
        other != id.1 ==> closings.live.contains_key(other) == old.live.contains_key(other),
        other != id.1 && old.live.contains_key(other) ==> closings.live[other] == old.live[other],
{
}

/// Asking twice is asking once.
pub proof fn law_asking_twice_is_asking_once(
    start: Closings,
    once: Closings,
    twice: Closings,
    id: (u64, usize),
)
    requires
        once.asked(start, id, Ok(())),
        twice.asked(once, id, Ok(())),
    ensures
        twice == once,
{
}

/// A connection that is over cannot be asked for any more.
pub proof fn law_closed_connections_are_stale(
    start: Closings,
    over: Closings,
    after: Closings,
    id: (u64, usize),
    result: Result<(), ConnectionCloseError>,
)
    requires
        over.over(start, id.1),
        after.asked(over, id, result),
    ensures
        result == Err::<(), _>(ConnectionCloseError::UnknownOrStale),
        after == over,
{
}

/// Requests are taken up oldest first, each once.
pub proof fn law_requests_are_taken_up_in_order(
    start: Closings,
    then: Closings,
    last: Closings,
    first: usize,
    second: usize,
)
    requires
        start.requests == seq![first, second],
        then.taken_up(start, Some(first)),
    ensures
        then.requests == seq![second],
        last.taken_up(then, Some(second)) ==> last.requests.len() == 0,
        !last.taken_up(start, Some(second)) || first == second,
        !last.taken_up(start, None),
{
    assert(start.requests.drop_first() =~= seq![second]);
}

/// A connection that was admitted has no request yet, and can be asked for: the request
/// then stands behind those that were there.
pub proof fn law_admitted_connections_can_be_closed(
    start: Closings,
    after: Closings,
    token: usize,
    other: usize,
    result: Result<(), ConnectionCloseError>,
)
    requires
        after.asked(start.admitting(token), (start.instance, token), result),
    ensures
        start.admitting(token).requests == start.requests,
        result is Ok,
        after.requests == start.requests.push(token),
        other != token ==> start.admitting(token).live.contains_key(other)
            == start.live.contains_key(other),
        other != token && start.live.contains_key(other) ==> start.admitting(token).live[other]
            == start.live[other],
{
}

} // verus!
