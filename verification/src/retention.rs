//! How many retained bytes belong to single connections.
use std::collections::BTreeMap;
use vstd::prelude::*;

use crate::record::ConnectionId;

verus! {

broadcast use {
    vstd::std_specs::btree::group_btree_axioms,
    vstd::laws_cmp::group_laws_cmp,
};

/// The retained bytes of each connection that has any.
pub struct Retention {
    held: BTreeMap<(u64, usize), usize>,
}

impl View for Retention {
    type V = Map<(u64, usize), usize>;

    closed spec fn view(&self) -> Map<(u64, usize), usize> {
        self.held@
    }
}

/// The retained bytes of a connection.
pub open spec fn held_by(held: Map<(u64, usize), usize>, id: (u64, usize)) -> usize {
    if held.contains_key(id) {
        held[id]
    } else {
        0
    }
}

/// The account in which a connection has that many bytes.
pub open spec fn holding(
    held: Map<(u64, usize), usize>,
    id: (u64, usize),
    bytes: usize,
) -> Map<(u64, usize), usize> {
    if bytes == 0 {
        held.remove(id)
    } else {
        held.insert(id, bytes)
    }
}

impl Retention {
    /// Only connections with retained bytes are listed.
    pub closed spec fn wf(self) -> bool {
        forall|id: (u64, usize)| #[trigger] self.held@.contains_key(id) ==> self.held@[id] > 0
    }

    /// Creates an account of no connection.
    #[must_use]
    pub fn new() -> (retention: Retention)
        ensures
            retention.wf(),
            retention@ == Map::<(u64, usize), usize>::empty(),
    {
        Retention { held: BTreeMap::new() }
    }

    /// Returns the retained bytes of a connection.
    #[must_use]
    pub fn of(&self, id: ConnectionId) -> (bytes: usize)
        ensures
            bytes == held_by(self@, id@),
    {
        let key: (u64, usize) = (id.instance(), id.sequence());
        assert(key == id@);
        match self.held.get(&key) {
            Some(bytes) => *bytes,
            None => 0,
        }
    }

    /// Makes that many bytes those of a connection.
    fn set(&mut self, id: ConnectionId, bytes: usize)
        requires
            old(self).wf(),
        ensures
            final(self).wf(),
            final(self)@ == holding(old(self)@, id@, bytes),
    {
        let key: (u64, usize) = (id.instance(), id.sequence());
        assert(key == id@);
        if bytes == 0 {
            self.held.remove(&key);
        } else {
            self.held.insert(key, bytes);
        }
    }

    /// Adds bytes that a connection retains from now on; returns whether the account
    /// could hold them.
    #[must_use]
    pub fn add(&mut self, id: ConnectionId, bytes: usize) -> (added: bool)
        requires
            old(self).wf(),
        ensures
            final(self).wf(),
            added == (held_by(old(self)@, id@) + bytes <= usize::MAX),
            final(self)@ == if added {
                holding(old(self)@, id@, (held_by(old(self)@, id@) + bytes) as usize)
            } else {
                old(self)@
            },
    {
        match self.of(id).checked_add(bytes) {
            Some(sum) => {
                self.set(id, sum);
                true
            },
            None => false,
        }
    }

    /// Takes off bytes that a connection does not retain any more; returns whether
    /// they were there.
    #[must_use]
    pub fn take_off(&mut self, id: ConnectionId, bytes: usize) -> (taken: bool)
        requires
            old(self).wf(),
        ensures
            final(self).wf(),
            taken == (bytes <= held_by(old(self)@, id@)),
            final(self)@ == if taken {
                holding(old(self)@, id@, (held_by(old(self)@, id@) - bytes) as usize)
            } else {
                old(self)@
            },
    {
        let held: usize = self.of(id);
        if bytes > held {
            return false;
        }
        self.set(id, held - bytes);
        true
    }
}

/// What is added for a connection and taken off again leaves the account as it was,
/// for that connection and for all others.
pub proof fn law_retention_balances(retention: Retention, id: (u64, usize), bytes: usize)
    requires
        retention.wf(),
        held_by(retention@, id) + bytes <= usize::MAX,
    ensures
        ({
            let more = (held_by(retention@, id) + bytes) as usize;
            let after = holding(retention@, id, more);
            &&& held_by(after, id) == more
            &&& holding(after, id, (more - bytes) as usize) == retention@
            &&& forall|other: (u64, usize)|
                other != id ==> #[trigger] held_by(after, other) == held_by(retention@, other)
        }),
{
    let more = (held_by(retention@, id) + bytes) as usize;
    let after = holding(retention@, id, more);
    assert(holding(after, id, (more - bytes) as usize) =~= retention@);
}

} // verus!
