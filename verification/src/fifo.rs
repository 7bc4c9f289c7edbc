//! A linked first-in first-out order of tokens with removal from any place.
use std::collections::BTreeMap;
use vstd::prelude::*;

verus! {

broadcast use {
    vstd::std_specs::btree::group_btree_axioms,
    vstd::laws_cmp::group_laws_cmp,
};

/// The neighbours of one token in an order.
#[derive(Clone, Copy, Debug, PartialEq, Eq, Structural)]
pub struct Links {
    /// The token in front, unless this one is first.
    pub previous: Option<usize>,
    /// The token behind, unless this one is last.
    pub next: Option<usize>,
}

/// An order of distinct tokens.
///
/// Joining, leaving and taking the first token each touch a fixed number of link
/// entries, however many tokens the order holds.
pub struct Fifo {
    first: Option<usize>,
    last: Option<usize>,
    links: BTreeMap<usize, Links>,
    accesses: u64,
    order: Ghost<Seq<usize>>,
}

/// The links that the token at `index` of an order has.
spec fn links_at(order: Seq<usize>, index: int) -> Links {
    Links {
        previous: if index == 0 {
            None
        } else {
            Some(order[index - 1])
        },
        next: if index == order.len() - 1 {
            None
        } else {
            Some(order[index + 1])
        },
    }
}

impl View for Fifo {
    type V = Seq<usize>;

    closed spec fn view(&self) -> Seq<usize> {
        self.order@
    }
}

impl Fifo {
    /// The links spell out the order, and no token stands in it twice.
    pub closed spec fn wf(self) -> bool {
        let order = self.order@;
        &&& order.no_duplicates()
        &&& self.links@.dom().finite()
        &&& forall|token: usize| #[trigger] self.links@.contains_key(token) <==> order.contains(token)
        &&& forall|i: int|
            0 <= i < order.len() ==> self.links@[#[trigger] order[i]] == links_at(order, i)
        &&& self.first == if order.len() == 0 {
            None
        } else {
            Some(order[0])
        }
        &&& self.last == if order.len() == 0 {
            None
        } else {
            Some(order[order.len() - 1])
        }
    }

    /// No token stands in the order twice.
    pub proof fn lemma_tokens_are_distinct(&self)
        requires
            self.wf(),
        ensures
            self@.no_duplicates(),
    {
    }

    /// Link entries read or written so far.
    pub closed spec fn work(self) -> u64 {
        self.accesses
    }

    /// Creates an empty order.
    pub fn new() -> (fifo: Fifo)
        ensures
            fifo.wf(),
            fifo@ == Seq::<usize>::empty(),
            fifo.work() == 0,
    {
        Fifo {
            first: None,
            last: None,
            links: BTreeMap::new(),
            accesses: 0,
            order: Ghost(Seq::empty()),
        }
    }

    /// Returns the token that has been in the order longest.
    pub fn first(&self) -> (first: Option<usize>)
        requires
            self.wf(),
        ensures
            first == if self@.len() == 0 {
                None
            } else {
                Some(self@[0])
            },
    {
        self.first
    }

    /// Returns the token that joined last.
    pub fn last(&self) -> (last: Option<usize>)
        requires
            self.wf(),
        ensures
            last == if self@.len() == 0 {
                None
            } else {
                Some(self@[self@.len() - 1])
            },
    {
        self.last
    }

    /// Returns how many tokens the order holds.
    pub fn len(&self) -> (len: usize)
        requires
            self.wf(),
        ensures
            len == self@.len(),
    {
        proof {
            self.order@.unique_seq_to_set();
            assert(self.links@.dom() =~= self.order@.to_set());
        }
        self.links.len()
    }

    /// Returns whether the order holds no token.
    pub fn is_empty(&self) -> (empty: bool)
        requires
            self.wf(),
        ensures
            empty == (self@.len() == 0),
    {
        self.first.is_none()
    }

    /// Returns the number of link entries read or written so far.
    pub fn accesses(&self) -> (accesses: u64)
        ensures
            accesses == self.work(),
    {
        self.accesses
    }

    /// Returns whether the order holds a token.
    pub fn contains(&self, token: usize) -> (found: bool)
        requires
            self.wf(),
        ensures
            found == self@.contains(token),
    {
        self.links.contains_key(&token)
    }

    /// Returns the neighbours of a token.
    pub fn links(&self, token: usize) -> (links: Option<Links>)
        requires
            self.wf(),
        ensures
            match links {
                None => !self@.contains(token),
                Some(links) => {
                    &&& self@.contains(token)
                    &&& links.previous == if self@.index_of(token) == 0 {
                        None
                    } else {
                        Some(self@[self@.index_of(token) - 1])
                    }
                    &&& links.next == if self@.index_of(token) == self@.len() - 1 {
                        None
                    } else {
                        Some(self@[self@.index_of(token) + 1])
                    }
                },
            },
    {
        match self.links.get(&token) {
            None => None,
            Some(links) => {
                assert(self.order@[self.order@.index_of(token)] == token);
                Some(*links)
            },
        }
    }

    /// Puts a token that is not in the order behind all others.
    pub fn push(&mut self, token: usize)
        requires
            old(self).wf(),
            !old(self)@.contains(token),
        ensures
            final(self).wf(),
            final(self)@ == old(self)@.push(token),
            final(self).work() <= old(self).work() + 3,
    {
        let ghost order = self.order@;
        let ghost links = self.links@;
        let entry = Links { previous: self.last, next: None };
        match self.last {
            None => {
                self.first = Some(token);
            },
            Some(last) => {
                assert(order[order.len() - 1] == last);
                if let Some(held) = self.links.get(&last) {
                    let changed = Links { previous: held.previous, next: Some(token) };
                    self.links.insert(last, changed);
                    self.accesses = self.accesses.saturating_add(2);
                }
            },
        }
        self.links.insert(token, entry);
        self.accesses = self.accesses.saturating_add(1);
        self.last = Some(token);
        proof {
            self.order@ = order.push(token);
            let after = self.order@;
            assert forall|t: usize| #[trigger]
                self.links@.contains_key(t) <==> after.contains(t) by {
                if order.contains(t) {
                    let i = order.index_of(t);
                    assert(after[i] == t);
                }
                assert(after[order.len() as int] == token);
                if after.contains(t) && t != token {
                    let i = after.index_of(t);
                    assert(order[i] == t);
                }
                if links.contains_key(t) {
                    assert(order.contains(t));
                }
            }
            assert forall|i: int| 0 <= i < after.len() implies self.links@[#[trigger] after[i]]
                == links_at(after, i) by {
                if i < order.len() {
                    assert(after[i] == order[i]);
                    assert(order.contains(order[i]));
                }
            }
        }
    }

    /// Takes a token out of the order, wherever it stands.
    pub fn remove(&mut self, token: usize) -> (removed: bool)
        requires
            old(self).wf(),
        ensures
            final(self).wf(),
            removed == old(self)@.contains(token),
            final(self)@ == if removed {
                old(self)@.remove(old(self)@.index_of(token))
            } else {
                old(self)@
            },
            final(self).work() <= old(self).work() + 5,
    {
        let ghost order = self.order@;
        let ghost links = self.links@;
        let held = match self.links.remove(&token) {
            None => {
                self.accesses = self.accesses.saturating_add(1);
                return false;
            },
            Some(held) => held,
        };
        self.accesses = self.accesses.saturating_add(1);
        let ghost at = order.index_of(token);
        assert(order.contains(token));
        assert(order[at] == token);
        assert(held == links_at(order, at));
        match held.previous {
            None => {
                self.first = held.next;
            },
            Some(previous) => {
                assert(order[at - 1] == previous);
                if let Some(entry) = self.links.get(&previous) {
                    let changed = Links { previous: entry.previous, next: held.next };
                    self.links.insert(previous, changed);
                    self.accesses = self.accesses.saturating_add(2);
                }
            },
        }
        match held.next {
            None => {
                self.last = held.previous;
            },
            Some(next) => {
                assert(order[at + 1] == next);
                if let Some(entry) = self.links.get(&next) {
                    let changed = Links { previous: held.previous, next: entry.next };
                    self.links.insert(next, changed);
                    self.accesses = self.accesses.saturating_add(2);
                }
            },
        }
        proof {
            self.order@ = order.remove(at);
            let after = self.order@;
            assert forall|i: int| 0 <= i < after.len() implies #[trigger] after[i] == order[if i
                < at {
                i
            } else {
                i + 1
            }] by {}
            assert(after.no_duplicates());
            assert forall|t: usize| #[trigger]
                self.links@.contains_key(t) <==> after.contains(t) by {
                if order.contains(t) && t != token {
                    let i = order.index_of(t);
                    assert(order[i] == t);
                    if i < at {
                        assert(after[i] == t);
                    } else {
                        assert(after[i - 1] == t);
                    }
                }
                if after.contains(t) {
                    let i = after.index_of(t);
                    assert(after[i] == t);
                    assert(order.contains(t));
                }
                if links.contains_key(t) {
                    assert(order.contains(t));
                }
            }
            assert forall|i: int| 0 <= i < after.len() implies self.links@[#[trigger] after[i]]
                == links_at(after, i) by {
                let j = if i < at {
                    i
                } else {
                    i + 1
                };
                assert(after[i] == order[j]);
                assert(links[order[j]] == links_at(order, j));
                if 0 < i {
                    assert(after[i - 1] == order[if i - 1 < at {
                        i - 1
                    } else {
                        i
                    }]);
                }
                if i + 1 < after.len() {
                    assert(after[i + 1] == order[if i + 1 < at {
                        i + 1
                    } else {
                        i + 2
                    }]);
                }
            }
        }
        true
    }

    /// Takes the first token out of the order.
    pub fn pop(&mut self) -> (popped: Option<usize>)
        requires
            old(self).wf(),
        ensures
            final(self).wf(),
            match popped {
                None => old(self)@.len() == 0 && final(self)@ == old(self)@,
                Some(token) => {
                    &&& old(self)@.len() > 0
                    &&& token == old(self)@[0]
                    &&& final(self)@ == old(self)@.drop_first()
                },
            },
            final(self).work() <= old(self).work() + 5,
    {
        match self.first {
            None => None,
            Some(token) => {
                let ghost order = self.order@;
                assert(order.index_of(token) == 0) by {
                    assert(order[0] == token);
                    assert(order[order.index_of(token)] == token);
                }
                let _ = self.remove(token);
                assert(order.remove(0) =~= order.drop_first());
                Some(token)
            },
        }
    }
}

} // verus!
