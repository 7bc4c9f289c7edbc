//! Accounting for output bytes retained by receiver records.
use vstd::prelude::*;

verus! {

/// A refusal to retain more output bytes.
#[derive(Clone, Copy, Debug, PartialEq, Eq, Structural)]
pub enum BudgetError {
    /// One request exceeds the entire configured capacity.
    TooLarge {
        /// Bytes requested.
        required: usize,
        /// Maximum retained bytes.
        capacity: usize,
    },
    /// Existing retained bytes leave insufficient capacity for this request.
    Full {
        /// Bytes requested.
        required: usize,
        /// Bytes currently available.
        available: usize,
    },
}

/// Retained-output capacity and what is charged to it.
///
/// The owner of the account hands copies out with [`ByteBudget::try_copy`] and
/// refunds each with [`ByteBudget::release`] once its holder is done.
pub struct ByteBudget {
    capacity: usize,
    used: usize,
    subscriber: Option<usize>,
    charges: Ghost<Seq<(nat, usize)>>,
    next: Ghost<nat>,
}

/// Owned bytes charged to a [`ByteBudget`] until they are released to it.
pub struct OwnedBytes {
    bytes: Vec<u8>,
    charge: usize,
    ticket: Ghost<nat>,
}

/// A worker's exclusive byte-credit notification registration.
#[derive(Debug, PartialEq, Eq, Structural)]
pub struct BudgetSubscription {
    subscriber: usize,
}

/// A second worker attempted to subscribe to the same budget.
#[derive(Clone, Copy, Debug, PartialEq, Eq, Structural)]
pub struct BudgetInUse;

/// The sum of some charges.
pub open spec fn total(charges: Seq<(nat, usize)>) -> nat
    decreases charges.len(),
{
    if charges.len() == 0 {
        0
    } else {
        total(charges.drop_last()) + charges.last().1 as nat
    }
}

proof fn lemma_total_without(charges: Seq<(nat, usize)>, index: int)
    requires
        0 <= index < charges.len(),
    ensures
        total(charges.remove(index)) == total(charges) - charges[index].1,
        total(charges) >= charges[index].1,
    decreases charges.len(),
{
    let rest = charges.remove(index);
    if index == charges.len() - 1 {
        assert(rest =~= charges.drop_last());
    } else {
        lemma_total_without(charges.drop_last(), index);
        assert(rest.drop_last() =~= charges.drop_last().remove(index));
        assert(rest.last() == charges.last());
    }
}

impl View for OwnedBytes {
    type V = Seq<u8>;

    closed spec fn view(&self) -> Seq<u8> {
        self.bytes@
    }
}

impl OwnedBytes {
    #[verifier::type_invariant]
    spec fn wf(self) -> bool {
        self.charge == self.bytes@.len()
    }

    /// The charge entry that stands for these bytes.
    pub closed spec fn entry(self) -> (nat, usize) {
        (self.ticket@, self.charge)
    }

    /// Returns the accessible backing capacity charged to the account.
    #[must_use]
    pub fn charged_capacity(&self) -> (charge: usize)
        ensures
            charge == self@.len(),
            charge == self.entry().1,
    {
        proof {
            use_type_invariant(self);
        }
        self.charge
    }

    /// Returns the retained byte slice.
    #[must_use]
    pub fn as_slice(&self) -> (bytes: &[u8])
        ensures
            bytes@ == self@,
    {
        self.bytes.as_slice()
    }
}

impl ByteBudget {
    /// The account's charges add up to what is used, and each has its own ticket.
    pub closed spec fn wf(self) -> bool {
        let charges = self.charges@;
        &&& self.used <= self.capacity
        &&& self.used == total(charges)
        &&& forall|i: int| 0 <= i < charges.len() ==> (#[trigger] charges[i]).0 < self.next@
        &&& forall|i: int, j: int|
            0 <= i < j < charges.len() ==> (#[trigger] charges[i]).0 != (#[trigger] charges[j]).0
    }

    /// The charges of everything that is retained.
    pub closed spec fn retained(self) -> Seq<(nat, usize)> {
        self.charges@
    }

    /// The greatest sum of charges.
    pub closed spec fn limit(self) -> usize {
        self.capacity
    }

    /// Who is told of returned capacity.
    pub closed spec fn subscription(self) -> Option<usize> {
        self.subscriber
    }

    /// Whether these bytes are charged here.
    pub open spec fn holds(self, bytes: OwnedBytes) -> bool {
        self.retained().contains(bytes.entry())
    }

    /// Creates a retained-output byte account with a positive capacity.
    #[must_use]
    pub fn new(capacity: usize) -> (budget: ByteBudget)
        requires
            capacity > 0,
        ensures
            budget.wf(),
            budget.limit() == capacity,
            budget.retained() == Seq::<(nat, usize)>::empty(),
            budget.subscription() is None,
    {
        ByteBudget {
            capacity,
            used: 0,
            subscriber: None,
            charges: Ghost(Seq::empty()),
            next: Ghost(0),
        }
    }

    /// Returns the maximum retained output bytes.
    #[must_use]
    pub fn capacity(&self) -> (capacity: usize)
        ensures
            capacity == self.limit(),
    {
        self.capacity
    }

    /// Returns the bytes that are retained: the sum of all charges.
    #[must_use]
    pub fn used(&self) -> (used: usize)
        requires
            self.wf(),
        ensures
            used == total(self.retained()),
            used <= self.limit(),
    {
        self.used
    }

    /// Copies bytes into separately owned storage after charging their length.
    pub fn try_copy(&mut self, bytes: &[u8]) -> (result: Result<OwnedBytes, BudgetError>)
        requires
            old(self).wf(),
        ensures
            final(self).wf(),
            final(self).limit() == old(self).limit(),
            final(self).subscription() == old(self).subscription(),
            match result {
                Ok(owned) => {
                    &&& total(old(self).retained()) + bytes@.len() <= old(self).limit()
                    &&& owned@ == bytes@
                    &&& owned.entry().1 == bytes@.len()
                    &&& !old(self).holds(owned)
                    &&& final(self).retained() == old(self).retained().push(owned.entry())
                },
                Err(error) => {
                    &&& final(self).retained() == old(self).retained()
                    &&& error == copy_refusal(*old(self), bytes@.len() as usize)->0
                    &&& copy_refusal(*old(self), bytes@.len() as usize) is Some
                },
            },
    {
        let required: usize = bytes.len();
        if required > self.capacity {
            return Err(BudgetError::TooLarge { required, capacity: self.capacity });
        }
        let available: usize = self.capacity - self.used;
        if required > available {
            return Err(BudgetError::Full { required, available });
        }
        self.used = self.used + required;
        let ghost ticket = self.next@;
        let ghost charges = self.charges@;
        let owned = OwnedBytes {
            bytes: vstd::slice::slice_to_vec(bytes),
            charge: required,
            ticket: Ghost(ticket),
        };
        proof {
            assert(!charges.contains((ticket, required)));
            self.charges@ = charges.push((ticket, required));
            self.next@ = ticket + 1;
            assert(self.charges@.drop_last() =~= charges);
        }
        Ok(owned)
    }

    /// Refunds bytes that are charged here; returns who has to be told that
    /// capacity came back.
    pub fn release(&mut self, bytes: OwnedBytes) -> (told: Option<usize>)
        requires
            old(self).wf(),
            old(self).holds(bytes),
        ensures
            final(self).wf(),
            final(self).limit() == old(self).limit(),
            final(self).subscription() == old(self).subscription(),
            final(self).retained() == old(self).retained().remove(
                old(self).retained().index_of(bytes.entry()),
            ),
            !final(self).holds(bytes),
            total(final(self).retained()) == total(old(self).retained()) - bytes@.len(),
            told == told_of_release(old(self).subscription(), bytes@.len()),
    {
        proof {
            use_type_invariant(&bytes);
        }
        let released: usize = bytes.charge;
        let ghost charges = self.charges@;
        let ghost index = charges.index_of(bytes.entry());
        proof {
            assert(charges[index] == bytes.entry());
            lemma_total_without(charges, index);
            let rest = charges.remove(index);
            assert forall|i: int| 0 <= i < rest.len() implies #[trigger] rest[i] == charges[if i
                < index {
                i
            } else {
                i + 1
            }] by {}
            self.charges@ = rest;
            if rest.contains(bytes.entry()) {
                let i = rest.index_of(bytes.entry());
                assert(rest[i].0 == charges[index].0);
            }
        }
        self.used = self.used - released;
        if released == 0 {
            None
        } else {
            self.subscriber
        }
    }

    /// Registers the one who is told of returned capacity, unless there is one.
    pub fn subscribe(&mut self, subscriber: usize) -> (result: Result<
        BudgetSubscription,
        BudgetInUse,
    >)
        ensures
            final(self).wf() == old(self).wf(),
            final(self).limit() == old(self).limit(),
            final(self).retained() == old(self).retained(),
            match result {
                Ok(subscription) => {
                    &&& old(self).subscription() is None
                    &&& final(self).subscription() == Some(subscriber)
                    &&& subscription.names() == subscriber
                },
                Err(_) => {
                    &&& old(self).subscription() is Some
                    &&& final(self).subscription() == old(self).subscription()
                },
            },
    {
        if self.subscriber.is_some() {
            return Err(BudgetInUse);
        }
        self.subscriber = Some(subscriber);
        Ok(BudgetSubscription { subscriber })
    }

    /// Ends a registration, so that another can take its place.
    pub fn unsubscribe(&mut self, subscription: BudgetSubscription)
        requires
            old(self).subscription() == Some(subscription.names()),
        ensures
            final(self).wf() == old(self).wf(),
            final(self).limit() == old(self).limit(),
            final(self).retained() == old(self).retained(),
            final(self).subscription() is None,
    {
        self.subscriber = None;
    }
}

impl BudgetSubscription {
    /// Who is registered.
    pub closed spec fn names(self) -> usize {
        self.subscriber
    }
}

/// Why a budget would refuse to retain that many more bytes, if it would.
pub open spec fn copy_refusal(budget: ByteBudget, required: usize) -> Option<BudgetError> {
    let used = total(budget.retained());
    if required > budget.limit() {
        Some(BudgetError::TooLarge { required, capacity: budget.limit() })
    } else if used + required > budget.limit() {
        Some(BudgetError::Full { required, available: (budget.limit() - used) as usize })
    } else {
        None
    }
}

/// Charges add up, whatever their order: the total of two groups is the sum of theirs, and
/// of one charge its own.
pub proof fn law_charges_add_up(one: Seq<(nat, usize)>, other: Seq<(nat, usize)>, charge: (nat, usize))
    ensures
        total(one + other) == total(one) + total(other),
        total(one + other) == total(other + one),
        total(seq![charge]) == charge.1,
        total(Seq::<(nat, usize)>::empty()) == 0,
{
    lemma_total_of_sum(one, other);
    lemma_total_of_sum(other, one);
    let single = seq![charge];
    assert(single.drop_last() =~= Seq::<(nat, usize)>::empty());
    assert(single.last() == charge);
    assert(total(single.drop_last()) == 0);
    assert(total(single) == total(single.drop_last()) + single.last().1 as nat);
}

proof fn lemma_total_of_sum(one: Seq<(nat, usize)>, other: Seq<(nat, usize)>)
    ensures
        total(one + other) == total(one) + total(other),
    decreases other.len(),
{
    if other.len() == 0 {
        assert(one + other =~= one);
    } else {
        assert((one + other).drop_last() =~= one + other.drop_last());
        assert((one + other).last() == other.last());
        lemma_total_of_sum(one, other.drop_last());
    }
}

/// A copy is refused exactly if it does not fit beside what is retained. One that could
/// never fit is told apart, and else the room that is left is told.
pub proof fn law_copies_are_refused_only_for_want_of_room(budget: ByteBudget, required: usize)
    requires
        total(budget.retained()) <= budget.limit(),
    ensures
        copy_refusal(budget, required) is None <==> total(budget.retained()) + required
            <= budget.limit(),
        copy_refusal(budget, required) matches Some(BudgetError::TooLarge { required: asked, capacity })
            ==> asked == required && capacity == budget.limit() && required > budget.limit(),
        copy_refusal(budget, required) matches Some(BudgetError::Full { required: asked, available })
            ==> asked == required && required <= budget.limit() && available + total(
            budget.retained(),
        ) == budget.limit() && required > available,
{
}

/// Who is told that capacity came back: the subscriber, unless nothing did.
pub open spec fn told_of_release(subscriber: Option<usize>, released: nat) -> Option<usize> {
    if released == 0 {
        None
    } else {
        subscriber
    }
}

/// Whoever subscribed is told of every release that gives room back, and nobody else.
pub proof fn law_returned_capacity_is_told(subscriber: Option<usize>, released: nat)
    ensures
        released > 0 ==> told_of_release(subscriber, released) == subscriber,
        released == 0 ==> told_of_release(subscriber, released) is None,
{
}

/// A copy that is released leaves the account as it was: copying charges the length and
/// releasing gives it back.
pub proof fn law_released_copies_leave_no_charge(charges: Seq<(nat, usize)>, charge: (nat, usize))
    requires
        !charges.contains(charge),
    ensures
        ({
            let charged = charges.push(charge);
            &&& total(charged) == total(charges) + charge.1
            &&& charged.remove(charged.index_of(charge)) == charges
        }),
{
    let charged = charges.push(charge);
    assert(charged.drop_last() =~= charges);
    assert(charged[charges.len() as int] == charge);
    let at = charged.index_of(charge);
    if at < charges.len() {
        assert(charges[at] == charge);
    }
    assert(charged.remove(at) =~= charges);
}

} // verus!
