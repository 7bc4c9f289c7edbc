//! The bounded queue between a worker and the consumer of its records.
use std::collections::VecDeque;
use vstd::prelude::*;

use crate::record::Record;

verus! {

/// Why a record was not taken; it comes back to its owner.
pub enum SendFailure {
    /// The queue is full.
    Full(Record),
    /// The consumer is gone.
    Disconnected(Record),
}

/// Why no record was given.
#[derive(Clone, Copy, Debug, PartialEq, Eq, Structural)]
pub enum RecvFailure {
    /// No record is queued.
    Empty,
    /// No record is queued, and none will be.
    Disconnected,
}

/// A bounded queue of records.
///
/// Records leave in the order in which they came. Each that leaves frees one slot,
/// which its taker has to tell the worker.
pub struct HandoffQueue {
    slots: usize,
    records: VecDeque<Record>,
    consumer_gone: bool,
    worker_gone: bool,
}

impl HandoffQueue {
    /// The queued records, oldest first.
    pub closed spec fn queued(self) -> Seq<Record> {
        self.records@
    }

    /// The most records that can be queued.
    pub closed spec fn capacity(self) -> usize {
        self.slots
    }

    /// Whether the consumer is gone.
    pub closed spec fn without_consumer(self) -> bool {
        self.consumer_gone
    }

    /// Whether the worker is gone.
    pub closed spec fn without_worker(self) -> bool {
        self.worker_gone
    }

    /// The queue keeps its bound, and holds nothing once the consumer is gone.
    pub closed spec fn wf(self) -> bool {
        &&& self.records@.len() <= self.slots
        &&& self.consumer_gone ==> self.records@.len() == 0
    }

    /// Creates an empty queue with that many slots.
    #[must_use]
    pub fn new(slots: usize) -> (queue: HandoffQueue)
        requires
            slots > 0,
        ensures
            queue.wf(),
            queue.queued() == Seq::<Record>::empty(),
            queue.capacity() == slots,
            !queue.without_consumer(),
            !queue.without_worker(),
    {
        HandoffQueue {
            slots,
            records: VecDeque::new(),
            consumer_gone: false,
            worker_gone: false,
        }
    }

    /// The bound and who is gone are those of `other`.
    pub open spec fn same_ends(self, other: HandoffQueue) -> bool {
        &&& self.capacity() == other.capacity()
        &&& self.without_consumer() == other.without_consumer()
        &&& self.without_worker() == other.without_worker()
    }

    /// What sending a record came to.
    pub open spec fn sent(
        self,
        old: HandoffQueue,
        record: Record,
        result: Result<(), SendFailure>,
    ) -> bool {
        &&& self.same_ends(old)
        &&& if old.without_consumer() {
            &&& result == Err::<(), _>(SendFailure::Disconnected(record))
            &&& self.queued() == old.queued()
        } else if old.queued().len() == old.capacity() {
            &&& result == Err::<(), _>(SendFailure::Full(record))
            &&& self.queued() == old.queued()
        } else {
            &&& result is Ok
            &&& self.queued() == old.queued().push(record)
        }
    }

    /// What receiving a record came to.
    pub open spec fn received(self, old: HandoffQueue, result: Result<Record, RecvFailure>) -> bool {
        &&& self.same_ends(old)
        &&& if old.queued().len() > 0 {
            &&& result == Ok::<_, RecvFailure>(old.queued()[0])
            &&& self.queued() == old.queued().drop_first()
        } else {
            &&& self.queued() == old.queued()
            &&& result == Err::<Record, _>(
                if old.without_worker() {
                    RecvFailure::Disconnected
                } else {
                    RecvFailure::Empty
                },
            )
        }
    }

    /// Queues a record, if there is a slot and a consumer.
    pub fn try_send(&mut self, record: Record) -> (result: Result<(), SendFailure>)
        requires
            old(self).wf(),
        ensures
            final(self).wf(),
            final(self).sent(*old(self), record, result),
    {
        if self.consumer_gone {
            return Err(SendFailure::Disconnected(record));
        }
        if self.records.len() >= self.slots {
            return Err(SendFailure::Full(record));
        }
        self.records.push_back(record);
        Ok(())
    }

    /// Gives the oldest record.
    pub fn try_recv(&mut self) -> (result: Result<Record, RecvFailure>)
        requires
            old(self).wf(),
        ensures
            final(self).wf(),
            final(self).received(*old(self), result),
    {
        let ghost before = self.records@;
        match self.records.pop_front() {
            Some(record) => {
                assert(self.records@ =~= before.drop_first());
                Ok(record)
            },
            None => {
                if self.worker_gone {
                    Err(RecvFailure::Disconnected)
                } else {
                    Err(RecvFailure::Empty)
                }
            },
        }
    }

    /// Notes that the consumer is gone, and gives back the records that it left.
    pub fn drop_consumer(&mut self) -> (left: VecDeque<Record>)
        requires
            old(self).wf(),
        ensures
            final(self).wf(),
            final(self).capacity() == old(self).capacity(),
            final(self).without_consumer(),
            final(self).without_worker() == old(self).without_worker(),
            final(self).queued() == Seq::<Record>::empty(),
            left@ == old(self).queued(),
    {
        self.consumer_gone = true;
        let mut left: VecDeque<Record> = VecDeque::new();
        core::mem::swap(&mut self.records, &mut left);
        left
    }

    /// Notes that the worker is gone. Queued records stay for the consumer.
    pub fn drop_worker(&mut self)
        requires
            old(self).wf(),
        ensures
            final(self).wf(),
            final(self).capacity() == old(self).capacity(),
            final(self).without_consumer() == old(self).without_consumer(),
            final(self).without_worker(),
            final(self).queued() == old(self).queued(),
    {
        self.worker_gone = true;
    }
}

/// Records come out as they went in: of two that were sent to an empty queue one after
/// the other, the first comes out first and the second next, and then nothing.
pub proof fn law_records_come_out_in_order(
    empty: HandoffQueue,
    one: HandoffQueue,
    two: HandoffQueue,
    after: HandoffQueue,
    last: HandoffQueue,
    first: Record,
    second: Record,
    out: Result<Record, RecvFailure>,
    next: Result<Record, RecvFailure>,
)
    requires
        empty.queued().len() == 0,
        one.sent(empty, first, Ok(())),
        two.sent(one, second, Ok(())),
        after.received(two, out),
        last.received(after, next),
    ensures
        out == Ok::<_, RecvFailure>(first),
        next == Ok::<_, RecvFailure>(second),
        last.queued().len() == 0,
{
}

/// A record that is queued stays behind those before it, and the queue without its
/// oldest record is what it was without it: sending at one end and receiving at the other
/// can be exchanged.
pub proof fn law_sending_and_receiving_can_be_exchanged(
    start: HandoffQueue,
    more: HandoffQueue,
    then: HandoffQueue,
    record: Record,
    out: Record,
)
    requires
        start.queued().len() > 0,
        more.sent(start, record, Ok(())),
        then.received(more, Ok(out)),
    ensures
        out == start.queued()[0],
        then.queued() == start.queued().drop_first().push(record),
        then.queued().len() == start.queued().len(),
{
    assert(start.queued().push(record).drop_first() =~= start.queued().drop_first().push(record));
}

/// A record is refused exactly if the consumer is gone or every slot is taken, and comes
/// back whole.
pub proof fn law_refused_records_come_back(
    old: HandoffQueue,
    queue: HandoffQueue,
    record: Record,
    failure: SendFailure,
)
    requires
        old.wf(),
        queue.sent(old, record, Err(failure)),
    ensures
        queue.queued() == old.queued(),
        failure matches SendFailure::Full(back) ==> back == record && old.queued().len()
            == old.capacity(),
        failure matches SendFailure::Disconnected(back) ==> back == record
            && old.without_consumer(),
{
}

/// What was queued can be received after the worker is gone, and only then is the end
/// told.
pub proof fn law_queued_records_outlive_the_worker(
    old: HandoffQueue,
    queue: HandoffQueue,
    result: Result<Record, RecvFailure>,
)
    requires
        queue.received(old, result),
    ensures
        result is Ok <==> old.queued().len() > 0,
        result == Err::<Record, _>(RecvFailure::Disconnected) <==> old.queued().len() == 0
            && old.without_worker(),
{
}

} // verus!
