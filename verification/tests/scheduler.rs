//! Turns, resource admission and counters of connection tasks.
use phonowire::fifo::Fifo;
use phonowire::handoff::{HandoffQueue, RecvFailure, SendFailure as QueueFailure};
use phonowire::memory::BudgetSubscription;
use phonowire::scheduler::{Scheduler, WaitReason};
use phonowire::signals::{Signal, Signals};
use phonowire::task::{
    add_observation, CopyStep, Handoff, Progress, SendFailure, SendStep, TaskContext,
};
use phonowire::{
    BudgetError, ByteBudget, ConnectionId, OwnedBytes, Record, RecordKind, WireOffset,
};
use std::time::Instant;

struct Harness {
    scheduler: Scheduler,
    signals: Signals,
    budget: ByteBudget,
    queue: HandoffQueue,
    subscription: BudgetSubscription,
}

enum Job {
    Produce(u64),
    Send,
    Copy(Vec<u8>),
}

struct Task {
    context: TaskContext,
    job: Job,
    pending: Option<Record>,
}

enum Polled {
    Pending,
    Copied(OwnedBytes),
    Refused(BudgetError),
    Sent,
    Unsent(SendFailure),
    Produced,
}

impl Polled {
    fn is_pending(&self) -> bool {
        matches!(self, Polled::Pending)
    }
}

impl Harness {
    fn new(connections: usize, slots: usize, mut budget: ByteBudget) -> Self {
        let subscription = budget
            .subscribe(1)
            .expect("one worker owns the test budget subscription");
        Self {
            scheduler: Scheduler::new(connections),
            signals: Signals::new(),
            budget,
            queue: HandoffQueue::new(slots),
            subscription,
        }
    }

    fn task(&mut self, token: usize, job: Job, pending: Option<Record>) -> Task {
        self.scheduler.insert(token);
        Task {
            context: TaskContext::new(
                ConnectionId::new(1, token),
                "127.0.0.1:9".to_string(),
                token,
            ),
            job,
            pending,
        }
    }

    fn producer(&mut self, token: usize) -> Task {
        self.task(token, Job::Produce(0), None)
    }

    fn sender(&mut self, token: usize) -> Task {
        self.task(token, Job::Send, Some(record(ConnectionId::new(1, token), 0)))
    }

    fn copier(&mut self, token: usize, bytes: &[u8]) -> Task {
        self.task(token, Job::Copy(bytes.to_vec()), None)
    }

    fn send(&mut self, task: &mut Task) -> Polled {
        task.context.start_send();
        match task.context.admit_send(&mut self.scheduler) {
            SendStep::Pending => Polled::Pending,
            SendStep::Failed(failure) => Polled::Unsent(failure),
            SendStep::Done => panic!("admission hands nothing off"),
            SendStep::Try => {
                let offered = task.pending.take().expect("send retains its record");
                let wire = match &offered.kind {
                    RecordKind::Wire { bytes } => bytes.as_slice().len() as u64,
                    _ => 0,
                };
                let terminal = matches!(&offered.kind, RecordKind::Ended { .. });
                let handoff = match self.queue.try_send(offered) {
                    Ok(()) => Handoff::Accepted,
                    Err(QueueFailure::Full(returned)) => {
                        task.pending = Some(returned);
                        Handoff::Full
                    }
                    Err(QueueFailure::Disconnected(_)) => Handoff::Disconnected,
                };
                match task
                    .context
                    .settle_send(&mut self.scheduler, handoff, wire, terminal)
                {
                    SendStep::Pending => Polled::Pending,
                    SendStep::Done => Polled::Sent,
                    SendStep::Failed(failure) => Polled::Unsent(failure),
                    SendStep::Try => panic!("a settled handoff is not tried again"),
                }
            }
        }
    }

    fn run(&mut self, task: &mut Task) -> Polled {
        match &task.job {
            Job::Send => self.send(task),
            Job::Copy(bytes) => {
                let bytes = bytes.clone();
                match task
                    .context
                    .copy(&mut self.scheduler, &mut self.budget, &bytes)
                {
                    CopyStep::Pending => Polled::Pending,
                    CopyStep::Ready(Ok(owned)) => Polled::Copied(owned),
                    CopyStep::Ready(Err(error)) => Polled::Refused(error),
                }
            }
            Job::Produce(start) => {
                let mut offset = *start;
                while offset < 256 {
                    if task.pending.is_none() {
                        task.pending = Some(record(task.context.id(), offset));
                    }
                    match self.send(task) {
                        Polled::Sent => {
                            offset += 1;
                            task.job = Job::Produce(offset);
                        }
                        other => return other,
                    }
                }
                Polled::Produced
            }
        }
    }

    fn poll(&mut self, task: &mut Task, quota: usize) -> Polled {
        assert_eq!(self.scheduler.take(), Some(task.context.token()));
        task.context.reset_turn(quota);
        let polled = self.run(task);
        if polled.is_pending() {
            assert!(self.scheduler.verify_pending(task.context.token()));
        }
        assert_membership_bounds(&self.scheduler, self.scheduler.live());
        polled
    }

    fn resume(&mut self) {
        if self.signals.take_queue_credit() {
            self.scheduler.resume_credit(WaitReason::Queue);
        }
        if self.signals.take_byte_credit() {
            self.scheduler.resume_credit(WaitReason::Bytes);
        }
    }

    fn fill(&mut self, offset: u64) {
        assert!(
            self.queue
                .try_send(record(ConnectionId::new(1, 1), offset))
                .is_ok(),
            "initial record fills an available slot"
        );
    }

    fn receive(&mut self) -> Option<Record> {
        match self.queue.try_recv() {
            Ok(record) => {
                self.signals.publish(Signal::Queue);
                Some(record)
            }
            Err(_) => None,
        }
    }

    fn release(&mut self, bytes: OwnedBytes) {
        if self.budget.release(bytes).is_some() {
            self.signals.publish(Signal::Bytes);
        }
    }
}

fn record(connection: ConnectionId, offset: u64) -> Record {
    Record {
        connection,
        offset: WireOffset::new(offset),
        observed_at: Instant::now(),
        kind: RecordKind::Connected {
            peer: "127.0.0.1:9".to_string(),
        },
    }
}

fn wire_record(connection: ConnectionId, bytes: OwnedBytes) -> Record {
    Record {
        connection,
        offset: WireOffset::new(0),
        observed_at: Instant::now(),
        kind: RecordKind::Wire { bytes },
    }
}

fn copied(polled: Polled) -> OwnedBytes {
    match polled {
        Polled::Copied(bytes) => bytes,
        _ => panic!("copy must have acquired actual storage"),
    }
}

fn assert_order(scheduler: &Scheduler, order: &Fifo, live: usize) -> usize {
    let mut previous = None;
    let mut current = order.first();
    let mut visited = 0;
    while let Some(token) = current {
        assert!(scheduler.state(token).is_some());
        let links = order.links(token).expect("FIFO contains only live links");
        assert_eq!(links.previous, previous);
        previous = Some(token);
        current = links.next;
        visited += 1;
        assert!(visited <= live, "membership has no cycle");
    }
    assert_eq!(previous, order.last());
    assert_eq!(visited, order.len(), "no unreachable membership history");
    visited
}

fn assert_membership_bounds(scheduler: &Scheduler, live: usize) {
    assert_eq!(scheduler.live(), live);
    assert!(live <= scheduler.capacity());
    assert!(assert_order(scheduler, scheduler.turns(), live) <= live);
    let slots = assert_order(scheduler, scheduler.requests(WaitReason::Queue), live);
    let bytes = assert_order(scheduler, scheduler.requests(WaitReason::Bytes), live);
    assert!(slots + bytes <= live);
}

#[test]
fn repeated_wakes_preserve_one_fifo_turn_per_connection() {
    let mut scheduler = Scheduler::new(2);
    scheduler.insert(2);
    scheduler.insert(3);
    assert_eq!(scheduler.take(), Some(2));
    scheduler.wake(2);
    scheduler.wake(2);
    scheduler.wake(3);
    assert_eq!(scheduler.take(), Some(3));
    scheduler.wake(3);
    assert_eq!(scheduler.take(), Some(2));
    scheduler.park(2, WaitReason::Kernel);
    assert_eq!(scheduler.take(), Some(3));
    scheduler.park(3, WaitReason::Kernel);
    assert_eq!(scheduler.take(), None);
}

#[test]
fn readable_events_cannot_spin_connections_waiting_for_resources() {
    let mut scheduler = Scheduler::new(3);
    scheduler.insert(2);
    scheduler.insert(3);
    scheduler.insert(4);
    scheduler.park(2, WaitReason::Queue);
    scheduler.park(3, WaitReason::Bytes);
    scheduler.park(4, WaitReason::Kernel);
    for _ in 0..4 {
        scheduler.io_ready(2);
        scheduler.io_ready(3);
        assert_eq!(scheduler.take(), None);
    }
    scheduler.resume_credit(WaitReason::Queue);
    assert_eq!(scheduler.take(), Some(2));
    assert_eq!(scheduler.take(), None);
    scheduler.resume_credit(WaitReason::Bytes);
    assert_eq!(scheduler.take(), Some(3));
    assert_eq!(scheduler.take(), None);
    scheduler.io_ready(4);
    assert_eq!(scheduler.take(), Some(4));
}

#[test]
fn credit_before_or_after_registration_resumes_without_network_event() {
    for reason in [WaitReason::Queue, WaitReason::Bytes] {
        for credit_before_park in [true, false] {
            let mut scheduler = Scheduler::new(1);
            let mut signals = Signals::new();
            scheduler.insert(2);
            assert_eq!(scheduler.take(), Some(2));
            let signal = match reason {
                WaitReason::Queue => Signal::Queue,
                WaitReason::Bytes => Signal::Bytes,
                WaitReason::Kernel => panic!("resource test has no kernel wait"),
            };
            if credit_before_park {
                signals.publish(signal);
            }
            scheduler.park(2, reason);
            assert_eq!(scheduler.take(), None);
            if !credit_before_park {
                signals.publish(signal);
            }
            let returned = match reason {
                WaitReason::Queue => signals.take_queue_credit(),
                WaitReason::Bytes => signals.take_byte_credit(),
                WaitReason::Kernel => panic!("resource test has no kernel wait"),
            };
            assert!(returned);
            scheduler.resume_credit(reason);
            assert_eq!(scheduler.take(), Some(2));
            assert_eq!(scheduler.take(), None);
        }
    }
}

#[test]
fn retired_wakers_cannot_target_replacement_connections() {
    let mut scheduler = Scheduler::new(1);
    scheduler.insert(2);
    scheduler.park(2, WaitReason::Bytes);
    scheduler.retire(2);
    for token in 3..103 {
        scheduler.insert(token);
        assert!(!scheduler.wake(2));
        assert_eq!(scheduler.take(), Some(token));
        scheduler.park(token, WaitReason::Bytes);
        assert!(!scheduler.wake(2));
        assert_eq!(scheduler.take(), None);
        scheduler.retire(token);
        assert!(!scheduler.wake(token));
        scheduler.resume_credit(WaitReason::Bytes);
        assert_eq!(scheduler.take(), None);
    }
}

#[test]
fn byte_counter_exhaustion_preserves_the_prefix_and_marks_it_incomplete() {
    let mut context = TaskContext::new(ConnectionId::new(1, 2), "127.0.0.1:9".to_string(), 2);
    context.progress.read = u64::MAX;
    assert!(context.observe_read(1).is_err());
    assert_eq!(context.progress().read, u64::MAX);
    assert!(context.progress().counter_overflow);
    context.progress = Progress {
        read: u64::MAX,
        consumed: u64::MAX,
        ..Progress::default()
    };
    assert!(context.consume(1).is_err());
    assert_eq!(context.progress().consumed, u64::MAX);
    assert!(context.progress().counter_overflow);
    assert_eq!(add_observation(4, 3).ok(), Some(7));
    assert!(add_observation(u64::MAX, 1).is_err());
}

#[test]
fn record_counter_exhaustion_refuses_handoff_without_panicking() {
    let mut test = Harness::new(1, 1, ByteBudget::new(1));
    let mut task = test.sender(2);
    task.context.progress.records_queued = u64::MAX;
    assert!(matches!(
        test.poll(&mut task, 1),
        Polled::Unsent(SendFailure::CounterOverflow)
    ));
    assert_eq!(task.context.progress().records_queued, u64::MAX);
    assert!(task.context.progress().counter_overflow);
    assert!(task.context.progress().pending_record);
    assert!(matches!(test.queue.try_recv(), Err(RecvFailure::Empty)));
}

#[test]
fn queue_turns_prevent_new_runnable_and_repeat_producers_from_bypassing() {
    let mut test = Harness::new(3, 1, ByteBudget::new(4));
    test.fill(0);
    let mut first = test.producer(2);
    let mut second = test.producer(3);
    assert!(test.poll(&mut first, 128).is_pending());
    assert!(test.poll(&mut second, 128).is_pending());
    assert!(test.receive().is_some(), "remove initial record");

    // The younger task is already runnable and a new producer arrives before
    // the returned credit is observed. Both run before the entitled head.
    test.scheduler.wake(3);
    let mut newcomer = test.producer(4);
    test.resume();
    assert!(test.poll(&mut second, 128).is_pending());
    assert!(test.poll(&mut newcomer, 128).is_pending());
    assert!(test.receive().is_none());
    assert!(test.poll(&mut first, 128).is_pending());
    assert_eq!(
        test.receive().expect("first useful handoff").connection,
        first.context.id()
    );

    let mut grants = [1, 0, 0];
    for round in 0..191 {
        test.resume();
        let index = (round + 1) % 3;
        let task = match index {
            0 => &mut first,
            1 => &mut second,
            2 => &mut newcomer,
            _ => unreachable!("remainder names one of three producers"),
        };
        assert!(test.poll(task, 128).is_pending());
        let received = test.receive().expect("one released slot is used");
        assert_eq!(received.connection, task.context.id());
        assert_eq!(received.offset.get(), grants[index]);
        grants[index] += 1;
    }
    assert_eq!(grants, [64, 64, 64]);
}

#[test]
fn unequal_byte_requests_accumulate_without_changing_external_allocation() {
    let mut budget = ByteBudget::new(4);
    let first_hold = budget.try_copy(&[8, 8]).expect("first live allocation");
    let second_hold = budget.try_copy(&[9, 9]).expect("second live allocation");
    let mut test = Harness::new(2, 1, budget);
    let mut large = test.copier(2, &[1, 2, 3, 4]);
    let mut small = test.copier(3, &[5, 6]);
    assert!(test.poll(&mut large, 8).is_pending());
    assert!(test.poll(&mut small, 8).is_pending());
    test.release(first_hold);
    test.resume();
    assert!(test.poll(&mut large, 8).is_pending());
    test.scheduler.wake(3);
    assert!(test.poll(&mut small, 8).is_pending());
    assert_eq!(
        test.budget.used(),
        2,
        "younger receiver leaves space for the head"
    );

    let external = test
        .budget
        .try_copy(&[7, 7])
        .expect("a waiting receiver does not reserve public capacity");
    assert_eq!(test.budget.used(), 4);
    assert!(matches!(
        test.budget.try_copy(&[0]),
        Err(BudgetError::Full {
            required: 1,
            available: 0,
        })
    ));
    assert!(matches!(
        test.budget.try_copy(&[0; 5]),
        Err(BudgetError::TooLarge {
            required: 5,
            capacity: 4,
        })
    ));
    test.release(external);
    test.resume();
    assert!(test.poll(&mut large, 8).is_pending());
    assert_eq!(test.budget.used(), 2);
    test.release(second_hold);
    test.resume();
    let large_output = copied(test.poll(&mut large, 8));
    assert_eq!(large_output.as_slice(), [1, 2, 3, 4]);
    assert_eq!(large_output.charged_capacity(), 4);
    assert!(test.poll(&mut small, 8).is_pending());
    test.release(large_output);
    test.resume();
    let small_output = copied(test.poll(&mut small, 8));
    assert_eq!(small_output.as_slice(), [5, 6]);
    test.release(small_output);
    assert_eq!(test.budget.used(), 0);
}

#[test]
fn impossible_byte_request_does_not_wait_behind_a_blocked_head() {
    let mut budget = ByteBudget::new(4);
    let retained = budget.try_copy(&[0; 4]).expect("full live account");
    let mut test = Harness::new(2, 1, budget);
    let mut head = test.copier(2, &[1, 2, 3, 4]);
    let mut oversized = test.copier(3, &[0; 5]);
    assert!(test.poll(&mut head, 8).is_pending());
    assert!(matches!(
        test.poll(&mut oversized, 8),
        Polled::Refused(BudgetError::TooLarge {
            required: 5,
            capacity: 4,
        })
    ));
    test.release(retained);
    test.resume();
    let output = copied(test.poll(&mut head, 8));
    test.release(output);
}

#[test]
fn coalesced_slot_notifications_allow_every_available_handoff() {
    let mut test = Harness::new(3, 3, ByteBudget::new(4));
    for offset in 0..3 {
        test.fill(offset);
    }
    let mut tasks = [test.sender(2), test.sender(3), test.sender(4)];
    for task in &mut tasks {
        assert!(test.poll(task, 8).is_pending());
    }
    for _ in 0..3 {
        assert!(test.receive().is_some(), "consumer returns a slot");
    }
    assert!(test.signals.take_queue_credit());
    assert!(!test.signals.take_queue_credit());
    test.scheduler.resume_credit(WaitReason::Queue);
    for task in &mut tasks {
        assert!(matches!(test.poll(task, 8), Polled::Sent));
    }
    for task in &tasks {
        assert_eq!(
            test.receive().expect("actual queued output").connection,
            task.context.id()
        );
    }
}

#[test]
fn coalesced_byte_notifications_allow_every_fitting_copy() {
    let mut budget = ByteBudget::new(6);
    let first_hold = budget.try_copy(&[0; 3]).expect("first live allocation");
    let second_hold = budget.try_copy(&[0; 3]).expect("second live allocation");
    let mut test = Harness::new(3, 1, budget);
    let mut tasks = [
        test.copier(2, &[5, 6]),
        test.copier(3, &[5, 6]),
        test.copier(4, &[5, 6]),
    ];
    for task in &mut tasks {
        assert!(test.poll(task, 8).is_pending());
    }
    test.release(first_hold);
    test.release(second_hold);
    assert!(test.signals.take_byte_credit());
    assert!(!test.signals.take_byte_credit());
    test.scheduler.resume_credit(WaitReason::Bytes);
    let mut outputs = Vec::new();
    for task in &mut tasks {
        outputs.push(copied(test.poll(task, 8)));
    }
    assert_eq!(test.budget.used(), 6);
    for output in &outputs {
        assert_eq!(output.as_slice(), [5, 6]);
    }
    for output in outputs {
        test.release(output);
    }
    assert_eq!(test.budget.used(), 0);
}

#[test]
fn quota_yield_keeps_the_head_and_cancellation_reassigns_available_capacity() {
    let mut budget = ByteBudget::new(4);
    let retained = budget.try_copy(&[0; 4]).expect("full live account");
    let mut test = Harness::new(2, 1, budget);
    let mut head = test.copier(2, &[1, 2, 3, 4]);
    let mut next = test.copier(3, &[5, 6]);
    assert!(test.poll(&mut head, 8).is_pending());
    assert!(test.poll(&mut next, 8).is_pending());
    test.release(retained);
    test.scheduler.wake(3);
    test.resume();
    assert!(test.poll(&mut next, 8).is_pending());
    assert!(test.poll(&mut head, 0).is_pending());
    assert_eq!(
        test.budget.used(),
        0,
        "an admission turn has no physical charge"
    );
    assert!(test.poll(&mut head, 0).is_pending());
    drop(head);
    test.scheduler.retire(2);
    assert!(!test.scheduler.wake(2));
    let output = copied(test.poll(&mut next, 8));
    assert_eq!(output.as_slice(), [5, 6]);
    test.release(output);
    assert!(!test.scheduler.has_ready());
}

#[test]
fn a_byte_head_completes_after_quota_is_renewed_without_new_credit() {
    let mut budget = ByteBudget::new(4);
    let retained = budget.try_copy(&[0; 4]).expect("full live account");
    let mut test = Harness::new(2, 1, budget);
    let mut head = test.copier(2, &[1, 2, 3, 4]);
    let mut next = test.copier(3, &[5, 6]);
    assert!(test.poll(&mut head, 8).is_pending());
    assert!(test.poll(&mut next, 8).is_pending());
    test.release(retained);
    test.resume();
    assert!(test.poll(&mut head, 0).is_pending());
    let output = copied(test.poll(&mut head, 1));
    assert_eq!(output.as_slice(), [1, 2, 3, 4]);
    assert!(test.poll(&mut next, 1).is_pending());
    test.release(output);
    test.resume();
    let last = copied(test.poll(&mut next, 1));
    test.release(last);
}

#[test]
fn canceling_a_queue_head_activates_its_successor_without_another_credit() {
    let mut test = Harness::new(2, 1, ByteBudget::new(4));
    test.fill(0);
    let mut head = test.sender(2);
    let mut next = test.sender(3);
    assert!(test.poll(&mut head, 8).is_pending());
    assert!(test.poll(&mut next, 8).is_pending());
    assert!(test.receive().is_some(), "free the one slot");
    test.resume();
    drop(head);
    test.scheduler.retire(2);
    assert!(matches!(test.poll(&mut next, 8), Polled::Sent));
    assert_eq!(
        test.receive().expect("successor record").connection,
        next.context.id()
    );
}

#[test]
fn canceling_a_non_head_preserves_the_remaining_byte_order() {
    let mut budget = ByteBudget::new(4);
    let retained = budget.try_copy(&[0; 4]).expect("full live account");
    let mut test = Harness::new(3, 1, budget);
    let mut head = test.copier(2, &[5, 6]);
    let mut canceled = test.copier(3, &[5, 6]);
    let mut last = test.copier(4, &[5, 6]);
    assert!(test.poll(&mut head, 8).is_pending());
    assert!(test.poll(&mut canceled, 8).is_pending());
    assert!(test.poll(&mut last, 8).is_pending());
    drop(canceled);
    test.scheduler.retire(3);
    assert!(!test.scheduler.wake(3));
    assert!(!test.scheduler.has_ready());
    test.release(retained);
    test.resume();
    let first_output = copied(test.poll(&mut head, 8));
    let last_output = copied(test.poll(&mut last, 8));
    assert_eq!(first_output.as_slice(), [5, 6]);
    assert_eq!(last_output.as_slice(), [5, 6]);
    test.release(first_output);
    test.release(last_output);
}

#[test]
fn a_byte_waiter_does_not_hold_the_queue_needed_to_release_owned_output() {
    let mut budget = ByteBudget::new(4);
    let owned = budget.try_copy(&[7, 8, 9, 10]).expect("completed output");
    let mut test = Harness::new(2, 1, budget);
    test.fill(0);
    let mut needs_bytes = test.copier(2, &[1, 2, 3, 4]);
    let sent = wire_record(ConnectionId::new(1, 3), owned);
    let mut sends_bytes = test.task(3, Job::Send, Some(sent));
    sends_bytes
        .context
        .observe_read(4)
        .expect("wire prefix observation");
    assert!(test.poll(&mut needs_bytes, 8).is_pending());
    assert!(test.poll(&mut sends_bytes, 8).is_pending());
    assert!(test.receive().is_some(), "consumer releases initial slot");
    test.resume();
    assert!(matches!(test.poll(&mut sends_bytes, 8), Polled::Sent));
    assert_eq!(sends_bytes.context.progress().wire_queued, 4);
    let received = test.receive().expect("owned output reached consumer");
    assert!(
        matches!(&received.kind, RecordKind::Wire { bytes } if bytes.as_slice() == [7, 8, 9, 10])
    );
    assert!(!test.scheduler.has_ready());
    test.release(received.into_bytes().expect("wire bytes"));
    test.resume();
    let output = copied(test.poll(&mut needs_bytes, 8));
    test.release(output);
    assert_eq!(test.budget.used(), 0);
}

#[test]
fn retiring_a_pending_owned_send_refunds_bytes_to_an_independent_waiter() {
    let mut budget = ByteBudget::new(4);
    let owned = budget.try_copy(&[0; 4]).expect("completed output");
    let mut test = Harness::new(2, 1, budget);
    test.fill(0);
    let mut needs_bytes = test.copier(2, &[1, 2, 3, 4]);
    let sent = wire_record(ConnectionId::new(1, 3), owned);
    let mut sends_bytes = test.task(3, Job::Send, Some(sent));
    sends_bytes
        .context
        .observe_read(4)
        .expect("wire prefix observation");
    assert!(test.poll(&mut needs_bytes, 8).is_pending());
    assert!(test.poll(&mut sends_bytes, 8).is_pending());
    test.scheduler.retire(3);
    let unsent = sends_bytes.pending.take().expect("unsent record");
    test.release(unsent.into_bytes().expect("wire bytes"));
    test.resume();
    let output = copied(test.poll(&mut needs_bytes, 8));
    test.release(output);
    assert_eq!(test.budget.used(), 0);
    assert!(test.receive().is_some());
    assert!(test.receive().is_none());
}

#[test]
fn retained_output_refunds_to_the_replacement_worker_subscription() {
    let mut old = Harness::new(1, 1, ByteBudget::new(4));
    let mut task = old.copier(2, &[1, 2, 3, 4]);
    let retained = copied(old.poll(&mut task, 8));
    old.scheduler.retire(2);
    drop(task);
    let Harness {
        mut budget,
        subscription,
        ..
    } = old;
    budget.unsubscribe(subscription);

    let mut replacement = Harness::new(1, 1, budget);
    let mut next = replacement.copier(2, &[1, 2, 3, 4]);
    assert!(replacement.poll(&mut next, 8).is_pending());
    assert!(!replacement.scheduler.has_ready());
    assert_eq!(replacement.budget.used(), 4);
    replacement.release(retained);
    replacement.resume();
    let output = copied(replacement.poll(&mut next, 8));
    assert_eq!(replacement.budget.used(), 4);
    assert_eq!(output.as_slice(), [1, 2, 3, 4]);
    replacement.release(output);
    assert_eq!(replacement.budget.used(), 0);
}

#[test]
fn wake_during_poll_survives_parking_and_wake_after_park_is_not_duplicated() {
    let mut scheduler = Scheduler::new(1);
    scheduler.insert(2);
    assert_eq!(scheduler.take(), Some(2));
    scheduler.wake(2);
    scheduler.park(2, WaitReason::Bytes);
    assert!(scheduler.verify_pending(2));
    assert_eq!(scheduler.take(), Some(2));
    scheduler.park(2, WaitReason::Bytes);
    assert!(!scheduler.has_ready());
    for _ in 0..64 {
        scheduler.wake(2);
    }
    assert_eq!(scheduler.take(), Some(2));
    assert_eq!(scheduler.take(), None);
    scheduler.retire(2);
    scheduler.wake(2);
    assert!(!scheduler.has_ready());
}

#[test]
fn mass_park_retire_and_churn_use_bounded_link_work_and_live_metadata() {
    for capacity in [128, 1024, 4096] {
        let bound = |steps: usize| (steps * capacity) as u64;
        let mut scheduler = Scheduler::new(capacity);
        for token in 0..capacity {
            scheduler.insert(token);
        }
        let start = scheduler.accesses();
        for token in 0..capacity {
            assert_eq!(scheduler.take(), Some(token));
            scheduler.park(token, WaitReason::Bytes);
        }
        let parked = scheduler.accesses() - start;
        assert!(parked <= bound(16), "mass park has linear link accesses");
        assert_membership_bounds(&scheduler, capacity);
        let start = scheduler.accesses();
        for token in 0..capacity {
            scheduler.wake(token);
            scheduler.retire(token);
            scheduler.wake(token);
        }
        let retired = scheduler.accesses() - start;
        assert!(retired <= bound(16), "mass retire has linear link accesses");
        assert_membership_bounds(&scheduler, 0);
        assert!(!scheduler.has_ready());

        // Also remove arbitrary queued entries without a preceding take.
        for token in 4 * capacity..5 * capacity {
            scheduler.insert(token);
        }
        let start = scheduler.accesses();
        for parity in [0, 1] {
            for offset in (parity..capacity).step_by(2) {
                scheduler.park(4 * capacity + offset, WaitReason::Queue);
            }
        }
        let queued_park = scheduler.accesses() - start;
        assert!(queued_park <= bound(16));
        assert_membership_bounds(&scheduler, capacity);
        for parity in [1, 0] {
            for offset in (parity..capacity).step_by(2) {
                scheduler.retire(4 * capacity + offset);
            }
        }
        assert_membership_bounds(&scheduler, 0);

        let start = scheduler.accesses();
        for generation in 1..=3 {
            for token in 0..capacity {
                let current = generation * capacity + token;
                scheduler.insert(current);
                scheduler.park(current, WaitReason::Queue);
                scheduler.wake(current);
                scheduler.retire(current);
            }
            assert_membership_bounds(&scheduler, 0);
        }
        let churn = scheduler.accesses() - start;
        assert!(churn <= bound(48), "churn has no retained token history");
        for token in 0..capacity {
            scheduler.wake(token);
        }
        assert!(!scheduler.has_ready());
    }
}

#[test]
fn leaving_one_wait_for_another_passes_the_turn_to_the_next_request() {
    let mut scheduler = Scheduler::new(2);
    scheduler.insert(2);
    scheduler.insert(3);
    assert_eq!(scheduler.take(), Some(2));
    scheduler.park(2, WaitReason::Queue);
    assert_eq!(scheduler.take(), Some(3));
    scheduler.park(3, WaitReason::Queue);
    assert!(!scheduler.has_ready());
    scheduler.park(2, WaitReason::Kernel);
    assert_eq!(scheduler.take(), Some(3));
    assert!(scheduler.request(3, WaitReason::Queue));
    scheduler.complete(3, WaitReason::Queue);
    assert!(scheduler.requests(WaitReason::Queue).is_empty());
}
