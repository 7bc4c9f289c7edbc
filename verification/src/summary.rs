//! Counters of one worker invocation and the failures that can end it.
use vstd::prelude::*;

use crate::memory::BudgetError;
use crate::task::Progress;

verus! {

/// The control event that stopped a worker.
#[derive(Clone, Copy, Debug, PartialEq, Eq, Structural)]
pub enum StopCause {
    /// The stop handle requested cancellation, including its destruction.
    Requested,
    /// The record consumer was destroyed.
    ConsumerDisconnected,
}

/// A bind or worker failure category.
#[derive(Debug)]
pub enum ReceiverFailure {
    /// Socket, readiness, or wake notification failed.
    Io(std::io::Error),
    /// The budget cannot retain one maximum output payload or read chunk.
    BudgetTooSmall(BudgetError),
    /// Receiver instance identities cannot be allocated without reuse.
    InstanceExhausted,
    /// Connection tokens cannot be allocated without reuse.
    TokenExhausted,
    /// Another active worker uses this output budget's notification slot.
    BudgetAlreadySubscribed,
    /// An observation counter cannot represent another result.
    CounterExhausted,
}

/// Counters for one worker invocation, including abandoned work.
///
/// Handoff means accepted by the record channel, not persisted by a consumer.
/// Byte retention is a snapshot after connection tasks have been destroyed.
#[derive(Clone, Copy, Debug, PartialEq, Eq, Structural)]
pub struct RunSummary {
    /// Retryable transient accept errors observed during this run.
    pub transient_accept_errors: u64,
    /// Resource-pressure accept pauses entered during this run.
    pub resource_pause_entries: u64,
    /// All-retry bounded turns that installed an accept cooldown.
    pub retry_quota_backoffs: u64,
    /// Connections admitted to the worker.
    pub accepted: usize,
    /// Accepted sockets closed because the live connection bound was full.
    pub refused: usize,
    /// Connections whose terminal record entered the handoff channel.
    pub ended: usize,
    /// Connections destroyed without handing off a terminal record.
    pub abandoned: usize,
    /// Connections still active at the shutdown boundary.
    pub live: usize,
    /// Bytes observed by successful TCP reads.
    pub raw_bytes_read: u64,
    /// Raw bytes accepted by the record channel.
    pub raw_bytes_handed_off: u64,
    /// Observed raw bytes discarded before channel acceptance.
    pub undelivered_raw_bytes: u64,
    /// Records accepted by the channel.
    pub records_handed_off: u64,
    /// Constructed records discarded while waiting for a queue slot.
    pub undelivered_records: usize,
    /// Accessible output bytes still charged after task destruction.
    pub retained_output_bytes: usize,
    /// Upper bound of transport and decoder buffer capacity for this worker.
    pub fixed_buffer_capacity: usize,
    /// The observed control reason, when execution ended through control.
    pub stopped_by: Option<StopCause>,
    /// Whether all observation counters remain representable.
    pub counters_complete: bool,
}

impl RunSummary {
    /// Nothing counted yet.
    pub open spec fn none() -> RunSummary {
        RunSummary {
            transient_accept_errors: 0,
            resource_pause_entries: 0,
            retry_quota_backoffs: 0,
            accepted: 0,
            refused: 0,
            ended: 0,
            abandoned: 0,
            live: 0,
            raw_bytes_read: 0,
            raw_bytes_handed_off: 0,
            undelivered_raw_bytes: 0,
            records_handed_off: 0,
            undelivered_records: 0,
            retained_output_bytes: 0,
            fixed_buffer_capacity: 0,
            stopped_by: None,
            counters_complete: true,
        }
    }

    /// Raw bytes are either handed off or undelivered.
    pub open spec fn balanced(self) -> bool {
        self.raw_bytes_read == self.raw_bytes_handed_off + self.undelivered_raw_bytes
    }
}

impl Default for RunSummary {
    fn default() -> (summary: RunSummary)
        ensures
            summary == RunSummary::none(),
    {
        RunSummary {
            transient_accept_errors: 0,
            resource_pause_entries: 0,
            retry_quota_backoffs: 0,
            accepted: 0,
            refused: 0,
            ended: 0,
            abandoned: 0,
            live: 0,
            raw_bytes_read: 0,
            raw_bytes_handed_off: 0,
            undelivered_raw_bytes: 0,
            records_handed_off: 0,
            undelivered_records: 0,
            retained_output_bytes: 0,
            fixed_buffer_capacity: 0,
            stopped_by: None,
            counters_complete: true,
        }
    }
}

/// A failure together with the worker observations available at that boundary.
#[derive(Debug)]
pub struct ReceiverError {
    failure: ReceiverFailure,
    summary: RunSummary,
}

impl ReceiverError {
    /// The cause of failure.
    pub closed spec fn cause(self) -> ReceiverFailure {
        self.failure
    }

    /// The observations before shutdown.
    pub closed spec fn observed(self) -> RunSummary {
        self.summary
    }

    /// Pairs a failure with the observations that were made before it.
    #[must_use]
    pub fn new(failure: ReceiverFailure, summary: RunSummary) -> (error: ReceiverError)
        ensures
            error.cause() == failure,
            error.observed() == summary,
    {
        ReceiverError { failure, summary }
    }

    /// Pairs a failure with no observations.
    #[must_use]
    pub fn before_run(failure: ReceiverFailure) -> (error: ReceiverError)
        ensures
            error.cause() == failure,
            error.observed() == RunSummary::none(),
    {
        ReceiverError { failure, summary: RunSummary::default() }
    }

    /// Returns the cause of failure.
    #[must_use]
    pub fn failure(&self) -> (failure: &ReceiverFailure)
        ensures
            *failure == self.cause(),
    {
        &self.failure
    }

    /// Returns observations collected before shutdown.
    #[must_use]
    pub fn summary(&self) -> (summary: &RunSummary)
        ensures
            *summary == self.observed(),
    {
        &self.summary
    }
}

/// The counters with those of a task that ended added, as numbers.
pub open spec fn merge_fits(summary: RunSummary, progress: Progress) -> bool {
    &&& if progress.terminal_queued {
        summary.ended < usize::MAX
    } else {
        summary.abandoned < usize::MAX
    }
    &&& summary.raw_bytes_read + progress.read <= u64::MAX
    &&& summary.raw_bytes_handed_off + progress.wire_queued <= u64::MAX
    &&& summary.records_handed_off + progress.records_queued <= u64::MAX
    &&& progress.pending_record ==> summary.undelivered_records < usize::MAX
}

/// The counters with those of a task that ended added.
pub open spec fn merged(summary: RunSummary, progress: Progress) -> RunSummary {
    RunSummary {
        ended: if progress.terminal_queued {
            (summary.ended + 1) as usize
        } else {
            summary.ended
        },
        abandoned: if progress.terminal_queued {
            summary.abandoned
        } else {
            (summary.abandoned + 1) as usize
        },
        raw_bytes_read: (summary.raw_bytes_read + progress.read) as u64,
        raw_bytes_handed_off: (summary.raw_bytes_handed_off + progress.wire_queued) as u64,
        undelivered_raw_bytes: (summary.raw_bytes_read + progress.read
            - summary.raw_bytes_handed_off - progress.wire_queued) as u64,
        records_handed_off: (summary.records_handed_off + progress.records_queued) as u64,
        undelivered_records: if progress.pending_record {
            (summary.undelivered_records + 1) as usize
        } else {
            summary.undelivered_records
        },
        counters_complete: summary.counters_complete && !progress.counter_overflow,
        ..summary
    }
}

/// Adds the counters of a task that ended.
///
/// Where a sum cannot be represented nothing is added. A task whose own counters
/// overflowed is added, and the sum is marked incomplete; both are failures.
pub fn merge_progress(summary: &mut RunSummary, progress: Progress) -> (result: Result<
    (),
    ReceiverFailure,
>)
    requires
        old(summary).raw_bytes_handed_off + progress.wire_queued <= old(summary).raw_bytes_read
            + progress.read,
    ensures
        if merge_fits(*old(summary), progress) {
            &&& *final(summary) == merged(*old(summary), progress)
            &&& final(summary).balanced()
            &&& match result {
                Ok(()) => !progress.counter_overflow,
                Err(failure) => progress.counter_overflow && failure is CounterExhausted,
            }
        } else {
            &&& *final(summary) == *old(summary)
            &&& result matches Err(failure)
            &&& failure is CounterExhausted
        },
{
    let mut next = *summary;
    if progress.terminal_queued {
        match next.ended.checked_add(1) {
            Some(ended) => next.ended = ended,
            None => return Err(ReceiverFailure::CounterExhausted),
        }
    } else {
        match next.abandoned.checked_add(1) {
            Some(abandoned) => next.abandoned = abandoned,
            None => return Err(ReceiverFailure::CounterExhausted),
        }
    }
    match next.raw_bytes_read.checked_add(progress.read) {
        Some(read) => next.raw_bytes_read = read,
        None => return Err(ReceiverFailure::CounterExhausted),
    }
    match next.raw_bytes_handed_off.checked_add(progress.wire_queued) {
        Some(handed) => next.raw_bytes_handed_off = handed,
        None => return Err(ReceiverFailure::CounterExhausted),
    }
    next.undelivered_raw_bytes = next.raw_bytes_read - next.raw_bytes_handed_off;
    match next.records_handed_off.checked_add(progress.records_queued) {
        Some(records) => next.records_handed_off = records,
        None => return Err(ReceiverFailure::CounterExhausted),
    }
    if progress.pending_record {
        match next.undelivered_records.checked_add(1) {
            Some(undelivered) => next.undelivered_records = undelivered,
            None => return Err(ReceiverFailure::CounterExhausted),
        }
    }
    next.counters_complete = next.counters_complete && !progress.counter_overflow;
    *summary = next;
    if progress.counter_overflow {
        return Err(ReceiverFailure::CounterExhausted);
    }
    Ok(())
}

/// The next token was taken, or none is left.
pub open spec fn allocated(next: usize, then: usize, result: Result<usize, ReceiverFailure>) -> bool {
    match result {
        Ok(token) => {
            &&& token == next
            &&& next < usize::MAX
            &&& then == next + 1
        },
        Err(failure) => {
            &&& next == usize::MAX
            &&& then == next
            &&& failure is TokenExhausted
        },
    }
}

/// Takes the next connection token; tokens are never used again.
pub fn allocate_token(next: &mut usize) -> (result: Result<usize, ReceiverFailure>)
    ensures
        allocated(*old(next), *final(next), result),
{
    let token: usize = *next;
    match token.checked_add(1) {
        Some(following) => {
            *next = following;
            Ok(token)
        },
        None => Err(ReceiverFailure::TokenExhausted),
    }
}

/// The control event that stops a worker, if one happened.
pub open spec fn cause_of_stop(disconnected: bool, stop_requested: bool) -> Option<StopCause> {
    if disconnected {
        Some(StopCause::ConsumerDisconnected)
    } else if stop_requested {
        Some(StopCause::Requested)
    } else {
        None
    }
}

/// The control event that stops a worker, if one happened. A consumer that is gone
/// comes before a requested stop.
pub fn stop_cause(disconnected: bool, stop_requested: bool) -> (cause: Option<StopCause>)
    ensures
        cause == cause_of_stop(disconnected, stop_requested),
{
    if disconnected {
        return Some(StopCause::ConsumerDisconnected);
    }
    if stop_requested {
        Some(StopCause::Requested)
    } else {
        None
    }
}

/// A task that ended is one connection more, told as ended exactly if its terminal record
/// was handed off; its bytes and records are added, and what it read and did not hand off
/// is undelivered. Nothing else changes.
pub proof fn law_merging_adds_what_a_task_did(summary: RunSummary, progress: Progress)
    requires
        merge_fits(summary, progress),
        summary.balanced(),
        progress.wire_queued <= progress.read,
    ensures
        ({
            let next = merged(summary, progress);
            &&& next.ended + next.abandoned == summary.ended + summary.abandoned + 1
            &&& progress.terminal_queued <==> next.ended == summary.ended + 1
            &&& next.raw_bytes_read == summary.raw_bytes_read + progress.read
            &&& next.raw_bytes_handed_off == summary.raw_bytes_handed_off + progress.wire_queued
            &&& next.undelivered_raw_bytes == summary.undelivered_raw_bytes + (progress.read
                - progress.wire_queued)
            &&& next.records_handed_off == summary.records_handed_off + progress.records_queued
            &&& progress.pending_record ==> next.undelivered_records == summary.undelivered_records
                + 1
            &&& !progress.pending_record ==> next.undelivered_records
                == summary.undelivered_records
            &&& next.counters_complete <==> summary.counters_complete && !progress.counter_overflow
            &&& next.accepted == summary.accepted && next.refused == summary.refused
            &&& next.live == summary.live && next.stopped_by == summary.stopped_by
            &&& next.transient_accept_errors == summary.transient_accept_errors
            &&& next.resource_pause_entries == summary.resource_pause_entries
            &&& next.retry_quota_backoffs == summary.retry_quota_backoffs
            &&& next.retained_output_bytes == summary.retained_output_bytes
            &&& next.fixed_buffer_capacity == summary.fixed_buffer_capacity
        }),
{
}

/// In which order tasks end does not matter to the counters.
pub proof fn law_merging_keeps_no_order(summary: RunSummary, one: Progress, other: Progress)
    requires
        summary.balanced(),
        one.wire_queued <= one.read,
        other.wire_queued <= other.read,
        merge_fits(summary, one),
        merge_fits(merged(summary, one), other),
    ensures
        merge_fits(summary, other),
        merge_fits(merged(summary, other), one),
        merged(merged(summary, one), other) == merged(merged(summary, other), one),
{
}

/// A task is added exactly as long as every sum can be represented.
pub proof fn law_merging_fails_only_for_want_of_range(summary: RunSummary, progress: Progress)
    ensures
        merge_fits(summary, progress) <==> {
            &&& progress.terminal_queued ==> summary.ended + 1 <= usize::MAX
            &&& !progress.terminal_queued ==> summary.abandoned + 1 <= usize::MAX
            &&& summary.raw_bytes_read + progress.read <= u64::MAX
            &&& summary.raw_bytes_handed_off + progress.wire_queued <= u64::MAX
            &&& summary.records_handed_off + progress.records_queued <= u64::MAX
            &&& progress.pending_record ==> summary.undelivered_records + 1 <= usize::MAX
        },
{
}

/// A worker stops exactly if its consumer is gone or a stop was requested, and a consumer
/// that is gone is the cause even where a stop was requested too.
pub proof fn law_workers_stop_for_a_cause(disconnected: bool, stop_requested: bool)
    ensures
        cause_of_stop(disconnected, stop_requested) is Some <==> disconnected || stop_requested,
        cause_of_stop(disconnected, stop_requested) == Some(StopCause::ConsumerDisconnected)
            <==> disconnected,
{
}

/// No token is given twice: each is greater than those given before it, and once none is
/// left none is given again.
pub proof fn law_tokens_are_given_once(
    next: usize,
    then: usize,
    later: usize,
    last: usize,
    first: Result<usize, ReceiverFailure>,
    second: Result<usize, ReceiverFailure>,
)
    requires
        allocated(next, then, first),
        then <= later,
        allocated(later, last, second),
    ensures
        first is Ok && second is Ok ==> first->Ok_0 < second->Ok_0,
        first is Err ==> second is Err,
        first is Ok <==> next < usize::MAX,
        first matches Err(failure) ==> failure is TokenExhausted,
        next <= then <= last,
{
}

} // verus!
