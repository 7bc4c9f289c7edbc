//! Worker counters, tokens and stop causes.
use phonowire::summary::{allocate_token, merge_progress, stop_cause};
use phonowire::task::Progress;
use phonowire::worker::check_budget;
use phonowire::{
    BudgetError, Limits, ReceiverError, ReceiverFailure, RunSummary, StopCause, READ_BYTES,
};

#[test]
fn exhausted_tokens_never_wrap_or_change_the_counter() {
    let mut next = usize::MAX;
    assert!(matches!(
        allocate_token(&mut next),
        Err(ReceiverFailure::TokenExhausted)
    ));
    assert_eq!(next, usize::MAX);
}

#[test]
fn an_exhausted_task_cannot_become_a_complete_worker_summary() {
    let mut summary = RunSummary::default();
    let result = merge_progress(
        &mut summary,
        Progress {
            read: u64::MAX,
            wire_queued: u64::MAX - 1,
            counter_overflow: true,
            ..Progress::default()
        },
    );
    assert!(matches!(result, Err(ReceiverFailure::CounterExhausted)));
    assert!(!summary.counters_complete);
    assert_eq!(summary.raw_bytes_read, u64::MAX);
    assert_eq!(summary.undelivered_raw_bytes, 1);
    assert_eq!(summary.abandoned, 1);
}

#[test]
fn undelivered_raw_prefix_remains_visible_at_cancellation() {
    let mut summary = RunSummary::default();
    merge_progress(
        &mut summary,
        Progress {
            read: 12,
            wire_queued: 7,
            pending_record: true,
            ..Progress::default()
        },
    )
    .expect("finite counters fit");
    assert_eq!(summary.undelivered_raw_bytes, 5);
    assert_eq!(summary.undelivered_records, 1);
    assert_eq!(summary.abandoned, 1);
    assert_eq!(summary.ended, 0);
}

#[test]
fn a_sum_that_cannot_be_represented_leaves_every_counter() {
    let mut summary = RunSummary {
        raw_bytes_read: u64::MAX,
        undelivered_raw_bytes: u64::MAX,
        ..RunSummary::default()
    };
    let before = summary;
    assert!(matches!(
        merge_progress(
            &mut summary,
            Progress {
                read: 1,
                terminal_queued: true,
                ..Progress::default()
            }
        ),
        Err(ReceiverFailure::CounterExhausted)
    ));
    assert_eq!(summary, before);
}

#[test]
fn tokens_count_up_and_a_lost_consumer_comes_before_a_requested_stop() {
    let mut next = 2;
    assert_eq!(allocate_token(&mut next).expect("token"), 2);
    assert_eq!(allocate_token(&mut next).expect("token"), 3);
    assert_eq!(next, 4);
    assert_eq!(stop_cause(false, false), None);
    assert_eq!(stop_cause(false, true), Some(StopCause::Requested));
    assert_eq!(stop_cause(true, true), Some(StopCause::ConsumerDisconnected));
}

#[test]
fn a_budget_below_one_read_or_payload_is_refused_before_the_run() {
    let limits = Limits::new(1, 1, 64, 1).expect("limits");
    assert!(check_budget(limits, READ_BYTES).is_ok());
    let error = check_budget(limits, READ_BYTES - 1).expect_err("too small");
    assert!(matches!(
        error.failure(),
        ReceiverFailure::BudgetTooSmall(BudgetError::TooLarge {
            required: 4096,
            capacity: 4095
        })
    ));
    assert_eq!(*error.summary(), RunSummary::default());
    assert_eq!(
        error.message(),
        "receiver budget is too small: requested 4096 bytes exceeds capacity 4095"
    );
    let wide = Limits::new(1, 1, 5000, 1).expect("limits");
    assert!(check_budget(wide, 4999).is_err());
    assert!(check_budget(wide, 5000).is_ok());
}

#[test]
fn failures_have_their_messages() {
    let cases = [
        (
            ReceiverFailure::InstanceExhausted,
            "receiver instance identities exhausted",
        ),
        (
            ReceiverFailure::TokenExhausted,
            "receiver connection tokens exhausted",
        ),
        (
            ReceiverFailure::BudgetAlreadySubscribed,
            "receiver budget already has an active worker",
        ),
        (
            ReceiverFailure::CounterExhausted,
            "receiver observation counters exhausted",
        ),
        (
            ReceiverFailure::Io(std::io::Error::other("socket gone")),
            "receiver I/O failed: socket gone",
        ),
    ];
    for (failure, message) in cases {
        assert_eq!(ReceiverError::before_run(failure).message(), message);
    }
}
