//! Scopes of accept errors and the pacing of attempts.
use phonowire::accept::{
    classify, classify_accept, AcceptFailure, AcceptPacing, AcceptTurn, STOP_RECHECK,
};
use phonowire::config::EVENT_BATCH;
use phonowire::platform::ErrorKind;
use phonowire::worker::{Worker, CONTROL, FIRST_CONNECTION, LISTENER};
use phonowire::{IncomingProfile, Limits, ReceiverFailure, RunSummary};
use std::collections::VecDeque;
use std::io;

fn limits(turns: usize) -> Limits {
    Limits::new(8, 256, 64, turns).expect("valid receiver limits")
}

fn fixture(turns: usize) -> Worker {
    Worker::new(limits(turns), IncomingProfile::default(), 65536, 1)
}

struct Sequence {
    errors: VecDeque<i32>,
    peers: usize,
    now: u64,
    attempts: usize,
    stop_on_attempt: bool,
    stopping: bool,
}

impl Sequence {
    fn new(errors: impl IntoIterator<Item = i32>) -> Self {
        Self {
            errors: errors.into_iter().collect(),
            peers: 0,
            now: 1_000,
            attempts: 0,
            stop_on_attempt: false,
            stopping: false,
        }
    }

    fn accept(&mut self) -> io::Result<()> {
        self.attempts += 1;
        if self.stop_on_attempt {
            self.stopping = true;
        }
        if let Some(code) = self.errors.pop_front() {
            return Err(io::Error::from_raw_os_error(code));
        }
        if self.peers > 0 {
            self.peers -= 1;
            return Ok(());
        }
        Err(io::Error::from(io::ErrorKind::WouldBlock))
    }
}

fn accept_ready(worker: &mut Worker, source: &mut Sequence) -> Result<(), ReceiverFailure> {
    let Some(mut turn) = worker.begin_accept(source.now) else {
        return Ok(());
    };
    while worker.next_attempt(&mut turn, source.stopping, source.now)? {
        match source.accept() {
            Ok(()) => {
                if let Some(token) = worker.accepted(&mut turn)? {
                    worker.enroll(token, "127.0.0.1:9".to_string())?;
                }
            }
            Err(error) => {
                if !worker.attempt_failed(error, source.now)? {
                    return Ok(());
                }
            }
        }
    }
    Ok(())
}

#[test]
fn linux_accept_errors_preserve_their_distinct_failure_scopes() {
    for error in [libc::EAGAIN, libc::EWOULDBLOCK] {
        assert_eq!(
            classify_accept(&io::Error::from_raw_os_error(error)),
            AcceptFailure::Drained
        );
    }
    for error in [
        libc::EINTR,
        libc::ECONNABORTED,
        libc::ECONNRESET,
        libc::ETIMEDOUT,
        libc::ENETDOWN,
        libc::EPROTO,
        libc::ENOPROTOOPT,
        libc::EHOSTDOWN,
        libc::ENONET,
        libc::EHOSTUNREACH,
        libc::EOPNOTSUPP,
        libc::ENETUNREACH,
        libc::EPERM,
        libc::ESOCKTNOSUPPORT,
        libc::EPROTONOSUPPORT,
    ] {
        assert_eq!(
            classify_accept(&io::Error::from_raw_os_error(error)),
            AcceptFailure::Retry
        );
    }
    for error in [
        libc::EMFILE,
        libc::ENFILE,
        libc::ENOBUFS,
        libc::ENOMEM,
        libc::ENOSR,
    ] {
        assert_eq!(
            classify_accept(&io::Error::from_raw_os_error(error)),
            AcceptFailure::Pause
        );
    }
    for error in [
        libc::EBADF,
        libc::EFAULT,
        libc::EINVAL,
        libc::ENOTSOCK,
        libc::ENOSYS,
        libc::EACCES,
        libc::EIO,
        libc::ENOSPC,
    ] {
        assert_eq!(
            classify_accept(&io::Error::from_raw_os_error(error)),
            AcceptFailure::Fatal
        );
    }
    for kind in [
        io::ErrorKind::Unsupported,
        io::ErrorKind::PermissionDenied,
        io::ErrorKind::Other,
    ] {
        assert_eq!(
            classify_accept(&io::Error::from(kind)),
            AcceptFailure::Fatal
        );
    }
    assert_eq!(
        classify_accept(&io::Error::from(io::ErrorKind::ConnectionAborted)),
        AcceptFailure::Retry
    );
    assert_eq!(
        classify_accept(&io::Error::from(io::ErrorKind::OutOfMemory)),
        AcceptFailure::Pause
    );
    let descriptors = io::Error::from_raw_os_error(libc::EMFILE).kind();
    assert_eq!(
        classify_accept(&io::Error::from(descriptors)),
        AcceptFailure::Pause
    );
}

#[test]
fn kinds_without_a_platform_number_have_their_scopes() {
    for (kind, scope) in [
        (io::ErrorKind::WouldBlock, AcceptFailure::Drained),
        (io::ErrorKind::Interrupted, AcceptFailure::Retry),
        (io::ErrorKind::ConnectionReset, AcceptFailure::Retry),
        (io::ErrorKind::TimedOut, AcceptFailure::Retry),
        (io::ErrorKind::NetworkDown, AcceptFailure::Retry),
        (io::ErrorKind::NetworkUnreachable, AcceptFailure::Retry),
        (io::ErrorKind::HostUnreachable, AcceptFailure::Retry),
    ] {
        assert_eq!(classify_accept(&io::Error::from(kind)), scope);
    }
}

#[test]
fn the_number_decides_before_the_kind() {
    let codes = phonowire::accept::ErrorCodes {
        again: 1,
        would_block: 2,
        interrupted: 3,
        connection_aborted: 4,
        connection_reset: 5,
        timed_out: 6,
        network_down: 7,
        protocol: 8,
        no_protocol_option: 9,
        host_down: 10,
        no_network: 11,
        host_unreachable: 12,
        not_supported: 13,
        network_unreachable: 14,
        not_permitted: 15,
        socket_type: 16,
        protocol_type: 17,
        process_descriptors: 18,
        system_descriptors: 19,
        no_buffers: 20,
        no_memory: 21,
        no_streams: 22,
    };
    for code in 1..=23 {
        let expected = match code {
            1 | 2 => AcceptFailure::Drained,
            3..=17 => AcceptFailure::Retry,
            18..=22 => AcceptFailure::Pause,
            _ => AcceptFailure::Fatal,
        };
        assert_eq!(
            classify(&codes, Some(code), ErrorKind::WouldBlock, true),
            expected
        );
    }
    assert_eq!(
        classify(&codes, None, ErrorKind::Other, true),
        AcceptFailure::Pause
    );
    assert_eq!(
        classify(&codes, None, ErrorKind::Other, false),
        AcceptFailure::Fatal
    );
}

#[test]
fn error_storm_attempts_obey_the_turn_budget_and_cooldown_despite_readiness() {
    for error in [libc::EINTR, libc::ECONNABORTED, libc::EPROTO] {
        for turns in [1, 3, EVENT_BATCH + 1] {
            let bound = turns.min(EVENT_BATCH);
            let mut worker = fixture(turns);
            let mut source = Sequence::new(std::iter::repeat_n(error, bound * 4));
            for round in 1..=4 {
                accept_ready(&mut worker, &mut source).expect("retryable turn");
                assert_eq!(source.attempts, round * bound);
                assert_eq!(
                    worker.summary().transient_accept_errors,
                    (round * bound) as u64
                );
                assert_eq!(worker.summary().retry_quota_backoffs, round as u64);
                assert_eq!(worker.poll_timeout(source.now), STOP_RECHECK);
                source.now += STOP_RECHECK - 1;
                // Duplicate readiness must not bypass the outstanding pause.
                worker.io_ready(LISTENER);
                accept_ready(&mut worker, &mut source).expect("still paused");
                assert_eq!(source.attempts, round * bound);
                assert_eq!(worker.poll_timeout(source.now), 1);
                source.now += 1;
            }
        }
    }
}

#[test]
fn resource_pressure_retries_one_attempt_per_pause_then_clears_on_would_block() {
    for error in [
        libc::EMFILE,
        libc::ENFILE,
        libc::ENOBUFS,
        libc::ENOMEM,
        libc::ENOSR,
    ] {
        let mut worker = fixture(8);
        let mut source = Sequence::new([error, error]);
        accept_ready(&mut worker, &mut source).expect("first resource failure");
        assert_eq!(worker.summary().resource_pause_entries, 1);
        accept_ready(&mut worker, &mut source).expect("no immediate retry");
        assert_eq!(source.attempts, 1);
        source.now += STOP_RECHECK;
        accept_ready(&mut worker, &mut source).expect("second resource failure");
        assert_eq!(worker.summary().resource_pause_entries, 2);
        assert_eq!(source.attempts, 2);
        source.now += STOP_RECHECK;
        accept_ready(&mut worker, &mut source).expect("empty listener");
        assert_eq!(source.attempts, 3);
        assert_eq!(worker.poll_timeout(source.now), STOP_RECHECK);
        source.now += STOP_RECHECK;
        accept_ready(&mut worker, &mut source).expect("WouldBlock awaits a new edge");
        assert_eq!(source.attempts, 3);
    }
}

#[test]
fn accept_pressure_counters_exhaust_without_wrapping() {
    let mut pacing = AcceptPacing::new();
    let mut retry = RunSummary {
        transient_accept_errors: u64::MAX,
        ..RunSummary::default()
    };
    let scope = classify_accept(&io::Error::from_raw_os_error(libc::EINTR));
    assert!(matches!(
        pacing.attempt_failed(&mut retry, scope, 0),
        Err(ReceiverFailure::CounterExhausted)
    ));
    assert_eq!(retry.transient_accept_errors, u64::MAX);

    let mut pause = RunSummary {
        resource_pause_entries: u64::MAX,
        ..RunSummary::default()
    };
    let scope = classify_accept(&io::Error::from_raw_os_error(libc::EMFILE));
    assert!(matches!(
        pacing.attempt_failed(&mut pause, scope, 0),
        Err(ReceiverFailure::CounterExhausted)
    ));
    assert_eq!(pause.resource_pause_entries, u64::MAX);

    let mut quota = RunSummary {
        retry_quota_backoffs: u64::MAX,
        ..RunSummary::default()
    };
    let mut turn = AcceptTurn {
        attempts: 0,
        progressed: false,
    };
    assert!(matches!(
        pacing.next_attempt(&mut turn, &mut quota, false, 0),
        Err(ReceiverFailure::CounterExhausted)
    ));
    assert_eq!(quota.retry_quota_backoffs, u64::MAX);
}

#[test]
fn pending_backlog_recovers_after_error_and_quota_without_another_edge() {
    let mut worker = fixture(1);
    let mut source = Sequence::new([libc::ECONNABORTED]);
    source.peers = 3;
    accept_ready(&mut worker, &mut source).expect("failed first attempt");
    assert_eq!(worker.summary().accepted, 0);
    source.now += STOP_RECHECK;
    // No readiness event is supplied after the first edge. Both the retry and
    // the subsequent quota boundaries retain the known pending backlog.
    for admitted in 1..=3 {
        accept_ready(&mut worker, &mut source).expect("accept queued peer");
        assert_eq!(worker.summary().accepted, admitted);
        assert_eq!(worker.poll_timeout(source.now), 0);
    }
    assert_eq!(source.attempts, 4);
    accept_ready(&mut worker, &mut source).expect("drain listener");
    assert_eq!(source.attempts, 5);
    accept_ready(&mut worker, &mut source).expect("no edge, no attempt after drain");
    assert_eq!(source.attempts, 5);
    let (records, result) = worker.retire_all();
    result.expect("close admitted peers");
    assert!(records.is_empty());
    assert_eq!(worker.live(), 0);
    assert_eq!(worker.summary().abandoned, 3);
}

#[test]
fn stop_requested_inside_an_error_attempt_prevents_the_next_attempt() {
    let mut worker = fixture(8);
    let mut source = Sequence::new([libc::EINTR; 8]);
    source.stop_on_attempt = true;
    accept_ready(&mut worker, &mut source).expect("stop interrupts error turn");
    assert_eq!(source.attempts, 1);
    assert_eq!(worker.summary().retry_quota_backoffs, 0);
}

#[test]
fn a_fatal_accept_keeps_the_original_error() {
    let mut worker = fixture(8);
    let mut source = Sequence::new([libc::EBADF]);
    match accept_ready(&mut worker, &mut source) {
        Err(ReceiverFailure::Io(error)) => assert_eq!(error.raw_os_error(), Some(libc::EBADF)),
        _ => panic!("fatal accept must fail the worker"),
    }
}

#[test]
fn sockets_beyond_the_connection_bound_are_refused_and_tokens_go_on() {
    let mut worker = fixture(16);
    let mut source = Sequence::new([]);
    source.peers = 10;
    accept_ready(&mut worker, &mut source).expect("accept all");
    assert_eq!(worker.summary().accepted, 8);
    assert_eq!(worker.summary().refused, 2);
    assert_eq!(worker.live(), 8);
    assert!(worker.is_waiting(FIRST_CONNECTION));
    assert!(worker.is_waiting(FIRST_CONNECTION + 7));
    assert!(!worker.is_waiting(FIRST_CONNECTION + 8));
    let (record, result) = worker.retire(FIRST_CONNECTION);
    assert!(record.is_none());
    result.expect("retired");
    worker.io_ready(CONTROL);
    worker.io_ready(LISTENER);
    source.peers = 1;
    accept_ready(&mut worker, &mut source).expect("accept one more");
    assert!(worker.is_waiting(FIRST_CONNECTION + 8));
    assert!(!worker.is_waiting(FIRST_CONNECTION));
}
