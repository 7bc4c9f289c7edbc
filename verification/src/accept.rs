//! Scopes of accept failures, and the pacing of accept attempts.
use vstd::prelude::*;

use crate::config::EVENT_BATCH;
use crate::platform::{
    kind_of, name_kind, named_kind, platform_code, platform_code_of, same_kind, ErrorKind,
};
use crate::summary::{ReceiverFailure, RunSummary};

verus! {

/// How far an accept failure reaches.
#[derive(Clone, Copy, Debug, PartialEq, Eq, Structural)]
pub enum AcceptFailure {
    /// No connection is pending.
    Drained,
    /// This attempt failed, and another may succeed at once.
    Retry,
    /// A resource is short, and another attempt needs a pause.
    Pause,
    /// The listener is of no more use.
    Fatal,
}

/// The platform's numbers for the error conditions of an accept.
#[derive(Clone, Copy, Debug, PartialEq, Eq, Structural)]
pub struct ErrorCodes {
    /// Nothing is pending.
    pub again: i32,
    /// The operation would block.
    pub would_block: i32,
    /// A signal arrived.
    pub interrupted: i32,
    /// The connection was aborted.
    pub connection_aborted: i32,
    /// The connection was reset.
    pub connection_reset: i32,
    /// The connection timed out.
    pub timed_out: i32,
    /// The network is down.
    pub network_down: i32,
    /// A protocol error happened.
    pub protocol: i32,
    /// The protocol is not available.
    pub no_protocol_option: i32,
    /// The host is down.
    pub host_down: i32,
    /// The machine is not on the network.
    pub no_network: i32,
    /// The host is unreachable.
    pub host_unreachable: i32,
    /// The operation is not supported.
    pub not_supported: i32,
    /// The network is unreachable.
    pub network_unreachable: i32,
    /// The operation is not permitted.
    pub not_permitted: i32,
    /// The socket type is not supported.
    pub socket_type: i32,
    /// The protocol is not supported.
    pub protocol_type: i32,
    /// The process has too many descriptors.
    pub process_descriptors: i32,
    /// The system has too many descriptors.
    pub system_descriptors: i32,
    /// No buffer space is available.
    pub no_buffers: i32,
    /// No memory is available.
    pub no_memory: i32,
    /// No stream resource is available.
    pub no_streams: i32,
}

/// Whether a platform number is one of an attempt that may be repeated at once.
pub open spec fn is_retry_code(codes: ErrorCodes, code: i32) -> bool {
    ||| code == codes.interrupted
    ||| code == codes.connection_aborted
    ||| code == codes.connection_reset
    ||| code == codes.timed_out
    ||| code == codes.network_down
    ||| code == codes.protocol
    ||| code == codes.no_protocol_option
    ||| code == codes.host_down
    ||| code == codes.no_network
    ||| code == codes.host_unreachable
    ||| code == codes.not_supported
    ||| code == codes.network_unreachable
    ||| code == codes.not_permitted
    ||| code == codes.socket_type
    ||| code == codes.protocol_type
}

/// Whether a platform number is one of a short resource.
pub open spec fn is_pause_code(codes: ErrorCodes, code: i32) -> bool {
    ||| code == codes.process_descriptors
    ||| code == codes.system_descriptors
    ||| code == codes.no_buffers
    ||| code == codes.no_memory
    ||| code == codes.no_streams
}

/// The scope of an accept failure. The platform's number decides where there is
/// one, and else the kind; `descriptors` says that the kind is the one that a
/// process with too many descriptors gets.
pub open spec fn scope_of(
    codes: ErrorCodes,
    code: Option<i32>,
    kind: ErrorKind,
    descriptors: bool,
) -> AcceptFailure {
    match code {
        Some(code) => if code == codes.again || code == codes.would_block {
            AcceptFailure::Drained
        } else if is_retry_code(codes, code) {
            AcceptFailure::Retry
        } else if is_pause_code(codes, code) {
            AcceptFailure::Pause
        } else {
            AcceptFailure::Fatal
        },
        None => match kind {
            ErrorKind::WouldBlock => AcceptFailure::Drained,
            ErrorKind::OutOfMemory => AcceptFailure::Pause,
            ErrorKind::Interrupted | ErrorKind::ConnectionAborted | ErrorKind::ConnectionReset
            | ErrorKind::TimedOut | ErrorKind::NetworkDown | ErrorKind::NetworkUnreachable
            | ErrorKind::HostUnreachable => AcceptFailure::Retry,
            ErrorKind::WriteZero | ErrorKind::Other | ErrorKind::Unlisted => if descriptors {
                AcceptFailure::Pause
            } else {
                AcceptFailure::Fatal
            },
        },
    }
}

/// Finds the scope of an accept failure from its number and its kind.
pub fn classify(codes: &ErrorCodes, code: Option<i32>, kind: ErrorKind, descriptors: bool) -> (scope:
    AcceptFailure)
    ensures
        scope == scope_of(*codes, code, kind, descriptors),
{
    match code {
        Some(code) => {
            if code == codes.again || code == codes.would_block {
                AcceptFailure::Drained
            } else if code == codes.interrupted || code == codes.connection_aborted || code
                == codes.connection_reset || code == codes.timed_out || code == codes.network_down
                || code == codes.protocol || code == codes.no_protocol_option || code
                == codes.host_down || code == codes.no_network || code == codes.host_unreachable
                || code == codes.not_supported || code == codes.network_unreachable || code
                == codes.not_permitted || code == codes.socket_type || code
                == codes.protocol_type {
                AcceptFailure::Retry
            } else if code == codes.process_descriptors || code == codes.system_descriptors || code
                == codes.no_buffers || code == codes.no_memory || code == codes.no_streams {
                AcceptFailure::Pause
            } else {
                AcceptFailure::Fatal
            }
        },
        None => match kind {
            ErrorKind::WouldBlock => AcceptFailure::Drained,
            ErrorKind::OutOfMemory => AcceptFailure::Pause,
            ErrorKind::Interrupted | ErrorKind::ConnectionAborted | ErrorKind::ConnectionReset
            | ErrorKind::TimedOut | ErrorKind::NetworkDown | ErrorKind::NetworkUnreachable
            | ErrorKind::HostUnreachable => AcceptFailure::Retry,
            ErrorKind::WriteZero | ErrorKind::Other | ErrorKind::Unlisted => if descriptors {
                AcceptFailure::Pause
            } else {
                AcceptFailure::Fatal
            },
        },
    }
}

/// The numbers on most Linux machines.
pub open spec fn common_codes() -> ErrorCodes {
    ErrorCodes {
        again: 11,
        would_block: 11,
        interrupted: 4,
        connection_aborted: 103,
        connection_reset: 104,
        timed_out: 110,
        network_down: 100,
        protocol: 71,
        no_protocol_option: 92,
        host_down: 112,
        no_network: 64,
        host_unreachable: 113,
        not_supported: 95,
        network_unreachable: 101,
        not_permitted: 1,
        socket_type: 94,
        protocol_type: 93,
        process_descriptors: 24,
        system_descriptors: 23,
        no_buffers: 105,
        no_memory: 12,
        no_streams: 63,
    }
}

/// The numbers on Linux machines of the MIPS architectures.
pub open spec fn mips_codes() -> ErrorCodes {
    ErrorCodes {
        connection_aborted: 130,
        connection_reset: 131,
        timed_out: 145,
        network_down: 127,
        no_protocol_option: 99,
        host_down: 147,
        host_unreachable: 148,
        not_supported: 122,
        network_unreachable: 128,
        socket_type: 121,
        protocol_type: 120,
        no_buffers: 132,
        ..common_codes()
    }
}

/// The numbers on Linux machines of the SPARC architectures.
pub open spec fn sparc_codes() -> ErrorCodes {
    ErrorCodes {
        connection_aborted: 53,
        connection_reset: 54,
        timed_out: 60,
        network_down: 50,
        protocol: 86,
        no_protocol_option: 42,
        host_down: 64,
        no_network: 80,
        host_unreachable: 65,
        not_supported: 45,
        network_unreachable: 51,
        socket_type: 44,
        protocol_type: 43,
        no_buffers: 55,
        no_streams: 74,
        ..common_codes()
    }
}

/// Whether these are the numbers of a Linux machine.
pub open spec fn linux_codes(codes: ErrorCodes) -> bool {
    codes == common_codes() || codes == mips_codes() || codes == sparc_codes()
}

/// On every Linux machine the numbers up to 34 are the same, each other number is
/// above them, and no condition that is retried at once shares its number with a
/// short resource.
pub proof fn law_numbers_tell_scopes_apart(codes: ErrorCodes)
    requires
        linux_codes(codes),
    ensures
        codes.not_permitted == 1,
        codes.interrupted == 4,
        codes.again == 11,
        codes.would_block == 11,
        codes.no_memory == 12,
        codes.system_descriptors == 23,
        codes.process_descriptors == 24,
        forall|code: i32|
            code <= 34 && (#[trigger] is_retry_code(codes, code) || is_pause_code(codes, code))
                ==> code == 1 || code == 4 || code == 12 || code == 23 || code == 24,
        forall|code: i32| !(#[trigger] is_retry_code(codes, code) && is_pause_code(codes, code)),
{
}

/// The error numbers of `libc`, each under the name that says what it means. The
/// receiver is for Linux; there `libc` has one set of numbers for MIPS, one for SPARC
/// and one for all other architectures.
#[verifier::external_body]
fn error_codes() -> (codes: ErrorCodes)
    ensures
        linux_codes(codes),
{
    ErrorCodes {
        again: libc::EAGAIN, would_block: libc::EWOULDBLOCK, interrupted: libc::EINTR,
        connection_aborted: libc::ECONNABORTED, connection_reset: libc::ECONNRESET,
        timed_out: libc::ETIMEDOUT, network_down: libc::ENETDOWN, protocol: libc::EPROTO,
        no_protocol_option: libc::ENOPROTOOPT, host_down: libc::EHOSTDOWN,
        no_network: libc::ENONET, host_unreachable: libc::EHOSTUNREACH,
        not_supported: libc::EOPNOTSUPP, network_unreachable: libc::ENETUNREACH,
        not_permitted: libc::EPERM, socket_type: libc::ESOCKTNOSUPPORT,
        protocol_type: libc::EPROTONOSUPPORT, process_descriptors: libc::EMFILE,
        system_descriptors: libc::ENFILE, no_buffers: libc::ENOBUFS,
        no_memory: libc::ENOMEM, no_streams: libc::ENOSR,
    }
}

/// The scope of a failure under these numbers, where `full` is an error with the
/// number of too many descriptors.
pub open spec fn scope_under(
    codes: ErrorCodes,
    full: std::io::Error,
    error: std::io::Error,
) -> AcceptFailure {
    scope_of(
        codes,
        platform_code_of(error),
        named_kind(kind_of(error)),
        kind_of(error) == kind_of(full),
    )
}

/// Whether a failure has this scope on some Linux machine.
pub open spec fn scope_on_platform(error: std::io::Error, scope: AcceptFailure) -> bool {
    exists|codes: ErrorCodes, full: std::io::Error|
        {
            &&& linux_codes(codes)
            &&& platform_code_of(full) == Some(codes.process_descriptors)
            &&& named_kind(kind_of(full)) != ErrorKind::Other
            &&& scope == #[trigger] scope_under(codes, full, error)
        }
}

/// Finds the scope of an accept failure: that of its platform number or, where it
/// has none, of its kind.
pub fn classify_accept(error: &std::io::Error) -> (scope: AcceptFailure)
    ensures
        scope_on_platform(*error, scope),
{
    let codes = error_codes();
    let code = platform_code(error);
    let kind = error.kind();
    let full = std::io::Error::from_raw_os_error(codes.process_descriptors);
    let full_kind = full.kind();
    let descriptors: bool = same_kind(&kind, &full_kind);
    let scope = classify(&codes, code, name_kind(&kind), descriptors);
    assert(scope == scope_under(codes, full, *error));
    scope
}

/// How long accepts rest after a pause, in nanoseconds; also the longest time
/// between two looks at the stop request.
pub const STOP_RECHECK: u64 = 100_000_000;

/// The time until accepts may go on, in nanoseconds.
pub open spec fn rest_of_pause(paused_at: Option<u64>, now: u64) -> int {
    match paused_at {
        None => 0,
        Some(start) => if now <= start {
            STOP_RECHECK as int
        } else if now - start >= STOP_RECHECK {
            0
        } else {
            STOP_RECHECK - (now - start)
        },
    }
}

/// When the worker accepts connections, and when it lets the listener rest.
#[derive(Clone, Copy, Debug, PartialEq, Eq, Structural)]
pub struct AcceptPacing {
    /// A connection may be pending.
    pub listener_ready: bool,
    /// When the present pause began, in nanoseconds.
    pub paused_at: Option<u64>,
}

/// What is left of one turn of accept attempts.
#[derive(Clone, Copy, Debug, PartialEq, Eq, Structural)]
pub struct AcceptTurn {
    /// Attempts that are left.
    pub attempts: usize,
    /// Some attempt accepted a connection.
    pub progressed: bool,
}

/// How the next attempt of a turn is decided: one is made while any is left, unless
/// the worker stops; a turn that used all its attempts without accepting a connection
/// begins a pause.
pub open spec fn attempt_decided(
    turn: AcceptTurn,
    turn_after: AcceptTurn,
    pacing: AcceptPacing,
    pacing_after: AcceptPacing,
    summary: RunSummary,
    summary_after: RunSummary,
    stopping: bool,
    now: u64,
    result: Result<bool, ReceiverFailure>,
) -> bool {
    if turn.attempts > 0 && !stopping {
        &&& result matches Ok(attempt)
        &&& attempt
        &&& turn_after == (AcceptTurn { attempts: (turn.attempts - 1) as usize, ..turn })
        &&& pacing_after == pacing
        &&& summary_after == summary
    } else {
        &&& turn_after == turn
        &&& if turn.attempts > 0 || turn.progressed {
            &&& result matches Ok(attempt)
            &&& !attempt
            &&& pacing_after == pacing
            &&& summary_after == summary
        } else if summary.retry_quota_backoffs == u64::MAX {
            &&& result matches Err(failure)
            &&& failure is CounterExhausted
            &&& pacing_after == pacing
            &&& summary_after == summary
        } else {
            &&& result matches Ok(attempt)
            &&& !attempt
            &&& pacing_after == (AcceptPacing { paused_at: Some(now), ..pacing })
            &&& summary_after == (RunSummary {
                retry_quota_backoffs: (summary.retry_quota_backoffs + 1) as u64,
                ..summary
            })
        }
    }
}

/// What a failed attempt of a known scope comes to.
pub open spec fn failure_counted(
    scope: AcceptFailure,
    error: std::io::Error,
    pacing: AcceptPacing,
    pacing_after: AcceptPacing,
    summary: RunSummary,
    summary_after: RunSummary,
    now: u64,
    result: Result<bool, ReceiverFailure>,
) -> bool {
    match scope {
        AcceptFailure::Drained => {
            &&& result matches Ok(on)
            &&& !on
            &&& pacing_after == (AcceptPacing { listener_ready: false, ..pacing })
            &&& summary_after == summary
        },
        AcceptFailure::Retry => {
            &&& pacing_after == pacing
            &&& if summary.transient_accept_errors == u64::MAX {
                &&& result matches Err(failure)
                &&& failure is CounterExhausted
                &&& summary_after == summary
            } else {
                &&& result matches Ok(on)
                &&& on
                &&& summary_after == (RunSummary {
                    transient_accept_errors: (summary.transient_accept_errors + 1) as u64,
                    ..summary
                })
            }
        },
        AcceptFailure::Pause => if summary.resource_pause_entries == u64::MAX {
            &&& result matches Err(failure)
            &&& failure is CounterExhausted
            &&& pacing_after == pacing
            &&& summary_after == summary
        } else {
            &&& result matches Ok(on)
            &&& !on
            &&& pacing_after == (AcceptPacing { paused_at: Some(now), ..pacing })
            &&& summary_after == (RunSummary {
                resource_pause_entries: (summary.resource_pause_entries + 1) as u64,
                ..summary
            })
        },
        AcceptFailure::Fatal => {
            &&& result matches Err(failure)
            &&& failure == ReceiverFailure::Io(error)
            &&& pacing_after == pacing
            &&& summary_after == summary
        },
    }
}

/// How long a worker may wait for readiness.
pub open spec fn wait_for(has_ready: bool, pacing: AcceptPacing, now: u64) -> int {
    if has_ready {
        0
    } else if pacing.listener_ready {
        rest_of_pause(pacing.paused_at, now)
    } else {
        STOP_RECHECK as int
    }
}

/// How a turn of attempts begins, if it does.
pub open spec fn begun_as(
    pacing: AcceptPacing,
    pacing_after: AcceptPacing,
    turn_steps: usize,
    now: u64,
    turn: Option<AcceptTurn>,
) -> bool {
    if pacing.listener_ready && rest_of_pause(pacing.paused_at, now) == 0 {
        &&& pacing_after == (AcceptPacing { paused_at: None, ..pacing })
        &&& turn == Some(
            AcceptTurn {
                attempts: if turn_steps < EVENT_BATCH {
                    turn_steps
                } else {
                    EVENT_BATCH
                },
                progressed: false,
            },
        )
    } else {
        &&& pacing_after == pacing
        &&& turn is None
    }
}

impl AcceptPacing {
    /// A listener that has not been looked at yet.
    pub fn new() -> (pacing: AcceptPacing)
        ensures
            pacing.listener_ready,
            pacing.paused_at is None,
    {
        AcceptPacing { listener_ready: true, paused_at: None }
    }

    /// Returns the time until accepts may go on, in nanoseconds.
    #[must_use]
    pub fn accept_delay(&self, now: u64) -> (delay: u64)
        ensures
            delay == rest_of_pause(self.paused_at, now),
    {
        match self.paused_at {
            None => 0,
            Some(start) => STOP_RECHECK.saturating_sub(now.saturating_sub(start)),
        }
    }

    /// Returns how long the worker may wait for readiness, in nanoseconds: not at
    /// all with a runnable task, until the end of the pause with a connection
    /// pending, else until the next look at the stop request.
    #[must_use]
    pub fn poll_timeout(&self, has_ready: bool, now: u64) -> (timeout: u64)
        ensures
            timeout == wait_for(has_ready, *self, now),
            timeout <= STOP_RECHECK,
    {
        if has_ready {
            0
        } else if self.listener_ready {
            self.accept_delay(now)
        } else {
            STOP_RECHECK
        }
    }

    /// Begins a turn of attempts, unless no connection is pending or the pause is
    /// not over. The turn is as long as that of a task, up to the event batch.
    pub fn begin(&mut self, turn_steps: usize, now: u64) -> (turn: Option<AcceptTurn>)
        ensures
            begun_as(*old(self), *final(self), turn_steps, now, turn),
    {
        if !self.listener_ready || self.accept_delay(now) != 0 {
            return None;
        }
        self.paused_at = None;
        let attempts: usize = if turn_steps < EVENT_BATCH {
            turn_steps
        } else {
            EVENT_BATCH
        };
        Some(AcceptTurn { attempts, progressed: false })
    }

    /// Decides on the next attempt of a turn; returns whether to make it.
    ///
    /// A turn that used all its attempts without accepting a connection begins a
    /// pause. A stop ends the turn as it is.
    pub fn next_attempt(
        &mut self,
        turn: &mut AcceptTurn,
        summary: &mut RunSummary,
        stopping: bool,
        now: u64,
    ) -> (result: Result<bool, ReceiverFailure>)
        ensures
            attempt_decided(
                *old(turn),
                *final(turn),
                *old(self),
                *final(self),
                *old(summary),
                *final(summary),
                stopping,
                now,
                result,
            ),
    {
        if turn.attempts == 0 {
            if !turn.progressed {
                match summary.retry_quota_backoffs.checked_add(1) {
                    Some(count) => summary.retry_quota_backoffs = count,
                    None => return Err(ReceiverFailure::CounterExhausted),
                }
                self.paused_at = Some(now);
            }
            return Ok(false);
        }
        if stopping {
            return Ok(false);
        }
        turn.attempts = turn.attempts - 1;
        Ok(true)
    }

    /// Accounts for a failed attempt that does not end the worker; returns whether
    /// the turn goes on.
    pub fn attempt_failed(&mut self, summary: &mut RunSummary, scope: AcceptFailure, now: u64) -> (result:
        Result<bool, ReceiverFailure>)
        requires
            !(scope is Fatal),
        ensures
            forall|error: std::io::Error| #[trigger]
                failure_counted(
                    scope,
                    error,
                    *old(self),
                    *final(self),
                    *old(summary),
                    *final(summary),
                    now,
                    result,
                ),
    {
        match scope {
            AcceptFailure::Drained => {
                self.listener_ready = false;
                Ok(false)
            },
            AcceptFailure::Retry => {
                match summary.transient_accept_errors.checked_add(1) {
                    Some(count) => summary.transient_accept_errors = count,
                    None => return Err(ReceiverFailure::CounterExhausted),
                }
                Ok(true)
            },
            _ => {
                match summary.resource_pause_entries.checked_add(1) {
                    Some(count) => summary.resource_pause_entries = count,
                    None => return Err(ReceiverFailure::CounterExhausted),
                }
                self.paused_at = Some(now);
                Ok(false)
            },
        }
    }
}

/// A pause holds for its full length whatever readiness is reported meanwhile: no
/// turn begins before its end, and one can begin at its end without any new report.
pub proof fn law_pause_outlasts_readiness(paused_at: u64, now: u64)
    ensures
        rest_of_pause(Some(paused_at), now) == 0 <==> now >= paused_at + STOP_RECHECK,
        0 <= rest_of_pause(Some(paused_at), now) <= STOP_RECHECK,
        now >= paused_at && rest_of_pause(Some(paused_at), now) > 0 ==> now + rest_of_pause(
            Some(paused_at),
            now,
        ) == paused_at + STOP_RECHECK,
{
}

/// On every Linux machine the number of an accept failure decides its scope, whatever its
/// kind: nothing pending drains, a connection that failed by itself is retried at once, a
/// short resource pauses, and anything else is fatal.
pub proof fn law_numbers_decide_scopes(
    codes: ErrorCodes,
    code: i32,
    kind: ErrorKind,
    descriptors: bool,
)
    requires
        linux_codes(codes),
    ensures
        ({
            let scope = scope_of(codes, Some(code), kind, descriptors);
            &&& scope is Drained <==> code == 11
            &&& code == 1 || code == 4 ==> scope is Retry
            &&& code == 12 || code == 23 || code == 24 ==> scope is Pause
            &&& code <= 34 && code != 1 && code != 4 && code != 11 && code != 12 && code != 23
                && code != 24 ==> scope is Fatal
            &&& code == codes.connection_aborted || code == codes.connection_reset || code
                == codes.timed_out || code == codes.network_down || code == codes.protocol || code
                == codes.no_protocol_option || code == codes.host_down || code == codes.no_network
                || code == codes.host_unreachable || code == codes.not_supported || code
                == codes.network_unreachable || code == codes.socket_type || code
                == codes.protocol_type ==> scope is Retry
            &&& code == codes.no_buffers || code == codes.no_streams ==> scope is Pause
            &&& scope == scope_of(codes, Some(code), ErrorKind::Other, false)
        }),
{
}

/// Of an accept failure without a number the kind decides, as its number would, and the
/// numbers do not matter.
pub proof fn law_kinds_decide_without_numbers(
    one: ErrorCodes,
    other: ErrorCodes,
    kind: ErrorKind,
    descriptors: bool,
)
    ensures
        ({
            let scope = scope_of(one, None, kind, descriptors);
            &&& scope == scope_of(other, None, kind, descriptors)
            &&& scope is Drained <==> kind is WouldBlock
            &&& kind is Interrupted || kind is ConnectionAborted || kind is ConnectionReset || kind
                is TimedOut || kind is NetworkDown || kind is NetworkUnreachable || kind
                is HostUnreachable <==> scope is Retry
            &&& kind is OutOfMemory ==> scope is Pause
            &&& kind is WriteZero || kind is Other || kind is Unlisted ==> (scope is Pause
                <==> descriptors) && (scope is Fatal <==> !descriptors)
        }),
{
}

/// A pause lasts a tenth of a second: it is over exactly then, and until then the time
/// left and the time gone make it up.
pub proof fn law_pauses_last_a_tenth_of_a_second(start: u64, now: u64)
    requires
        start <= now,
    ensures
        rest_of_pause(Some(start), now) == 0 <==> now - start >= 100 * 1000 * 1000,
        now - start <= 100 * 1000 * 1000 ==> rest_of_pause(Some(start), now) + (now - start) == 100
            * 1000 * 1000,
        rest_of_pause(None, now) == 0,
{
}

/// A failed attempt is counted once, under its scope, and changes nothing else: only a
/// short resource begins a pause, only a drained listener loses its readiness, only a
/// failure that passes is tried again in the same turn, and only a fatal one is handed
/// out.
pub proof fn law_failed_attempts_are_counted_once(
    scope: AcceptFailure,
    error: std::io::Error,
    pacing: AcceptPacing,
    pacing_after: AcceptPacing,
    summary: RunSummary,
    summary_after: RunSummary,
    now: u64,
    on: bool,
)
    requires
        failure_counted(
            scope,
            error,
            pacing,
            pacing_after,
            summary,
            summary_after,
            now,
            Ok(on),
        ),
    ensures
        on <==> scope is Retry,
        !(scope is Fatal),
        pacing_after.listener_ready == (pacing.listener_ready && !(scope is Drained)),
        scope is Pause ==> pacing_after.paused_at == Some(now),
        !(scope is Pause) ==> pacing_after.paused_at == pacing.paused_at,
        summary_after.transient_accept_errors == summary.transient_accept_errors + if scope
            is Retry {
            1int
        } else {
            0
        },
        summary_after.resource_pause_entries == summary.resource_pause_entries + if scope
            is Pause {
            1int
        } else {
            0
        },
        summary_after.retry_quota_backoffs == summary.retry_quota_backoffs,
        summary_after.accepted == summary.accepted && summary_after.refused == summary.refused,
{
}

/// A failure that is handed out is the listener's own, or a counter is full.
pub proof fn law_accepts_fail_only_in_need(
    scope: AcceptFailure,
    error: std::io::Error,
    pacing: AcceptPacing,
    pacing_after: AcceptPacing,
    summary: RunSummary,
    summary_after: RunSummary,
    now: u64,
    failure: ReceiverFailure,
)
    requires
        failure_counted(
            scope,
            error,
            pacing,
            pacing_after,
            summary,
            summary_after,
            now,
            Err(failure),
        ),
    ensures
        summary_after == summary && pacing_after == pacing,
        scope is Fatal ==> failure == ReceiverFailure::Io(error),
        scope is Retry ==> summary.transient_accept_errors == u64::MAX,
        scope is Pause ==> summary.resource_pause_entries == u64::MAX,
        !(scope is Drained),
{
}

/// A turn makes no more attempts than it has, none once the worker stops, and pauses
/// exactly if it used them all up without accepting anything.
pub proof fn law_turns_without_progress_pause(
    turn: AcceptTurn,
    turn_after: AcceptTurn,
    pacing: AcceptPacing,
    pacing_after: AcceptPacing,
    summary: RunSummary,
    summary_after: RunSummary,
    stopping: bool,
    now: u64,
    attempt: bool,
)
    requires
        attempt_decided(
            turn,
            turn_after,
            pacing,
            pacing_after,
            summary,
            summary_after,
            stopping,
            now,
            Ok(attempt),
        ),
    ensures
        attempt <==> turn.attempts > 0 && !stopping,
        turn_after.attempts == turn.attempts - if attempt {
            1int
        } else {
            0
        },
        turn_after.progressed == turn.progressed,
        pacing_after.listener_ready == pacing.listener_ready,
        turn.attempts == 0 && !turn.progressed ==> pacing_after.paused_at == Some(now)
            && summary_after.retry_quota_backoffs == summary.retry_quota_backoffs + 1,
        turn.attempts > 0 || turn.progressed ==> pacing_after == pacing && summary_after == summary,
{
}

/// A worker waits no longer than a tenth of a second, not at all with work in hand, and
/// with a connection pending no longer than the pause lasts.
pub proof fn law_waits_are_bounded(has_ready: bool, pacing: AcceptPacing, now: u64)
    ensures
        0 <= wait_for(has_ready, pacing, now) <= 100 * 1000 * 1000,
        has_ready ==> wait_for(has_ready, pacing, now) == 0,
        !has_ready && pacing.listener_ready && pacing.paused_at is None ==> wait_for(
            has_ready,
            pacing,
            now,
        ) == 0,
        !has_ready && !pacing.listener_ready ==> wait_for(has_ready, pacing, now) == 100 * 1000
            * 1000,
        !has_ready && pacing.listener_ready ==> wait_for(has_ready, pacing, now) == rest_of_pause(
            pacing.paused_at,
            now,
        ),
{
}

/// Accepts begin exactly if a connection may be pending and no pause is on, with as many
/// attempts as a turn has steps, up to a batch.
pub proof fn law_accepts_begin_after_the_pause(
    pacing: AcceptPacing,
    pacing_after: AcceptPacing,
    turn_steps: usize,
    now: u64,
    turn: Option<AcceptTurn>,
)
    requires
        begun_as(pacing, pacing_after, turn_steps, now, turn),
        pacing.paused_at matches Some(start) ==> start <= now,
    ensures
        turn is Some <==> pacing.listener_ready && (pacing.paused_at matches Some(start) ==> now
            - start >= 100 * 1000 * 1000),
        turn is Some ==> (turn->0).attempts <= turn_steps && !(turn->0).progressed
            && pacing_after.paused_at is None,
        turn is Some ==> (turn->0).attempts == turn_steps || (turn->0).attempts == EVENT_BATCH,
        turn is None ==> pacing_after == pacing,
        pacing_after.listener_ready == pacing.listener_ready,
{
}

} // verus!
