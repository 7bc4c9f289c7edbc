//! Notices from other threads to one worker.
use vstd::prelude::*;

use crate::platform::{error_of_kind, kind_of, platform_code, platform_code_of, portable};

verus! {

/// A notice to a worker.
#[derive(Clone, Copy, Debug, PartialEq, Eq, Structural)]
pub enum Signal {
    /// A slot of the handoff queue came free.
    Queue,
    /// Retained bytes were released.
    Bytes,
    /// The worker is to stop.
    Stop,
    /// The record consumer is gone.
    Disconnected,
}

/// What is kept of a failure to wake the worker.
pub struct WakeFailure {
    /// The platform's number, if it has one.
    pub code: Option<i32>,
    /// The kind.
    pub kind: std::io::ErrorKind,
}

/// Whether this is what is kept of an error.
pub open spec fn kept_of(error: std::io::Error, failure: WakeFailure) -> bool {
    &&& failure.code == platform_code_of(error)
    &&& portable(error) ==> failure.kind == kind_of(error)
}

/// The notices that a worker has not dealt with.
///
/// Credits are taken: any number of them before a look is one. A stop and a
/// disconnection stay. Of the failures to wake the worker the first is kept until it
/// is taken.
pub struct Signals {
    queue: bool,
    bytes: bool,
    stop: bool,
    disconnected: bool,
    failure: Option<WakeFailure>,
}

/// Which notices are there.
pub struct Notices {
    /// Queue credit.
    pub queue: bool,
    /// Byte credit.
    pub bytes: bool,
    /// A requested stop.
    pub stop: bool,
    /// A consumer that is gone.
    pub disconnected: bool,
    /// A failure to wake the worker.
    pub failure: Option<WakeFailure>,
}

impl Notices {
    /// The notices when a signal was given.
    pub open spec fn told(self, signal: Signal) -> Notices {
        match signal {
            Signal::Queue => Notices { queue: true, ..self },
            Signal::Bytes => Notices { bytes: true, ..self },
            Signal::Stop => Notices { stop: true, ..self },
            Signal::Disconnected => Notices { disconnected: true, ..self },
        }
    }
}

impl View for Signals {
    type V = Notices;

    closed spec fn view(&self) -> Notices {
        Notices {
            queue: self.queue,
            bytes: self.bytes,
            stop: self.stop,
            disconnected: self.disconnected,
            failure: self.failure,
        }
    }
}

impl Signals {
    /// Creates an empty set of notices.
    #[must_use]
    pub fn new() -> (signals: Signals)
        ensures
            signals@ == (Notices {
                queue: false,
                bytes: false,
                stop: false,
                disconnected: false,
                failure: None,
            }),
    {
        Signals { queue: false, bytes: false, stop: false, disconnected: false, failure: None }
    }

    /// Leaves a notice.
    pub fn publish(&mut self, signal: Signal)
        ensures
            final(self)@ == old(self)@.told(signal),
    {
        match signal {
            Signal::Queue => {
                self.queue = true;
            },
            Signal::Bytes => {
                self.bytes = true;
            },
            Signal::Stop => {
                self.stop = true;
            },
            Signal::Disconnected => {
                self.disconnected = true;
            },
        }
    }

    /// Remembers the number and the kind of a failure to wake the worker, unless one is
    /// remembered.
    pub fn remember(&mut self, error: &std::io::Error)
        ensures
            final(self)@ == (Notices { failure: final(self)@.failure, ..old(self)@ }),
            match old(self)@.failure {
                Some(first) => final(self)@.failure == Some(first),
                None => final(self)@.failure matches Some(failure) && kept_of(*error, failure),
            },
    {
        if self.failure.is_none() {
            self.failure = Some(WakeFailure { code: platform_code(error), kind: error.kind() });
        }
    }

    /// Takes the remembered failure, as an error with its number or, where it has none,
    /// of its kind.
    pub fn take_failure(&mut self) -> (taken: Option<std::io::Error>)
        ensures
            final(self)@ == (Notices { failure: None, ..old(self)@ }),
            match old(self)@.failure {
                None => taken is None,
                Some(failure) => {
                    &&& taken matches Some(error)
                    &&& platform_code_of(error) == failure.code
                    &&& failure.code is None ==> kind_of(error) == failure.kind
                },
            },
    {
        match self.failure.take() {
            None => None,
            Some(failure) => match failure.code {
                Some(code) => Some(std::io::Error::from_raw_os_error(code)),
                None => Some(error_of_kind(failure.kind)),
            },
        }
    }

    /// Returns whether the worker is to stop.
    #[must_use]
    pub fn stop_requested(&self) -> (stop: bool)
        ensures
            stop == self@.stop,
    {
        self.stop
    }

    /// Returns whether the consumer is gone.
    #[must_use]
    pub fn disconnected(&self) -> (disconnected: bool)
        ensures
            disconnected == self@.disconnected,
    {
        self.disconnected
    }

    /// Takes the queue credit.
    pub fn take_queue_credit(&mut self) -> (credit: bool)
        ensures
            credit == old(self)@.queue,
            final(self)@ == (Notices { queue: false, ..old(self)@ }),
    {
        let credit: bool = self.queue;
        self.queue = false;
        credit
    }

    /// Takes the byte credit.
    pub fn take_byte_credit(&mut self) -> (credit: bool)
        ensures
            credit == old(self)@.bytes,
            final(self)@ == (Notices { bytes: false, ..old(self)@ }),
    {
        let credit: bool = self.bytes;
        self.bytes = false;
        credit
    }
}

/// A signal leaves its own notice and no other. Signals given twice count once, and their
/// order leaves no trace.
pub proof fn law_signals_leave_their_notices(notices: Notices, signal: Signal, other: Signal)
    ensures
        notices.told(signal).queue == (notices.queue || signal is Queue),
        notices.told(signal).bytes == (notices.bytes || signal is Bytes),
        notices.told(signal).stop == (notices.stop || signal is Stop),
        notices.told(signal).disconnected == (notices.disconnected || signal is Disconnected),
        notices.told(signal).failure == notices.failure,
        notices.told(signal).told(signal) == notices.told(signal),
        notices.told(signal).told(other) == notices.told(other).told(signal),
{
}

/// What is kept of a failure names the same platform number, and two things kept of one
/// error agree wherever its kind is portable.
pub proof fn law_kept_failures_name_their_number(
    error: std::io::Error,
    failure: WakeFailure,
    other: WakeFailure,
)
    requires
        kept_of(error, failure),
        kept_of(error, other),
    ensures
        failure.code == platform_code_of(error),
        failure.code == other.code,
        portable(error) ==> failure.kind == kind_of(error) && failure == other,
{
}

} // verus!
