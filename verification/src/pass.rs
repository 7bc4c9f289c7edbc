//! The order in which a worker attends to its notices, its tasks and its listener.
use vstd::prelude::*;

use crate::scheduler::WaitReason;
use crate::summary::StopCause;
use crate::worker::TURN_BATCH;

verus! {

/// What a pass of the worker asks for.
#[derive(Clone, Copy, Debug, PartialEq, Eq, Structural)]
pub enum PassAction {
    /// Look for a failure to wake the worker and for a stop.
    Look,
    /// Take the credit of a resource, and resume its oldest request if there was any.
    Credit(WaitReason),
    /// Close the connections whose closing was requested.
    Close,
    /// Run the turn that is coming first, if any is.
    Turn,
    /// Accept connections, as far as they are pending and the pacing allows.
    Accept,
    /// Wait for readiness and take it in.
    Wait,
    /// End with the failure that was seen.
    Fail,
    /// End with this cause.
    Stop(StopCause),
}

/// What came of what was asked for.
#[derive(Clone, Copy, Debug, PartialEq, Eq, Structural)]
pub enum PassEvent {
    /// What a look found.
    Seen {
        /// A failure to wake the worker.
        failure: bool,
        /// Why the worker is to stop.
        stop: Option<StopCause>,
    },
    /// Whether a turn was coming, which was run.
    Ran(bool),
    /// Anything else was done.
    Done,
}

/// Where a pass stands.
#[derive(Clone, Copy, Debug, PartialEq, Eq, Structural)]
pub enum PassStage {
    /// The look that begins a pass is taken.
    Beginning,
    /// The queue credit is taken.
    QueueCredit,
    /// The byte credit is taken.
    ByteCredit,
    /// Connections are closed.
    Closing,
    /// The look before a turn, or before accepts, is taken.
    Looking,
    /// A turn is run.
    Turning,
    /// Connections are accepted.
    Accepting,
    /// The worker waits.
    Waiting,
    /// The worker ended.
    Over,
}

/// The passes of one worker.
pub struct Pass {
    stage: PassStage,
    turns: usize,
    ran: Ghost<nat>,
}

/// Whether a look in this place ends the worker, and how.
pub open spec fn ending(stage: PassStage, failure: bool, stop: Option<StopCause>) -> Option<
    PassAction,
> {
    if stage is Beginning && failure {
        Some(PassAction::Fail)
    } else {
        match stop {
            Some(cause) => Some(PassAction::Stop(cause)),
            None => None,
        }
    }
}

impl Pass {
    /// Where the pass stands.
    pub closed spec fn stage(self) -> PassStage {
        self.stage
    }

    /// How many turns may still be run in this pass.
    pub closed spec fn turns(self) -> nat {
        self.turns as nat
    }

    /// How many turns were run in this pass.
    pub closed spec fn ran(self) -> nat {
        self.ran@
    }

    /// The turns that were run and those that may be do not exceed those of a pass, and
    /// none was run before the first.
    pub closed spec fn wf(self) -> bool {
        &&& self.ran@ + self.turns <= TURN_BATCH
        &&& self.stage is QueueCredit || self.stage is ByteCredit || self.stage is Closing
            ==> self.ran@ == 0
    }

    /// Whether this is what can come of what was asked for.
    pub open spec fn expects(self, event: PassEvent) -> bool {
        match self.stage() {
            PassStage::Beginning | PassStage::Looking => event is Seen,
            PassStage::Turning => event is Ran,
            PassStage::Over => false,
            _ => event is Done,
        }
    }

    /// Begins the first pass, with a look.
    #[must_use]
    pub fn new() -> (pass: Pass)
        ensures
            pass.wf(),
            pass.stage() is Beginning,
            pass.turns() == 0,
            pass.ran() == 0,
    {
        Pass { stage: PassStage::Beginning, turns: 0, ran: Ghost(0) }
    }

    /// Returns where the pass stands.
    #[must_use]
    pub fn stage_now(&self) -> (stage: PassStage)
        ensures
            stage == self.stage(),
    {
        self.stage
    }

    /// What follows: credits, closings, turns with a look before each, a last look,
    /// accepts and a wait, and then the next pass.
    pub open spec fn follows(self, old: Pass, event: PassEvent, action: PassAction) -> bool {
        match (old.stage(), event) {
            (PassStage::Beginning | PassStage::Looking, PassEvent::Seen { failure, stop }) => {
                if ending(old.stage(), failure, stop) is Some {
                    &&& action == ending(old.stage(), failure, stop)->0
                    &&& self.stage() is Over
                    &&& self.ran() == old.ran()
                } else if old.stage() is Beginning {
                    &&& action == PassAction::Credit(WaitReason::Queue)
                    &&& self.stage() is QueueCredit
                    &&& self.ran() == 0
                } else if old.turns() > 0 {
                    &&& action == PassAction::Turn
                    &&& self.stage() is Turning
                    &&& self.turns() == old.turns() - 1
                    &&& self.ran() == old.ran() + 1
                } else {
                    &&& action == PassAction::Accept
                    &&& self.stage() is Accepting
                    &&& self.ran() == old.ran()
                }
            },
            (PassStage::Turning, PassEvent::Ran(ran)) => {
                &&& action == PassAction::Look
                &&& self.stage() is Looking
                &&& self.turns() == if ran {
                    old.turns()
                } else {
                    0
                }
                &&& self.ran() == old.ran()
            },
            (PassStage::QueueCredit, _) => {
                &&& action == PassAction::Credit(WaitReason::Bytes)
                &&& self.stage() is ByteCredit
                &&& self.ran() == old.ran()
            },
            (PassStage::ByteCredit, _) => {
                &&& action == PassAction::Close
                &&& self.stage() is Closing
                &&& self.ran() == old.ran()
            },
            (PassStage::Closing, _) => {
                &&& action == PassAction::Look
                &&& self.stage() is Looking
                &&& self.turns() == TURN_BATCH
                &&& self.ran() == old.ran()
            },
            (PassStage::Accepting, _) => {
                &&& action == PassAction::Wait
                &&& self.stage() is Waiting
                &&& self.ran() == old.ran()
            },
            (PassStage::Waiting, _) => {
                &&& action == PassAction::Look
                &&& self.stage() is Beginning
                &&& self.ran() == old.ran()
            },
            _ => false,
        }
    }

    /// Takes in what came of what was asked for, and returns what is asked for next.
    pub fn next(&mut self, event: PassEvent) -> (action: PassAction)
        requires
            old(self).wf(),
            old(self).expects(event),
        ensures
            final(self).wf(),
            final(self).follows(*old(self), event, action),
    {
        match (self.stage, event) {
            (PassStage::Beginning, PassEvent::Seen { failure, stop }) => {
                if failure {
                    self.stage = PassStage::Over;
                    return PassAction::Fail;
                }
                if let Some(cause) = stop {
                    self.stage = PassStage::Over;
                    return PassAction::Stop(cause);
                }
                self.stage = PassStage::QueueCredit;
                self.turns = 0;
                proof {
                    self.ran@ = 0;
                }
                PassAction::Credit(WaitReason::Queue)
            },
            (PassStage::QueueCredit, _) => {
                self.stage = PassStage::ByteCredit;
                PassAction::Credit(WaitReason::Bytes)
            },
            (PassStage::ByteCredit, _) => {
                self.stage = PassStage::Closing;
                PassAction::Close
            },
            (PassStage::Closing, _) => {
                self.stage = PassStage::Looking;
                self.turns = TURN_BATCH;
                PassAction::Look
            },
            (PassStage::Looking, PassEvent::Seen { stop, .. }) => {
                if let Some(cause) = stop {
                    self.stage = PassStage::Over;
                    return PassAction::Stop(cause);
                }
                if self.turns == 0 {
                    self.stage = PassStage::Accepting;
                    return PassAction::Accept;
                }
                self.stage = PassStage::Turning;
                self.turns = self.turns - 1;
                proof {
                    self.ran@ = self.ran@ + 1;
                }
                PassAction::Turn
            },
            (PassStage::Turning, PassEvent::Ran(ran)) => {
                self.stage = PassStage::Looking;
                if !ran {
                    self.turns = 0;
                }
                PassAction::Look
            },
            (PassStage::Accepting, _) => {
                self.stage = PassStage::Waiting;
                PassAction::Wait
            },
            _ => {
                self.stage = PassStage::Beginning;
                PassAction::Look
            },
        }
    }
}

/// A pass runs no more turns than its batch, so that notices, closings and accepts are
/// attended to whatever the tasks do.
pub proof fn law_passes_run_a_bounded_number_of_turns(pass: Pass)
    requires
        pass.wf(),
    ensures
        pass.ran() <= TURN_BATCH,
{
}

/// Once a stop was seen, no turn is run and nothing is accepted or waited for.
pub proof fn law_a_seen_stop_ends_the_worker(
    old: Pass,
    pass: Pass,
    failure: bool,
    cause: StopCause,
    action: PassAction,
)
    requires
        old.expects(PassEvent::Seen { failure, stop: Some(cause) }),
        pass.follows(old, PassEvent::Seen { failure, stop: Some(cause) }, action),
    ensures
        pass.stage() is Over,
        action == PassAction::Stop(cause) || (failure && action == PassAction::Fail),
{
}

/// A pass attends to everything in its order: the queue credit after the look that begins
/// it, then the byte credit, then closings, then turns with a look before each, then
/// accepts once no turn is left, then the wait, and then the next pass. What is asked for
/// is what the pass then stands at.
pub proof fn law_passes_keep_their_order(
    old: Pass,
    pass: Pass,
    event: PassEvent,
    action: PassAction,
)
    requires
        old.expects(event),
        pass.follows(old, event, action),
    ensures
        pass.stage() is QueueCredit <==> action == PassAction::Credit(WaitReason::Queue),
        pass.stage() is ByteCredit <==> action == PassAction::Credit(WaitReason::Bytes),
        pass.stage() is Closing <==> action is Close,
        pass.stage() is Turning <==> action is Turn,
        pass.stage() is Accepting <==> action is Accept,
        pass.stage() is Waiting <==> action is Wait,
        pass.stage() is Looking || pass.stage() is Beginning <==> action is Look,
        pass.stage() is QueueCredit ==> old.stage() is Beginning,
        pass.stage() is ByteCredit <==> old.stage() is QueueCredit,
        pass.stage() is Closing <==> old.stage() is ByteCredit,
        pass.stage() is Looking <==> old.stage() is Closing || old.stage() is Turning,
        pass.stage() is Turning ==> old.stage() is Looking && old.turns() > 0,
        pass.stage() is Accepting ==> old.stage() is Looking && old.turns() == 0,
        pass.stage() is Waiting <==> old.stage() is Accepting,
        pass.stage() is Beginning <==> old.stage() is Waiting,
        pass.stage() is Over ==> event is Seen,
{
}

} // verus!
