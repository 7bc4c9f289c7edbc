//! The order of a worker's passes.
use phonowire::pass::{Pass, PassAction, PassEvent, PassStage};
use phonowire::scheduler::WaitReason;
use phonowire::worker::TURN_BATCH;
use phonowire::StopCause;

const QUIET: PassEvent = PassEvent::Seen {
    failure: false,
    stop: None,
};

fn to_turns() -> Pass {
    let mut pass = Pass::new();
    assert_eq!(pass.stage_now(), PassStage::Beginning);
    assert_eq!(pass.next(QUIET), PassAction::Credit(WaitReason::Queue));
    assert_eq!(
        pass.next(PassEvent::Done),
        PassAction::Credit(WaitReason::Bytes)
    );
    assert_eq!(pass.next(PassEvent::Done), PassAction::Close);
    assert_eq!(pass.next(PassEvent::Done), PassAction::Look);
    pass
}

#[test]
fn a_pass_runs_turns_until_none_is_coming_and_then_accepts_and_waits() {
    let mut pass = to_turns();
    for _ in 0..3 {
        assert_eq!(pass.next(QUIET), PassAction::Turn);
        assert_eq!(pass.next(PassEvent::Ran(true)), PassAction::Look);
    }
    assert_eq!(pass.next(QUIET), PassAction::Turn);
    assert_eq!(pass.next(PassEvent::Ran(false)), PassAction::Look);
    assert_eq!(pass.next(QUIET), PassAction::Accept);
    assert_eq!(pass.next(PassEvent::Done), PassAction::Wait);
    assert_eq!(pass.next(PassEvent::Done), PassAction::Look);
    assert_eq!(pass.stage_now(), PassStage::Beginning);
}

#[test]
fn a_pass_runs_at_most_a_batch_of_turns() {
    let mut pass = to_turns();
    for _ in 0..TURN_BATCH {
        assert_eq!(pass.next(QUIET), PassAction::Turn);
        assert_eq!(pass.next(PassEvent::Ran(true)), PassAction::Look);
    }
    assert_eq!(pass.next(QUIET), PassAction::Accept);
}

#[test]
fn a_failure_comes_before_a_stop_and_a_stop_before_everything_else() {
    let both = PassEvent::Seen {
        failure: true,
        stop: Some(StopCause::Requested),
    };
    assert_eq!(Pass::new().next(both), PassAction::Fail);
    let stop = PassEvent::Seen {
        failure: false,
        stop: Some(StopCause::ConsumerDisconnected),
    };
    assert_eq!(
        Pass::new().next(stop),
        PassAction::Stop(StopCause::ConsumerDisconnected)
    );
    let mut pass = to_turns();
    assert_eq!(pass.next(both), PassAction::Stop(StopCause::Requested));
    assert_eq!(pass.stage_now(), PassStage::Over);
}
