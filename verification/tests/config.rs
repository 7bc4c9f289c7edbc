//! Validated worker capacities.
use phonowire::options::{Config, Options};
use phonowire::{Limits, LimitsError};

#[test]
fn fixed_storage_bound_covers_every_admitted_buffer() {
    let limits = Limits::new(3, 1, 320, 2).expect("capacities admit the profile");
    assert_eq!(limits.fixed_buffer_capacity(), 3 * (4096 + 320));
    assert_eq!(limits.max_connections(), 3);
}

#[test]
fn unusable_uuid_and_overflowing_fixed_storage_are_refused() {
    assert_eq!(
        Limits::new(1, 1, 1, 1),
        Err(LimitsError::PayloadBelowUuid)
    );
    assert_eq!(
        Limits::new(usize::MAX, 1, 16, 1),
        Err(LimitsError::FixedStorageOverflow)
    );
}

#[test]
fn limits_give_back_what_they_were_made_of() {
    let limits = Limits::new(2, 5, 16, 7).expect("smallest payload");
    assert_eq!(limits.queue_slots(), 5);
    assert_eq!(limits.payload_capacity(), 16);
    assert_eq!(limits.turn_steps(), 7);
    assert_eq!(
        LimitsError::PayloadBelowUuid.message(),
        "payload capacity is below 16 UUID bytes"
    );
    assert_eq!(
        LimitsError::FixedStorageOverflow.message(),
        "fixed buffer capacity exceeds usize"
    );
}

fn arguments(given: &[&str]) -> Vec<String> {
    given.iter().map(|argument| argument.to_string()).collect()
}

#[test]
fn complaints_come_in_their_order() {
    let none = Options::read(&arguments(&["capture"])).expect("no options");
    assert_eq!(
        none.settle(false, false).err().expect("output"),
        "--output is required"
    );
    let wrong = Options::read(&arguments(&[
        "capture",
        "--output",
        "out",
        "--queue-records",
        "x",
    ]))
    .expect("options");
    assert_eq!(
        wrong.settle(false, false).err().expect("address"),
        "invalid --listen"
    );
    assert_eq!(
        wrong.settle(true, false).err().expect("number"),
        "invalid --queue-records"
    );
    let zero = Options::read(&arguments(&[
        "capture",
        "--output",
        "out",
        "--queue-records",
        "0",
    ]))
    .expect("options");
    assert_eq!(
        zero.settle(true, false).err().expect("directory"),
        "--output must be an existing directory"
    );
    assert_eq!(
        zero.settle(true, true).err().expect("limits"),
        "receiver and recording limits must be positive"
    );
    let right = Options::read(&arguments(&["capture", "--output", "out"])).expect("options");
    let (output, config) = right.settle(true, true).expect("settled");
    assert_eq!(output, "out");
    assert_eq!(config.receiver_limits().expect("limits").queue_slots(), 128);
}

#[test]
fn receiver_limits_name_the_first_that_cannot_be_had() {
    let right = Options::read(&arguments(&["capture", "--output", "out"])).expect("options");
    let config = || right.limits().expect("limits");
    for (config, complaint) in [
        (
            Config {
                connections: 0,
                queue: 0,
                ..config()
            },
            "max connections is zero",
        ),
        (
            Config {
                queue: 0,
                ..config()
            },
            "queue is zero",
        ),
        (
            Config {
                payload: 0,
                ..config()
            },
            "payload is zero",
        ),
        (
            Config {
                turns: 0,
                ..config()
            },
            "turn steps is zero",
        ),
        (
            Config {
                payload: 15,
                ..config()
            },
            "payload capacity is below 16 UUID bytes",
        ),
        (
            Config {
                connections: usize::MAX,
                retained: 0,
                ..config()
            },
            "fixed buffer capacity exceeds usize",
        ),
        (
            Config {
                retained: 0,
                ..config()
            },
            "retained bytes is zero",
        ),
    ] {
        assert_eq!(config.receiver_limits().err().expect("refused"), complaint);
    }
}
