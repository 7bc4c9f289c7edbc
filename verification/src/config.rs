//! Validated per-worker resource and scheduling capacities.
use vstd::prelude::*;

verus! {

/// Bytes in each connection's transport read buffer.
pub const READ_BYTES: usize = 4096;

/// Maximum number of readiness events collected in one poll.
pub const EVENT_BATCH: usize = 128;

const UUID_BYTES: u16 = 16;

/// A configuration that cannot admit the required incoming UUID.
#[derive(Clone, Copy, Debug, PartialEq, Eq, Structural)]
pub enum LimitsError {
    /// The scratch capacity is smaller than the sixteen-byte UUID payload.
    PayloadBelowUuid,
    /// Fixed buffer capacity for all admitted connections exceeds `usize`.
    FixedStorageOverflow,
}

/// Per-worker connection, handoff, payload and turn bounds.
///
/// The payload capacity is a caller-selected resource limit. It does not change
/// the wire protocol's sixteen-bit length domain. Fixed buffer storage is bounded
/// separately from the shared byte budget for retained output records.
#[derive(Clone, Copy, Debug, PartialEq, Eq, Structural)]
pub struct Limits {
    max_connections: usize,
    queue_slots: usize,
    payload_capacity: u16,
    turn_steps: usize,
    fixed_buffer_capacity: usize,
}

/// The capacities of a worker, as numbers.
pub struct Capacities {
    /// Simultaneously admitted connections.
    pub connections: nat,
    /// Records waiting in the handoff queue.
    pub queue_slots: nat,
    /// Payload bytes that one decoder can assemble.
    pub payload: nat,
    /// Accounted steps in one turn.
    pub turn_steps: nat,
}

impl Capacities {
    /// Read and decoder buffer bytes of all connections together.
    pub open spec fn fixed_buffers(self) -> nat {
        self.connections * (READ_BYTES as nat + self.payload)
    }
}

impl View for Limits {
    type V = Capacities;

    closed spec fn view(&self) -> Capacities {
        Capacities {
            connections: self.max_connections as nat,
            queue_slots: self.queue_slots as nat,
            payload: self.payload_capacity as nat,
            turn_steps: self.turn_steps as nat,
        }
    }
}

impl Limits {
    #[verifier::type_invariant]
    spec fn admitting(self) -> bool {
        &&& self.max_connections > 0
        &&& self.queue_slots > 0
        &&& self.turn_steps > 0
        &&& self.payload_capacity >= 16
        &&& self.fixed_buffer_capacity == self@.fixed_buffers()
    }

    /// Validates positive capacities for incoming UUID and audio observations.
    ///
    /// One step bounds a transport attempt or one parsing/copying/handoff action.
    /// The driver retains ready work when the turn's step budget is exhausted.
    pub fn new(
        max_connections: usize,
        queue_slots: usize,
        payload_capacity: u16,
        turn_steps: usize,
    ) -> (result: Result<Limits, LimitsError>)
        requires
            max_connections > 0,
            queue_slots > 0,
            payload_capacity > 0,
            turn_steps > 0,
        ensures
            ({
                let wanted = Capacities {
                    connections: max_connections as nat,
                    queue_slots: queue_slots as nat,
                    payload: payload_capacity as nat,
                    turn_steps: turn_steps as nat,
                };
                match result {
                    Ok(limits) => {
                        &&& limits@ == wanted
                        &&& payload_capacity >= 16
                        &&& wanted.fixed_buffers() <= usize::MAX
                    },
                    Err(LimitsError::PayloadBelowUuid) => payload_capacity < 16,
                    Err(LimitsError::FixedStorageOverflow) => payload_capacity >= 16
                        && wanted.fixed_buffers() > usize::MAX,
                }
            }),
    {
        if payload_capacity < UUID_BYTES {
            return Err(LimitsError::PayloadBelowUuid);
        }
        match max_connections.checked_mul(READ_BYTES + payload_capacity as usize) {
            None => Err(LimitsError::FixedStorageOverflow),
            Some(fixed_buffer_capacity) => Ok(
                Limits {
                    max_connections,
                    queue_slots,
                    payload_capacity,
                    turn_steps,
                    fixed_buffer_capacity,
                },
            ),
        }
    }

    /// Maximum simultaneously admitted connections.
    #[must_use]
    pub fn max_connections(self) -> (connections: usize)
        ensures
            connections == self@.connections,
            connections > 0,
    {
        proof {
            use_type_invariant(self);
        }
        self.max_connections
    }

    /// Maximum records waiting in the handoff channel.
    #[must_use]
    pub fn queue_slots(self) -> (slots: usize)
        ensures
            slots == self@.queue_slots,
            slots > 0,
    {
        proof {
            use_type_invariant(self);
        }
        self.queue_slots
    }

    /// Maximum payload bytes that one decoder can assemble.
    #[must_use]
    pub fn payload_capacity(self) -> (payload: usize)
        ensures
            payload == self@.payload,
            16 <= payload <= 65_535,
    {
        proof {
            use_type_invariant(self);
        }
        self.payload_capacity as usize
    }

    /// Maximum accounted steps before a ready task yields its turn.
    #[must_use]
    pub fn turn_steps(self) -> (steps: usize)
        ensures
            steps == self@.turn_steps,
            steps > 0,
    {
        proof {
            use_type_invariant(self);
        }
        self.turn_steps
    }

    /// Upper bound of accessible read and decoder buffer capacity for this worker.
    ///
    /// Task metadata, maps, queue entries, allocator bookkeeping, stacks and OS
    /// socket buffers are outside this number. Retained output uses `ByteBudget`.
    #[must_use]
    pub fn fixed_buffer_capacity(self) -> (bytes: usize)
        ensures
            bytes == self@.fixed_buffers(),
    {
        proof {
            use_type_invariant(self);
        }
        self.fixed_buffer_capacity
    }
}

} // verus!
