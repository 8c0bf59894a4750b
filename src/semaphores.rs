//! The four stage gates of an upload session and how they are sized.
use vstd::prelude::*;
use futures_intrusive::sync::SharedSemaphore;
use crate::gate::{Gate, GateState};

verus! {

/// Megabytes of file data loaded at once. Encodings may use more memory.
pub const MAX_SIMULTANEOUS_LOADED_MB: usize = 50;

/// Chunks whose whole create-with-retry workflow may run at once.
pub const MAX_SIMULTANEOUS_CREATE_CHUNK: usize = 50;

/// Outbound create-chunk calls in flight at once.
pub const MAX_SIMULTANEOUS_CREATE_CHUNK_CALLS: usize = 25;

/// Awaited create-chunk responses at once.
pub const MAX_SIMULTANEOUS_CREATE_CHUNK_WAITS: usize = 25;

/// Bytes in one unit of the file-load gate.
pub const BYTES_PER_MB: usize = 1_000_000;

/// The capacity of each stage's gate.
#[derive(Clone, Copy, Debug, PartialEq, Eq)]
pub struct StageCapacities {
    /// Megabytes of raw file data being read and encoded.
    pub file_load_mb: usize,
    /// Chunks inside their create-with-retry workflow. Kept wider than the two
    /// call gates, so that those, not this one, bind while chunks retry: a chunk
    /// in mid-retry then competes with fresh chunks instead of queueing behind
    /// all of them.
    pub create_chunk: usize,
    /// Outbound create-chunk calls, over all chunks and all their attempts.
    pub create_chunk_call: usize,
    /// Pending create-chunk responses.
    pub create_chunk_wait: usize,
}

impl StageCapacities {
    pub open spec fn wf(&self) -> bool {
        &&& self.file_load_mb > 0
        &&& self.create_chunk > 0
        &&& self.create_chunk_call > 0
        &&& self.create_chunk_wait > 0
    }

    /// The tuned sizes of an upload session.
    pub open spec fn standard_spec() -> StageCapacities {
        StageCapacities {
            file_load_mb: MAX_SIMULTANEOUS_LOADED_MB,
            create_chunk: MAX_SIMULTANEOUS_CREATE_CHUNK,
            create_chunk_call: MAX_SIMULTANEOUS_CREATE_CHUNK_CALLS,
            create_chunk_wait: MAX_SIMULTANEOUS_CREATE_CHUNK_WAITS,
        }
    }

    /// The tuned sizes of an upload session.
    pub fn standard() -> (r: StageCapacities)
        ensures
            r == Self::standard_spec(),
            r.wf(),
    {
        StageCapacities {
            file_load_mb: MAX_SIMULTANEOUS_LOADED_MB,
            create_chunk: MAX_SIMULTANEOUS_CREATE_CHUNK,
            create_chunk_call: MAX_SIMULTANEOUS_CREATE_CHUNK_CALLS,
            create_chunk_wait: MAX_SIMULTANEOUS_CREATE_CHUNK_WAITS,
        }
    }
}

/// The file-load weight of a file of `byte_len` bytes: its size in megabytes,
/// rounded up, at least one unit, and at most the file-load gate's whole `capacity`, so
/// that a file larger than the budget is loaded alone rather than never.
pub open spec fn file_weight_spec(byte_len: nat, capacity: nat) -> nat {
    let mb: nat = if byte_len == 0 {
        1
    } else {
        ((byte_len + BYTES_PER_MB - 1) / (BYTES_PER_MB as int)) as nat
    };
    if mb > capacity {
        capacity
    } else {
        mb
    }
}

/// Converts a file's size in bytes to the units of the file-load gate.
pub fn file_load_weight(byte_len: usize, capacity: usize) -> (r: usize)
    requires
        capacity > 0,
    ensures
        r == file_weight_spec(byte_len as nat, capacity as nat),
        1 <= r <= capacity,
{
    let mb: usize = if byte_len == 0 {
        1
    } else {
        byte_len / BYTES_PER_MB + if byte_len % BYTES_PER_MB == 0 {
            0usize
        } else {
            1usize
        }
    };
    proof {
        if byte_len > 0 {
            let b = byte_len as int;
            let m = BYTES_PER_MB as int;
            assert((b + m - 1) / m == b / m + if b % m == 0 {
                0int
            } else {
                1int
            }) by (nonlinear_arith)
                requires
                    b > 0,
                    m == 1_000_000,
            ;
            assert(b / m >= 0 && (b % m != 0 || b / m >= 1)) by (nonlinear_arith)
                requires
                    b > 0,
                    m == 1_000_000,
            ;
        }
    }
    if mb > capacity {
        capacity
    } else {
        mb
    }
}

/// One stage's futures-intrusive semaphore, which the upload tasks share and
/// await on. It changes through shared references as tasks come and go, so
/// nothing about its count is stated here.
#[verifier::external_body]
pub struct StageSemaphore {
    pub semaphore: SharedSemaphore,
}

/// The number of permits a stage's semaphore was made with: its capacity.
pub uninterp spec fn made_with_permits(s: StageSemaphore) -> nat;

/// Whether a stage's semaphore was made fair, granting waiters in arrival order.
pub uninterp spec fn made_fair(s: StageSemaphore) -> bool;

/// Relies on futures-intrusive's `SharedSemaphore::new`: with `is_fair` set,
/// the semaphore grants waiters in arrival order and starts with `permits`
/// permits.
#[verifier::external_body]
fn fair_semaphore(permits: usize) -> (r: StageSemaphore)
    ensures
        made_with_permits(r) == permits as nat,
        made_fair(r),
{
    StageSemaphore { semaphore: SharedSemaphore::new(true, permits) }
}

/// The semaphores of one upload session, one per stage, each sized by
/// `capacities`.
pub struct Semaphores {
    /// Bounds how much file data is loaded at once, in megabytes. A loaded
    /// file's data may be encoded while it is held.
    pub file: StageSemaphore,
    /// Bounds the chunks whose creation is under way. Each creation may retry,
    /// and this gate focuses retries on fewer chunks: without it every chunk
    /// would make its first attempt before any made its second.
    pub create_chunk: StageSemaphore,
    /// Bounds the simultaneous create-chunk calls.
    pub create_chunk_call: StageSemaphore,
    /// Bounds the simultaneous waits for create-chunk results.
    pub create_chunk_wait: StageSemaphore,
    pub capacities: StageCapacities,
}

impl Semaphores {
    /// Each semaphore was made fair, with the permits that `c` gives its stage.
    pub open spec fn made_with(&self, c: StageCapacities) -> bool {
        &&& made_with_permits(self.file) == c.file_load_mb as nat
        &&& made_with_permits(self.create_chunk) == c.create_chunk as nat
        &&& made_with_permits(self.create_chunk_call) == c.create_chunk_call as nat
        &&& made_with_permits(self.create_chunk_wait) == c.create_chunk_wait as nat
        &&& made_fair(self.file)
        &&& made_fair(self.create_chunk)
        &&& made_fair(self.create_chunk_call)
        &&& made_fair(self.create_chunk_wait)
    }

    /// The semaphores of a session, with the standard sizes: 50 megabytes of
    /// file data, 50 chunks in creation, 25 calls and 25 waits.
    pub fn new() -> (r: Semaphores)
        ensures
            r.capacities == StageCapacities::standard_spec(),
            r.made_with(StageCapacities::standard_spec()),
            made_with_permits(r.file) == 50,
            made_with_permits(r.create_chunk) == 50,
            made_with_permits(r.create_chunk_call) == 25,
            made_with_permits(r.create_chunk_wait) == 25,
            made_with_permits(r.create_chunk) > made_with_permits(r.create_chunk_call),
            made_with_permits(r.create_chunk) > made_with_permits(r.create_chunk_wait),
    {
        Self::with_capacities(StageCapacities::standard())
    }

    /// The semaphores of a session, with the given sizes.
    pub fn with_capacities(capacities: StageCapacities) -> (r: Semaphores)
        requires
            capacities.wf(),
        ensures
            r.capacities == capacities,
            r.made_with(capacities),
    {
        Semaphores {
            file: fair_semaphore(capacities.file_load_mb),
            create_chunk: fair_semaphore(capacities.create_chunk),
            create_chunk_call: fair_semaphore(capacities.create_chunk_call),
            create_chunk_wait: fair_semaphore(capacities.create_chunk_wait),
            capacities,
        }
    }
}

/// The state of an empty gate with identity `id` and `capacity` units.
pub open spec fn empty_gate(id: u64, capacity: nat) -> GateState {
    GateState {
        id,
        capacity,
        outstanding: 0,
        waiting: Seq::empty(),
        held: Seq::empty(),
        next_ticket: 0,
    }
}

/// The four stage gates of a session as verified state machines, for a driver
/// that keeps gate state itself and wakes tasks with the leases each step
/// grants. Each gate has its own identity, so a lease goes back only to the
/// gate that granted it.
pub struct StageGates {
    pub file: Gate,
    pub create_chunk: Gate,
    pub create_chunk_call: Gate,
    pub create_chunk_wait: Gate,
}

impl StageGates {
    pub open spec fn wf(&self) -> bool {
        &&& self.file.wf()
        &&& self.create_chunk.wf()
        &&& self.create_chunk_call.wf()
        &&& self.create_chunk_wait.wf()
    }

    /// Four empty gates sized by `capacities`.
    pub fn new(capacities: StageCapacities) -> (r: StageGates)
        requires
            capacities.wf(),
        ensures
            r.wf(),
            r.file@ == empty_gate(0, capacities.file_load_mb as nat),
            r.create_chunk@ == empty_gate(1, capacities.create_chunk as nat),
            r.create_chunk_call@ == empty_gate(2, capacities.create_chunk_call as nat),
            r.create_chunk_wait@ == empty_gate(3, capacities.create_chunk_wait as nat),
    {
        StageGates {
            file: Gate::new(0, capacities.file_load_mb),
            create_chunk: Gate::new(1, capacities.create_chunk),
            create_chunk_call: Gate::new(2, capacities.create_chunk_call),
            create_chunk_wait: Gate::new(3, capacities.create_chunk_wait),
        }
    }
}

} // verus!
