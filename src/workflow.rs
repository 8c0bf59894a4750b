//! The create-with-retry workflow of one chunk, as seen by the stage gates.
//!
//! A chunk takes a create-chunk slot once for its whole workflow. Each attempt
//! then takes a call slot to send the call, gives it back, takes a wait slot to
//! await the response, and gives that back. The chunk slot goes back when the
//! workflow succeeds, fails for good, runs out of attempts or is cancelled.
//! The driver performs each action and reports each event; this module decides.
use vstd::prelude::*;

verus! {

/// The gates a chunk's workflow uses.
#[derive(Clone, Copy, Debug, PartialEq, Eq)]
pub enum Stage {
    CreateChunk,
    CreateChunkCall,
    CreateChunkWait,
}

/// Where a chunk's workflow stands.
#[derive(Clone, Copy, Debug, PartialEq, Eq)]
pub enum Phase {
    /// Waiting for a create-chunk slot.
    AwaitingChunkSlot,
    /// Holding a create-chunk slot, waiting for a call slot.
    AwaitingCallSlot,
    /// Holding a create-chunk slot and a call slot: the call goes out.
    Calling,
    /// Holding a create-chunk slot, waiting for a wait slot.
    AwaitingWaitSlot,
    /// Holding a create-chunk slot and a wait slot: the response is awaited.
    AwaitingResponse,
    /// The chunk was created.
    Succeeded,
    /// The workflow gave up: a permanent failure, no attempts left, or cancelled.
    Failed,
}

/// What the driver reports.
#[derive(Clone, Copy, Debug, PartialEq, Eq)]
pub enum Event {
    /// The slot the workflow waits for was granted.
    Granted,
    /// The call went out.
    CallSent,
    /// The response says the chunk was created.
    Success,
    /// The call failed in a way worth retrying.
    TransientFailure,
    /// The call failed for good.
    PermanentFailure,
    /// The task that runs the workflow was cancelled.
    Cancelled,
}

/// What the driver must do after an event: give back the slots in `release`,
/// in that order; withdraw the request still waiting when `withdraw` is set;
/// then ask for `request`.
pub struct Action {
    pub release: Vec<Stage>,
    pub withdraw: bool,
    pub request: Option<Stage>,
}

/// An event that the workflow does not expect in its phase.
#[derive(Clone, Copy, Debug, PartialEq, Eq)]
pub struct UnexpectedEvent {
    pub phase: Phase,
    pub event: Event,
}

/// The slots held in `p`.
pub open spec fn holds(p: Phase) -> Set<Stage> {
    match p {
        Phase::AwaitingCallSlot | Phase::AwaitingWaitSlot => set![Stage::CreateChunk],
        Phase::Calling => set![Stage::CreateChunk, Stage::CreateChunkCall],
        Phase::AwaitingResponse => set![Stage::CreateChunk, Stage::CreateChunkWait],
        _ => Set::empty(),
    }
}

/// The slot waited for in `p`.
pub open spec fn pending(p: Phase) -> Option<Stage> {
    match p {
        Phase::AwaitingChunkSlot => Some(Stage::CreateChunk),
        Phase::AwaitingCallSlot => Some(Stage::CreateChunkCall),
        Phase::AwaitingWaitSlot => Some(Stage::CreateChunkWait),
        _ => None,
    }
}

pub open spec fn is_finished(p: Phase) -> bool {
    p == Phase::Succeeded || p == Phase::Failed
}

/// The workflow of one chunk: its phase and the attempts made so far out of
/// `max_attempts`.
pub struct ChunkWorkflow {
    pub phase: Phase,
    pub attempts: u32,
    pub max_attempts: u32,
}

/// The phase and attempt count after `e` in phase `p` with `attempts` of `max`
/// made, or `None` when `e` is not expected there.
pub open spec fn next(p: Phase, attempts: nat, max: nat, e: Event) -> Option<(Phase, nat)> {
    match (p, e) {
        (_, Event::Cancelled) => if is_finished(p) {
            None
        } else {
            Some((Phase::Failed, attempts))
        },
        (Phase::AwaitingChunkSlot, Event::Granted) => Some((Phase::AwaitingCallSlot, attempts)),
        (Phase::AwaitingCallSlot, Event::Granted) => Some((Phase::Calling, attempts + 1)),
        (Phase::Calling, Event::CallSent) => Some((Phase::AwaitingWaitSlot, attempts)),
        (Phase::AwaitingWaitSlot, Event::Granted) => Some((Phase::AwaitingResponse, attempts)),
        (Phase::AwaitingResponse, Event::Success) => Some((Phase::Succeeded, attempts)),
        (Phase::AwaitingResponse, Event::PermanentFailure) => Some((Phase::Failed, attempts)),
        (Phase::AwaitingResponse, Event::TransientFailure) => if attempts < max {
            Some((Phase::AwaitingCallSlot, attempts))
        } else {
            Some((Phase::Failed, attempts))
        },
        _ => None,
    }
}

impl ChunkWorkflow {
    pub open spec fn wf(&self) -> bool {
        &&& self.max_attempts >= 1
        &&& self.attempts <= self.max_attempts
        &&& (self.phase == Phase::AwaitingChunkSlot ==> self.attempts == 0)
        &&& (self.phase == Phase::AwaitingCallSlot ==> self.attempts < self.max_attempts)
        &&& ((self.phase == Phase::Calling || self.phase == Phase::AwaitingWaitSlot
            || self.phase == Phase::AwaitingResponse) ==> self.attempts >= 1)
    }

    /// A workflow that may make up to `max_attempts` calls. Its first action is
    /// to ask for a create-chunk slot.
    pub fn new(max_attempts: u32) -> (r: (ChunkWorkflow, Action))
        requires
            max_attempts >= 1,
        ensures
            r.0.wf(),
            r.0.phase == Phase::AwaitingChunkSlot,
            r.0.attempts == 0,
            r.0.max_attempts == max_attempts,
            r.1.release@.len() == 0,
            !r.1.withdraw,
            r.1.request == Some(Stage::CreateChunk),
    {
        (
            ChunkWorkflow { phase: Phase::AwaitingChunkSlot, attempts: 0, max_attempts },
            Action { release: Vec::new(), withdraw: false, request: Some(Stage::CreateChunk) },
        )
    }

    /// Moves the workflow on by `event` and says what the driver must do. The
    /// slots it gives back are exactly those held before (with the one just
    /// granted) and not held after; it asks for the slot the new phase waits
    /// for; on cancellation it withdraws the request still waiting.
    pub fn step(&mut self, event: Event) -> (r: Result<Action, UnexpectedEvent>)
        requires
            old(self).wf(),
        ensures
            final(self).wf(),
            final(self).max_attempts == old(self).max_attempts,
            match next(old(self).phase, old(self).attempts as nat, old(self).max_attempts as nat, event) {
                Some((p, n)) => {
                    &&& r.is_ok()
                    &&& final(self).phase == p
                    &&& final(self).attempts == n
                    &&& r.unwrap().release@.no_duplicates()
                    &&& r.unwrap().release@.to_set() == holds(old(self).phase).union(
                        if event == Event::Granted {
                            set![pending(old(self).phase).unwrap()]
                        } else {
                            Set::empty()
                        },
                    ).difference(holds(p))
                    &&& r.unwrap().withdraw == (event == Event::Cancelled && pending(old(self).phase).is_some())
                    &&& r.unwrap().request == pending(p)
                },
                None => {
                    &&& r == Err::<Action, UnexpectedEvent>(UnexpectedEvent { phase: old(self).phase, event })
                    &&& *final(self) == *old(self)
                },
            },
    {
        let p = self.phase;
        let mut release: Vec<Stage> = Vec::new();
        let mut withdraw = false;
        let next_phase: Phase;
        match (p, event) {
            (Phase::Succeeded, _) | (Phase::Failed, _) => {
                return Err(UnexpectedEvent { phase: p, event });
            },
            (_, Event::Cancelled) => {
                match p {
                    Phase::Calling => {
                        release.push(Stage::CreateChunkCall);
                        release.push(Stage::CreateChunk);
                    },
                    Phase::AwaitingResponse => {
                        release.push(Stage::CreateChunkWait);
                        release.push(Stage::CreateChunk);
                    },
                    Phase::AwaitingChunkSlot => {
                        withdraw = true;
                    },
                    _ => {
                        withdraw = true;
                        release.push(Stage::CreateChunk);
                    },
                }
                next_phase = Phase::Failed;
            },
            (Phase::AwaitingChunkSlot, Event::Granted) => {
                next_phase = Phase::AwaitingCallSlot;
            },
            (Phase::AwaitingCallSlot, Event::Granted) => {
                self.attempts = self.attempts + 1;
                next_phase = Phase::Calling;
            },
            (Phase::Calling, Event::CallSent) => {
                release.push(Stage::CreateChunkCall);
                next_phase = Phase::AwaitingWaitSlot;
            },
            (Phase::AwaitingWaitSlot, Event::Granted) => {
                next_phase = Phase::AwaitingResponse;
            },
            (Phase::AwaitingResponse, Event::Success) => {
                release.push(Stage::CreateChunkWait);
                release.push(Stage::CreateChunk);
                next_phase = Phase::Succeeded;
            },
            (Phase::AwaitingResponse, Event::PermanentFailure) => {
                release.push(Stage::CreateChunkWait);
                release.push(Stage::CreateChunk);
                next_phase = Phase::Failed;
            },
            (Phase::AwaitingResponse, Event::TransientFailure) => {
                release.push(Stage::CreateChunkWait);
                if self.attempts < self.max_attempts {
                    next_phase = Phase::AwaitingCallSlot;
                } else {
                    release.push(Stage::CreateChunk);
                    next_phase = Phase::Failed;
                }
            },
            _ => {
                return Err(UnexpectedEvent { phase: p, event });
            },
        }
        self.phase = next_phase;
        let request = match next_phase {
            Phase::AwaitingCallSlot => Some(Stage::CreateChunkCall),
            Phase::AwaitingWaitSlot => Some(Stage::CreateChunkWait),
            _ => None,
        };
        proof {
            let rhs = holds(p).union(
                if event == Event::Granted {
                    set![pending(p).unwrap()]
                } else {
                    Set::empty()
                },
            ).difference(holds(next_phase));
            assert(release@.len() <= 2);
            assert forall|st: Stage| #[trigger] release@.contains(st) <==> rhs.contains(st) by {
                if release@.len() >= 1 && release@[0] == st {
                    assert(release@.contains(st));
                }
                if release@.len() >= 2 && release@[1] == st {
                    assert(release@.contains(st));
                }
            }
            assert(release@.to_set() =~= rhs);
        }
        Ok(Action { release, withdraw, request })
    }
}

/// A call slot and a wait slot are never held together, and a finished
/// workflow holds nothing: every slot a chunk took has gone back.
pub proof fn lemma_slots_held(p: Phase)
    ensures
        !(holds(p).contains(Stage::CreateChunkCall) && holds(p).contains(Stage::CreateChunkWait)),
        is_finished(p) ==> holds(p).is_empty(),
        holds(p).contains(Stage::CreateChunkCall) || holds(p).contains(Stage::CreateChunkWait)
            || pending(p) == Some(Stage::CreateChunkCall) || pending(p) == Some(
            Stage::CreateChunkWait,
        ) ==> holds(p).contains(Stage::CreateChunk),
{
}

/// A retry keeps the chunk's create-chunk slot: after a transient failure with
/// attempts left, the workflow still holds it and waits for a new call slot,
/// while the wait slot has gone back. The number of calls stays within
/// `max`.
pub proof fn lemma_retry_keeps_chunk_slot(attempts: nat, max: nat)
    requires
        1 <= attempts < max,
    ensures
        next(Phase::AwaitingResponse, attempts, max, Event::TransientFailure) == Some(
            (Phase::AwaitingCallSlot, attempts),
        ),
        holds(Phase::AwaitingCallSlot).contains(Stage::CreateChunk),
        !holds(Phase::AwaitingCallSlot).contains(Stage::CreateChunkWait),
        pending(Phase::AwaitingCallSlot) == Some(Stage::CreateChunkCall),
{
}

} // verus!
