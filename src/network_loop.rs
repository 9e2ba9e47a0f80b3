//! The server's lifecycle as a sequence of phases: start-up once, then one
//! tick after another (fixed update, update, late update) until a stop is
//! asked for, then shut-down. The caller performs each phase.
use vstd::prelude::*;

verus! {

#[derive(Debug, Clone, Copy, PartialEq, Eq, Structural)]
pub enum LoopPhase {
    Awake,
    OnEnable,
    Start,
    FixedUpdate,
    Update,
    LateUpdate,
    OnDisable,
    OnDestroy,
    Stopped,
}

/// The phase after `p`; a stop request ends the ticking after a full tick.
pub open spec fn next_phase(p: LoopPhase, stop_requested: bool) -> LoopPhase {
    match p {
        LoopPhase::Awake => LoopPhase::OnEnable,
        LoopPhase::OnEnable => LoopPhase::Start,
        LoopPhase::Start => LoopPhase::FixedUpdate,
        LoopPhase::FixedUpdate => LoopPhase::Update,
        LoopPhase::Update => LoopPhase::LateUpdate,
        LoopPhase::LateUpdate => if stop_requested {
            LoopPhase::OnDisable
        } else {
            LoopPhase::FixedUpdate
        },
        LoopPhase::OnDisable => LoopPhase::OnDestroy,
        LoopPhase::OnDestroy => LoopPhase::Stopped,
        LoopPhase::Stopped => LoopPhase::Stopped,
    }
}

#[derive(Debug)]
pub struct NetworkLoop {
    pub phase: LoopPhase,
}

impl NetworkLoop {
    pub fn new() -> (r: NetworkLoop)
        ensures
            r.phase == LoopPhase::Awake,
    {
        NetworkLoop { phase: LoopPhase::Awake }
    }

    /// Moves to the next phase and returns it: the phase to perform now.
    pub fn advance(&mut self, stop_requested: bool) -> (r: LoopPhase)
        ensures
            r == next_phase(old(self).phase, stop_requested),
            final(self).phase == r,
    {
        let next = match self.phase {
            LoopPhase::Awake => LoopPhase::OnEnable,
            LoopPhase::OnEnable => LoopPhase::Start,
            LoopPhase::Start => LoopPhase::FixedUpdate,
            LoopPhase::FixedUpdate => LoopPhase::Update,
            LoopPhase::Update => LoopPhase::LateUpdate,
            LoopPhase::LateUpdate => if stop_requested {
                LoopPhase::OnDisable
            } else {
                LoopPhase::FixedUpdate
            },
            LoopPhase::OnDisable => LoopPhase::OnDestroy,
            LoopPhase::OnDestroy => LoopPhase::Stopped,
            LoopPhase::Stopped => LoopPhase::Stopped,
        };
        self.phase = next;
        next
    }
}

} // verus!
