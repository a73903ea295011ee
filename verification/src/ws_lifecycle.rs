//! Process-shutdown tracking for detached WebSocket sessions: a phase that
//! only moves forward (running, draining, force-closing) and a count of
//! active sessions. Each transition says which waiters to wake.

use vstd::prelude::*;

verus! {

#[derive(Clone, Copy, PartialEq, Eq, Debug)]
pub enum LifecyclePhase {
    Running,
    Draining,
    ForceClosing,
}

/// How far shutdown has gone.
pub open spec fn phase_rank(phase: LifecyclePhase) -> nat {
    match phase {
        LifecyclePhase::Running => 0,
        LifecyclePhase::Draining => 1,
        LifecyclePhase::ForceClosing => 2,
    }
}

/// The phase after a request to drain.
pub open spec fn drained_phase(phase: LifecyclePhase) -> LifecyclePhase {
    if phase == LifecyclePhase::Running {
        LifecyclePhase::Draining
    } else {
        phase
    }
}

/// Sessions are admitted only while running.
pub open spec fn admits_sessions(phase: LifecyclePhase) -> bool {
    phase == LifecyclePhase::Running
}

pub struct WebSocketLifecycleState {
    phase: LifecyclePhase,
    active: usize,
}

impl WebSocketLifecycleState {
    pub closed spec fn phase_spec(&self) -> LifecyclePhase {
        self.phase
    }

    pub closed spec fn active_spec(&self) -> nat {
        self.active as nat
    }

    pub fn new() -> (state: Self)
        ensures
            state.phase_spec() == LifecyclePhase::Running,
            state.active_spec() == 0,
    {
        WebSocketLifecycleState { phase: LifecyclePhase::Running, active: 0 }
    }

    /// Admits a new session only while running.
    pub fn reserve(&mut self) -> (admitted: bool)
        requires
            old(self).active_spec() < usize::MAX,
        ensures
            admitted == admits_sessions(old(self).phase_spec()),
            final(self).phase_spec() == old(self).phase_spec(),
            final(self).active_spec() == if admitted {
                old(self).active_spec() + 1
            } else {
                old(self).active_spec()
            },
    {
        match self.phase {
            LifecyclePhase::Running => {
                self.active = self.active + 1;
                true
            },
            _ => false,
        }
    }

    /// Ends an admitted session; true when it was the last one, which
    /// wakes those waiting for the sessions to drain.
    pub fn release(&mut self) -> (drained: bool)
        requires
            old(self).active_spec() > 0,
        ensures
            final(self).phase_spec() == old(self).phase_spec(),
            final(self).active_spec() == old(self).active_spec() - 1,
            drained == (final(self).active_spec() == 0),
    {
        self.active = self.active - 1;
        self.active == 0
    }

    /// Stops admitting sessions; true when this began draining, which wakes
    /// those waiting for shutdown.
    pub fn begin_draining(&mut self) -> (changed: bool)
        ensures
            changed == (old(self).phase_spec() == LifecyclePhase::Running),
            final(self).phase_spec() == drained_phase(old(self).phase_spec()),
            final(self).active_spec() == old(self).active_spec(),
    {
        match self.phase {
            LifecyclePhase::Running => {
                self.phase = LifecyclePhase::Draining;
                true
            },
            _ => false,
        }
    }

    /// Asks every session to close now; true the first time, which wakes
    /// those waiting for shutdown or a forced close.
    pub fn force_close(&mut self) -> (changed: bool)
        ensures
            changed == (old(self).phase_spec() != LifecyclePhase::ForceClosing),
            final(self).phase_spec() == LifecyclePhase::ForceClosing,
            final(self).active_spec() == old(self).active_spec(),
    {
        match self.phase {
            LifecyclePhase::ForceClosing => false,
            _ => {
                self.phase = LifecyclePhase::ForceClosing;
                true
            },
        }
    }

    pub fn is_draining(&self) -> (draining: bool)
        ensures
            draining == (self.phase_spec() != LifecyclePhase::Running),
    {
        match self.phase {
            LifecyclePhase::Running => false,
            _ => true,
        }
    }

    pub fn is_force_closing(&self) -> (closing: bool)
        ensures
            closing == (self.phase_spec() == LifecyclePhase::ForceClosing),
    {
        match self.phase {
            LifecyclePhase::ForceClosing => true,
            _ => false,
        }
    }

    pub fn active(&self) -> (active: usize)
        ensures
            active == self.active_spec(),
    {
        self.active
    }
}

/// Shutdown never goes back: draining or force-closing never lowers the
/// phase, and once either has happened no session is admitted again.
pub proof fn lemma_shutdown_only_moves_forward(phase: LifecyclePhase)
    ensures
        phase_rank(drained_phase(phase)) >= phase_rank(phase),
        phase_rank(LifecyclePhase::ForceClosing) >= phase_rank(phase),
        !admits_sessions(drained_phase(phase)),
        !admits_sessions(drained_phase(LifecyclePhase::ForceClosing)),
        drained_phase(drained_phase(phase)) == drained_phase(phase),
{
}

} // verus!
