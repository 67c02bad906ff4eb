//! The lifecycle of the process-wide session: the shared device handle
//! and listener thread are created at most once, on first need, and torn
//! down exactly once after the queue ends.

use vstd::prelude::*;

use crate::channel::send_message;

verus! {

/// Where the session stands in its life.
#[derive(Clone, Copy, Debug, PartialEq, Eq, Structural)]
pub enum SessionPhase {
    /// Nothing created yet.
    Dormant,
    /// Device and listener exist and are shared.
    Active,
    /// Torn down; nothing may be acquired again.
    Closed,
}

/// Tracks the session's lifecycle for the caller that owns the actual
/// device handle and listener thread. Its contracts make the lazy
/// creation idempotent and the teardown single.
pub struct SessionLifecycle {
    pub phase: SessionPhase,
}

impl SessionLifecycle {
    /// A lifecycle with nothing created yet.
    pub fn new() -> (lifecycle: SessionLifecycle)
        ensures
            lifecycle.phase == SessionPhase::Dormant,
    {
        SessionLifecycle { phase: SessionPhase::Dormant }
    }

    /// Called when a playlist is about to play. Exactly on the first call
    /// it asks the caller to create the shared device and listener; every
    /// later call reuses them.
    pub fn acquire(&mut self) -> (must_create: bool)
        requires
            old(self).phase != SessionPhase::Closed,
        ensures
            final(self).phase == SessionPhase::Active,
            must_create == (old(self).phase == SessionPhase::Dormant),
    {
        let must_create = match self.phase {
            SessionPhase::Dormant => true,
            _ => false,
        };
        self.phase = SessionPhase::Active;
        must_create
    }

    /// Called once after the queue ends, by exhaustion or quit. If the
    /// session was active, a stop request goes out on the exit channel —
    /// best effort, since the listener may have terminated on its own —
    /// and the caller must wait for the listener to finish; otherwise
    /// there is nothing to tear down. Either way the session is closed
    /// and a later call tears down nothing.
    pub fn close(&mut self, exit: &crossbeam_channel::Sender<()>) -> (must_join: bool)
        ensures
            final(self).phase == SessionPhase::Closed,
            must_join == (old(self).phase == SessionPhase::Active),
    {
        let must_join = match self.phase {
            SessionPhase::Active => true,
            _ => false,
        };
        self.phase = SessionPhase::Closed;
        if must_join {
            let _ = send_message(exit, ());
        }
        must_join
    }
}

} // verus!
