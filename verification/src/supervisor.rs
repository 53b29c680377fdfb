//! Supervision of the single ingestion worker.
//!
//! At most one worker may read the physical connection at a time.  The
//! supervisor model records whether a worker is live and a generation
//! number that identifies it.  Starting tears the previous worker down
//! before anything else, so two workers never overlap; stopping is
//! idempotent.  The surrounding program performs the actual open, spawn
//! and join, tags each worker thread with the generation this model
//! hands out, and drops events whose generation is no longer current.

use vstd::prelude::*;

verus! {

/// The one synchronous, user-visible failure of a start attempt: the
/// device could not be opened.  No worker is running after it.
#[derive(Clone, Copy, PartialEq, Eq, Structural, Debug)]
pub struct ConnectionError {}

/// Tracks the lifecycle of the single ingestion worker.
pub struct Supervisor {
    /// Whether a worker is currently live.
    pub live: bool,
    /// Identifies the current worker; stale workers carry older values.
    pub generation: u64,
}

impl Supervisor {
    /// The state after a successful start: one live worker, under a
    /// generation no earlier worker ever carried.
    pub open spec fn spec_start(self) -> Supervisor {
        Supervisor { live: true, generation: (self.generation + 1) as u64 }
    }

    /// The state after a stop: no live worker, nothing else moved.
    pub open spec fn spec_stop(self) -> Supervisor {
        Supervisor { live: false, ..self }
    }

    /// Whether `gen` identifies the worker that is currently live.
    pub open spec fn spec_is_current(self, gen: u64) -> bool {
        self.live && gen == self.generation
    }

    /// No worker yet.
    pub fn new() -> (s: Supervisor)
        ensures
            !s.live,
            s.generation == 0,
    {
        Supervisor { live: false, generation: 0 }
    }

    /// Start a worker.  Any previous worker is fully stopped first;
    /// then, if the connection opened (`opened` reports the outcome of
    /// the device-open attempt), a new worker goes live under a fresh
    /// generation, returned to tag its thread.  If the open failed, the
    /// error is reported and no worker is live.
    pub fn start(&mut self, opened: bool) -> (r: Result<u64, ConnectionError>)
        requires
            old(self).generation < u64::MAX,
        ensures
            opened ==> *final(self) == old(self).spec_start() && r == Ok::<u64, ConnectionError>(
                final(self).generation,
            ),
            !opened ==> *final(self) == old(self).spec_stop() && r == Err::<u64, ConnectionError>(
                ConnectionError {},
            ),
    {
        self.live = false;
        if !opened {
            return Err(ConnectionError {});
        }
        self.generation = self.generation + 1;
        self.live = true;
        Ok(self.generation)
    }

    /// Stop the worker.  With no worker live this is a no-op, not an
    /// error: stopping is idempotent.
    pub fn stop(&mut self)
        ensures
            *final(self) == old(self).spec_stop(),
            !old(self).live ==> *final(self) == *old(self),
    {
        self.live = false;
    }

    /// Whether a worker generation is the one currently live; events
    /// from any other generation are stale and must be dropped.
    pub fn is_current(&self, gen: u64) -> (r: bool)
        ensures
            r == self.spec_is_current(gen),
    {
        self.live && gen == self.generation
    }
}

/// Stopping with no live worker changes nothing, and stopping twice is
/// the same as stopping once.
pub proof fn lemma_stop_idempotent(s: Supervisor)
    ensures
        !s.live ==> s.spec_stop() == s,
        s.spec_stop().spec_stop() == s.spec_stop(),
{
}

/// Two starts in a row leave exactly one live worker — the second — and
/// the first start's generation is no longer current, so an emission
/// from that stale worker is rejected.
pub proof fn lemma_restart_safety(s: Supervisor)
    requires
        s.generation + 2 <= u64::MAX,
    ensures
        ({
            let s1 = s.spec_start();
            let s2 = s1.spec_start();
            &&& s2.live
            &&& s2.spec_is_current(s2.generation)
            &&& !s2.spec_is_current(s1.generation)
        }),
{
}

} // verus!
