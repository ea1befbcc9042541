//! Bookkeeping for the GPU timeline.
//!
//! All device work forms one serialized chain: each submission is
//! causally ordered after everything submitted before it, and the host
//! holds a single token for the end of that chain. The scheduler tracks
//! that token's state — a fresh no-op token (idle) or one tied to real
//! in-flight work — so the host knows when a wait is a genuine fence
//! wait and when it can be skipped. Draining the chain is the only way
//! back to idle, and it is where device failure surfaces; the actual
//! fence wait is performed by the device layer, guided by the flag this
//! scheduler returns.

use vstd::prelude::*;

verus! {

/// State of the tracked end-of-chain token.
#[derive(Clone, Copy, Debug, PartialEq, Eq, Structural)]
pub enum ChainState {
    /// The token is a fresh no-op: no device work is outstanding.
    Idle,
    /// The token is tied to submitted device work.
    InFlight,
}

/// Tracks the single chain of in-flight GPU work.
pub struct GpuSyncScheduler {
    state: ChainState,
    pending: u64,
}

impl GpuSyncScheduler {
    /// The tracked token's state.
    pub closed spec fn spec_state(&self) -> ChainState {
        self.state
    }

    /// How many submissions the current chain holds since the last
    /// drain.
    pub closed spec fn spec_pending(&self) -> u64 {
        self.pending
    }

    /// The token is idle exactly when the chain holds no submissions.
    pub open spec fn wf(&self) -> bool {
        self.spec_state() is Idle <==> self.spec_pending() == 0
    }

    /// A scheduler holding a fresh no-op token.
    pub fn new() -> (r: GpuSyncScheduler)
        ensures
            r.wf(),
            r.spec_state() is Idle,
            r.spec_pending() == 0,
    {
        GpuSyncScheduler { state: ChainState::Idle, pending: 0 }
    }

    /// How many submissions the current chain holds.
    pub fn pending_submissions(&self) -> (r: u64)
        ensures
            r == self.spec_pending(),
    {
        self.pending
    }

    /// Whether the tracked token is tied to real device work. Mirrors
    /// the question the host asks before blocking on a fence.
    pub fn is_in_flight(&self) -> (r: bool)
        ensures
            r == (self.spec_state() is InFlight),
    {
        match self.state {
            ChainState::InFlight => true,
            ChainState::Idle => false,
        }
    }

    /// Records one unit of device work chained after everything
    /// tracked so far: the chain leaves idle and grows by exactly one
    /// submission.
    pub fn submit(&mut self)
        requires
            old(self).wf(),
            old(self).spec_pending() < u64::MAX,
        ensures
            final(self).wf(),
            final(self).spec_state() is InFlight,
            final(self).spec_pending() == old(self).spec_pending() + 1,
    {
        self.state = ChainState::InFlight;
        self.pending = self.pending + 1;
    }

    /// Drains the chain: after this the scheduler holds a fresh no-op
    /// token with nothing outstanding. The result says whether the
    /// caller must actually block on the device — true exactly when the
    /// old token was tied to real work, so a drain of an idle chain is
    /// free and draining twice in a row never blocks twice.
    pub fn wait_and_reset_last_frame_end(&mut self) -> (must_block: bool)
        requires
            old(self).wf(),
        ensures
            final(self).wf(),
            final(self).spec_state() is Idle,
            final(self).spec_pending() == 0,
            must_block == (old(self).spec_state() is InFlight),
    {
        let must_block = self.is_in_flight();
        self.state = ChainState::Idle;
        self.pending = 0;
        must_block
    }
}

} // verus!
