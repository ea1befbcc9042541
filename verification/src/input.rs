//! Edge and level detection for input keys and buttons.
//!
//! Input devices report raw press sets per frame; what the simulation
//! asks is whether a key is freshly pressed, freshly released, or held.
//! That decision depends only on whether the key is in this frame's set
//! and whether it was in the previous frame's.

use vstd::prelude::*;

verus! {

/// The three press conditions a caller can ask about.
#[derive(Clone, Copy, Debug, PartialEq, Eq, Structural)]
pub enum PressState {
    /// Pressed this frame, not pressed the frame before.
    Down,
    /// Released this frame: pressed the frame before, not now.
    Up,
    /// Pressed both this frame and the frame before.
    Held,
}

/// Whether a key satisfies a press condition, given its membership in
/// this frame's and the previous frame's press sets.
pub open spec fn spec_press_applies(state: PressState, held: bool, held_last_frame: bool) -> bool {
    match state {
        PressState::Down => held && !held_last_frame,
        PressState::Up => !held && held_last_frame,
        PressState::Held => held && held_last_frame,
    }
}

impl PressState {
    /// Decides this press condition from the two per-frame memberships.
    pub fn applies(&self, held: bool, held_last_frame: bool) -> (r: bool)
        ensures
            r == spec_press_applies(*self, held, held_last_frame),
    {
        match (held, held_last_frame, self) {
            (true, true, PressState::Held) => true,
            (true, false, PressState::Down) => true,
            (false, true, PressState::Up) => true,
            _ => false,
        }
    }
}

} // verus!
