//! The raycast readback as the simulation reads it.
//!
//! Each frame the raytracer writes what the viewer is looking at into a
//! small readback buffer. The part the edit path decides on is the hit
//! block's code: a zero code means the ray hit nothing.

use vstd::prelude::*;

verus! {

/// The block the viewer is looking at, as read back from the device.
#[derive(Clone, Copy, Debug, PartialEq, Eq, Structural)]
pub struct LookingAtBlock {
    /// The 16-bit block code at the hit, widened as the device reports
    /// it; `0` when the ray hit nothing.
    pub block_id: u32,
}

impl LookingAtBlock {
    /// The readback value before any frame has written it: no hit.
    pub fn new() -> (r: LookingAtBlock)
        ensures
            r.block_id == 0,
    {
        LookingAtBlock { block_id: 0 }
    }

    /// The hit block's code, if the ray hit anything.
    pub fn hit_block(&self) -> (r: Option<u32>)
        ensures
            r == if self.block_id > 0 {
                Some(self.block_id)
            } else {
                None::<u32>
            },
    {
        if self.block_id > 0 {
            Some(self.block_id)
        } else {
            None
        }
    }
}

} // verus!
