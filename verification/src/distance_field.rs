//! The per-chunk distance-field pass schedule.
//!
//! A chunk's distance field is rebuilt in two phases: one setup pass
//! seeding distances from the solid/non-solid classification, then a
//! jump-flood sweep along eight fixed diagonal directions, each
//! direction dispatched twice. The direction order is fixed, with each
//! direction immediately followed by its mirror, and every direction
//! runs (twice) before the field is consumed. The device layer executes
//! the passes exactly in the order this module plans them.

use vstd::prelude::*;

verus! {

use crate::vec3::IVec3;

/// One dispatch of the distance-field rebuild.
#[derive(Clone, Copy, Debug, PartialEq, Eq, Structural)]
pub enum DistancePass {
    /// Seed the field from the chunk's block data.
    Setup,
    /// Propagate minimum distances along one diagonal direction.
    Sweep(IVec3),
}

/// The eight diagonal sweep directions, in dispatch order.
pub open spec fn spec_sweep_directions() -> Seq<IVec3> {
    seq![
        IVec3 { x: 1i32, y: 1i32, z: 1i32 },
        IVec3 { x: -1i32, y: -1i32, z: -1i32 },
        IVec3 { x: 1i32, y: 1i32, z: -1i32 },
        IVec3 { x: -1i32, y: -1i32, z: 1i32 },
        IVec3 { x: 1i32, y: -1i32, z: 1i32 },
        IVec3 { x: -1i32, y: 1i32, z: -1i32 },
        IVec3 { x: 1i32, y: -1i32, z: -1i32 },
        IVec3 { x: -1i32, y: 1i32, z: 1i32 },
    ]
}

/// Consecutive pairs of the sweep order are mirror directions: the
/// direction at an even index is followed by its exact opposite.
pub proof fn lemma_sweep_pairs_opposite(k: int)
    requires
        0 <= k < 4,
    ensures
        spec_sweep_directions()[2 * k].x as int == -(spec_sweep_directions()[2 * k + 1].x as int),
        spec_sweep_directions()[2 * k].y as int == -(spec_sweep_directions()[2 * k + 1].y as int),
        spec_sweep_directions()[2 * k].z as int == -(spec_sweep_directions()[2 * k + 1].z as int),
{
}

/// The eight diagonal sweep directions, in dispatch order.
pub fn sweep_directions() -> (r: Vec<IVec3>)
    ensures
        r@ == spec_sweep_directions(),
{
    let mut r: Vec<IVec3> = Vec::new();
    r.push(IVec3 { x: 1, y: 1, z: 1 });
    r.push(IVec3 { x: -1, y: -1, z: -1 });
    r.push(IVec3 { x: 1, y: 1, z: -1 });
    r.push(IVec3 { x: -1, y: -1, z: 1 });
    r.push(IVec3 { x: 1, y: -1, z: 1 });
    r.push(IVec3 { x: -1, y: 1, z: -1 });
    r.push(IVec3 { x: 1, y: -1, z: -1 });
    r.push(IVec3 { x: -1, y: 1, z: 1 });
    proof {
        assert(r@ =~= spec_sweep_directions());
    }
    r
}

/// Plans the full rebuild of one slot's distance field: the setup pass,
/// then the eight sweep directions dispatched twice over, in order.
pub fn generate_distance_field_passes() -> (r: Vec<DistancePass>)
    ensures
        r@.len() == 17,
        r@[0] == DistancePass::Setup,
        forall|i: int|
            0 <= i < 16 ==> #[trigger] r@[1 + i] == DistancePass::Sweep(spec_sweep_directions()[i % 8]),
{
    let dirs = sweep_directions();
    let mut r: Vec<DistancePass> = Vec::new();
    r.push(DistancePass::Setup);
    let mut round: usize = 0;
    while round < 2
        invariant
            0 <= round <= 2,
            dirs@ == spec_sweep_directions(),
            r@.len() == 1 + round * 8,
            r@[0] == DistancePass::Setup,
            forall|i: int|
                0 <= i < round * 8 ==> #[trigger] r@[1 + i] == DistancePass::Sweep(
                    spec_sweep_directions()[i % 8],
                ),
        decreases 2 - round,
    {
        let mut d: usize = 0;
        while d < 8
            invariant
                0 <= d <= 8,
                0 <= round < 2,
                dirs@ == spec_sweep_directions(),
                r@.len() == 1 + round * 8 + d,
                r@[0] == DistancePass::Setup,
                forall|i: int|
                    0 <= i < round * 8 + d ==> #[trigger] r@[1 + i] == DistancePass::Sweep(
                        spec_sweep_directions()[i % 8],
                    ),
            decreases 8 - d,
        {
            r.push(DistancePass::Sweep(dirs[d]));
            proof {
                let i = (round * 8 + d) as int;
                assert(i % 8 == d);
            }
            d = d + 1;
        }
        round = round + 1;
    }
    r
}

} // verus!
