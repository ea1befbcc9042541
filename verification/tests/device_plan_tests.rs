use voxel_stream::distance_field::{generate_distance_field_passes, sweep_directions, DistancePass};
use voxel_stream::input::PressState;
use voxel_stream::looking_at::LookingAtBlock;
use voxel_stream::sync::GpuSyncScheduler;
use voxel_stream::vec3::IVec3;

#[test]
fn scheduler_blocks_only_for_real_work() {
    let mut s = GpuSyncScheduler::new();
    assert!(!s.is_in_flight());
    // Draining an idle chain is free.
    assert!(!s.wait_and_reset_last_frame_end());

    s.submit();
    assert!(s.is_in_flight());
    s.submit();
    s.submit();
    // Draining a chain with work blocks once, then the chain is idle.
    assert!(s.wait_and_reset_last_frame_end());
    assert!(!s.is_in_flight());
    assert!(!s.wait_and_reset_last_frame_end());
}

#[test]
fn sweep_directions_are_the_fixed_eight() {
    let dirs = sweep_directions();
    assert_eq!(
        dirs,
        vec![
            IVec3::new(1, 1, 1),
            IVec3::new(-1, -1, -1),
            IVec3::new(1, 1, -1),
            IVec3::new(-1, -1, 1),
            IVec3::new(1, -1, 1),
            IVec3::new(-1, 1, -1),
            IVec3::new(1, -1, -1),
            IVec3::new(-1, 1, 1),
        ]
    );
}

#[test]
fn sweep_order_pairs_each_direction_with_its_mirror() {
    let dirs = sweep_directions();
    for k in 0..4 {
        let a = dirs[2 * k];
        let b = dirs[2 * k + 1];
        assert_eq!((a.x, a.y, a.z), (-b.x, -b.y, -b.z));
    }
}

#[test]
fn distance_field_runs_setup_then_sixteen_sweeps() {
    let passes = generate_distance_field_passes();
    let dirs = sweep_directions();
    assert_eq!(passes.len(), 17);
    assert_eq!(passes[0], DistancePass::Setup);
    for i in 0..16 {
        assert_eq!(passes[1 + i], DistancePass::Sweep(dirs[i % 8]));
    }
}

#[test]
fn press_states_decode_the_two_frame_history() {
    // (held now, held last frame) -> (Down, Up, Held)
    let table = [
        (false, false, [false, false, false]),
        (true, false, [true, false, false]),
        (false, true, [false, true, false]),
        (true, true, [false, false, true]),
    ];
    for (held, last, expect) in table {
        assert_eq!(PressState::Down.applies(held, last), expect[0]);
        assert_eq!(PressState::Up.applies(held, last), expect[1]);
        assert_eq!(PressState::Held.applies(held, last), expect[2]);
    }
}

#[test]
fn raycast_readback_reports_hits_by_nonzero_code() {
    let empty = LookingAtBlock::new();
    assert_eq!(empty.block_id, 0);
    assert_eq!(empty.hit_block(), None);

    let hit = LookingAtBlock { block_id: 2 };
    assert_eq!(hit.hit_block(), Some(2));
}
