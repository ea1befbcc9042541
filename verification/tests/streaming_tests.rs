use voxel_stream::streaming::{StreamingController, update_chunks};
use voxel_stream::vec3::{IVec3, chunk_of_block};

/// The chunk owning a floating-point viewer position: floor to the
/// containing block, then floor-divide by the chunk edge length.
fn viewer_chunk(x: f32, y: f32, z: f32) -> IVec3 {
    chunk_of_block(IVec3::new(
        x.floor() as i32,
        y.floor() as i32,
        z.floor() as i32,
    ))
}

#[test]
fn test_get_player_chunk() {
    // Viewer at origin
    assert_eq!(viewer_chunk(0.0, 0.0, 0.0), IVec3::new(0, 0, 0));

    // Viewer inside a chunk
    assert_eq!(viewer_chunk(10.0, 20.0, 30.0), IVec3::new(0, 0, 0));

    // Viewer at the edge of a chunk
    assert_eq!(viewer_chunk(31.9, 31.9, 31.9), IVec3::new(0, 0, 0));

    // Viewer in the next chunk
    assert_eq!(viewer_chunk(32.0, 32.0, 32.0), IVec3::new(1, 1, 1));

    // Viewer in a negative chunk
    assert_eq!(viewer_chunk(-1.0, -1.0, -1.0), IVec3::new(-1, -1, -1));
}

#[test]
fn first_tick_refreshes_whole_window() {
    let mut c = StreamingController::new(3);
    let (drain, refreshes) = c.tick(IVec3::new(0, 0, 0));
    assert!(drain);
    assert_eq!(refreshes.len(), 7 * 7 * 7);
    assert!(refreshes.contains(&IVec3::new(0, 0, 0)));
    assert!(refreshes.contains(&IVec3::new(3, -3, 3)));
    assert!(!refreshes.contains(&IVec3::new(4, 0, 0)));
}

#[test]
fn unmoved_tick_refreshes_nothing() {
    let mut c = StreamingController::new(3);
    let v = IVec3::new(5, -2, 9);
    let (_, first) = c.tick(v);
    assert_eq!(first.len(), 343);
    let (drain, second) = c.tick(v);
    assert!(!drain);
    assert_eq!(second.len(), 0);
    let (drain3, third) = c.tick(v);
    assert!(!drain3);
    assert_eq!(third.len(), 0);
}

#[test]
fn single_step_refreshes_one_plane() {
    let mut c = StreamingController::new(3);
    let (_, _) = c.tick(IVec3::new(0, 0, 0));
    let (drain, refreshes) = c.tick(IVec3::new(1, 0, 0));
    assert!(drain);
    // Only the plane that entered the window needs new content.
    assert_eq!(refreshes.len(), 7 * 7);
    for r in &refreshes {
        assert_eq!(r.x, 4);
    }
}

#[test]
fn far_jump_refreshes_whole_window() {
    let mut c = StreamingController::new(2);
    let (_, _) = c.tick(IVec3::new(0, 0, 0));
    let (_, refreshes) = c.tick(IVec3::new(100, 100, 100));
    assert_eq!(refreshes.len(), 5 * 5 * 5);
}

#[test]
fn update_chunks_scan_order_is_x_then_y_then_z() {
    let list = update_chunks(None, IVec3::new(0, 0, 0), 1);
    assert_eq!(list.len(), 27);
    assert_eq!(list[0], IVec3::new(-1, -1, -1));
    assert_eq!(list[1], IVec3::new(-1, -1, 0));
    assert_eq!(list[2], IVec3::new(-1, -1, 1));
    assert_eq!(list[3], IVec3::new(-1, 0, -1));
    assert_eq!(list[9], IVec3::new(0, -1, -1));
    assert_eq!(list[26], IVec3::new(1, 1, 1));
}

#[test]
fn refresh_set_matches_chebyshev_rule() {
    // Move by (1, 1, 0) with render distance 2: refreshed chunks are
    // exactly those of the new window outside the old one.
    let old = IVec3::new(0, 0, 0);
    let new = IVec3::new(1, 1, 0);
    let list = update_chunks(Some(old), new, 2);
    for c in &list {
        let in_new = (c.x - new.x).abs() <= 2 && (c.y - new.y).abs() <= 2 && (c.z - new.z).abs() <= 2;
        let in_old = (c.x - old.x).abs() <= 2 && (c.y - old.y).abs() <= 2 && (c.z - old.z).abs() <= 2;
        assert!(in_new && !in_old);
    }
    // 5^3 window minus the 4x4x5 overlap.
    assert_eq!(list.len(), 125 - 80);
}
