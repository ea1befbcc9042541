//! Streaming refresh decisions.
//!
//! Each simulation tick compares the previous viewer chunk with the
//! current one. When they are equal nothing happens — the common case.
//! Otherwise every chunk within Chebyshev distance R of the current
//! viewer chunk is considered, and a chunk's slot is refreshed exactly
//! when it cannot already hold that chunk: on the first tick (no
//! previous viewer chunk) every slot is refreshed, afterwards only the
//! chunks farther than R from the previous viewer chunk — those were
//! outside the old window, so their slot was occupied by an aliased
//! coordinate. Refresh order is x, then y, then z, slowest axis first.

use vstd::prelude::*;

verus! {

use crate::vec3::IVec3;

/// Whether a chunk lies within Chebyshev distance `r` of `center` —
/// inside the streamed window around that viewer chunk.
pub open spec fn spec_within_window(c: IVec3, center: IVec3, r: u8) -> bool {
    &&& center.x - r <= c.x <= center.x + r
    &&& center.y - r <= c.y <= center.y + r
    &&& center.z - r <= c.z <= center.z + r
}

/// Whether the slot of chunk `c` must be refreshed after the viewer
/// moved from `old_center` (absent on the first tick) into a window
/// where `c` is resident: always on first load, afterwards exactly when
/// `c` was outside the previous window.
pub open spec fn spec_needs_refresh(old_center: Option<IVec3>, c: IVec3, r: u8) -> bool {
    match old_center {
        None => true,
        Some(o) => !spec_within_window(c, o, r),
    }
}

/// The window around `center` stays within coordinate range: a machine
/// limit, not a modelling one.
pub open spec fn spec_center_in_bounds(center: IVec3, r: u8) -> bool {
    &&& i32::MIN <= center.x - r && center.x + r <= i32::MAX
    &&& i32::MIN <= center.y - r && center.y + r <= i32::MAX
    &&& i32::MIN <= center.z - r && center.z + r <= i32::MAX
}

/// Pushing onto a sequence adds exactly one member.
proof fn lemma_push_contains(s: Seq<IVec3>, v: IVec3, x: IVec3)
    ensures
        s.push(v).contains(x) <==> (s.contains(x) || x == v),
{
    if s.contains(x) {
        let i = choose|i: int| 0 <= i < s.len() && s[i] == x;
        assert(s.push(v)[i] == x);
    }
    assert(s.push(v)[s.len() as int] == v);
    if s.push(v).contains(x) && x != v {
        let i = choose|i: int| 0 <= i < s.push(v).len() && s.push(v)[i] == x;
        assert(s[i] == x);
    }
}

/// Whether `c`'s window offset from `center` is lexicographically
/// before the offset `(dx, dy, dz)`, ordering by x, then y, then z.
/// This is exactly the region a partially run refresh scan has covered.
pub open spec fn spec_lex_before(c: IVec3, center: IVec3, dx: int, dy: int, dz: int) -> bool {
    ||| c.x - center.x < dx
    ||| (c.x - center.x == dx && c.y - center.y < dy)
    ||| (c.x - center.x == dx && c.y - center.y == dy && c.z - center.z < dz)
}

/// Decides which chunks' slots to refresh for one tick. The result
/// holds exactly the chunks of the current window whose slots cannot
/// already carry them (see `spec_needs_refresh`), each once, in x, y, z
/// scan order. With an unchanged viewer chunk it is empty: a tick
/// without movement refreshes nothing.
pub fn update_chunks(old_chunk_pos: Option<IVec3>, current_chunk: IVec3, render_distance: u8) -> (r:
    Vec<IVec3>)
    requires
        spec_center_in_bounds(current_chunk, render_distance),
    ensures
        forall|c: IVec3|
            r@.contains(c) <==> (spec_within_window(c, current_chunk, render_distance)
                && spec_needs_refresh(old_chunk_pos, c, render_distance)),
        forall|i: int, j: int| 0 <= i < j < r@.len() ==> r@[i] != r@[j],
        old_chunk_pos == Some(current_chunk) ==> r@.len() == 0,
{
    if let Some(old_pos) = old_chunk_pos {
        if old_pos == current_chunk {
            let r: Vec<IVec3> = Vec::new();
            proof {
                assert(forall|c: IVec3|
                    spec_within_window(c, current_chunk, render_distance)
                        ==> !spec_needs_refresh(old_chunk_pos, c, render_distance));
            }
            return r;
        }
    }
    let rd: i32 = render_distance as i32;
    let mut r: Vec<IVec3> = Vec::new();
    let mut dx: i32 = -rd;
    while dx <= rd
        invariant
            spec_center_in_bounds(current_chunk, render_distance),
            rd == render_distance,
            -rd <= dx <= rd + 1,
            forall|c: IVec3|
                r@.contains(c) <==> (spec_within_window(c, current_chunk, render_distance)
                    && spec_needs_refresh(old_chunk_pos, c, render_distance) && spec_lex_before(
                    c,
                    current_chunk,
                    dx as int,
                    -(rd as int),
                    -(rd as int),
                )),
            forall|i: int, j: int| 0 <= i < j < r@.len() ==> r@[i] != r@[j],
        decreases rd - dx + 1,
    {
        let mut dy: i32 = -rd;
        while dy <= rd
            invariant
                spec_center_in_bounds(current_chunk, render_distance),
                rd == render_distance,
                -rd <= dx <= rd,
                -rd <= dy <= rd + 1,
                forall|c: IVec3|
                    r@.contains(c) <==> (spec_within_window(c, current_chunk, render_distance)
                        && spec_needs_refresh(old_chunk_pos, c, render_distance)
                        && spec_lex_before(c, current_chunk, dx as int, dy as int, -rd as int)),
                forall|i: int, j: int| 0 <= i < j < r@.len() ==> r@[i] != r@[j],
            decreases rd - dy + 1,
        {
            let mut dz: i32 = -rd;
            while dz <= rd
                invariant
                    spec_center_in_bounds(current_chunk, render_distance),
                    rd == render_distance,
                    -rd <= dx <= rd,
                    -rd <= dy <= rd,
                    -rd <= dz <= rd + 1,
                    forall|c: IVec3|
                        r@.contains(c) <==> (spec_within_window(c, current_chunk, render_distance)
                            && spec_needs_refresh(old_chunk_pos, c, render_distance)
                            && spec_lex_before(c, current_chunk, dx as int, dy as int, dz as int)),
                    forall|i: int, j: int| 0 <= i < j < r@.len() ==> r@[i] != r@[j],
                decreases rd - dz + 1,
            {
                let chunk_pos = IVec3 {
                    x: current_chunk.x + dx,
                    y: current_chunk.y + dy,
                    z: current_chunk.z + dz,
                };
                let update_chunk: bool = match old_chunk_pos {
                    None => true,
                    Some(old_pos) => {
                        let ax = dist_exceeds(chunk_pos.x, old_pos.x, rd);
                        let ay = dist_exceeds(chunk_pos.y, old_pos.y, rd);
                        let az = dist_exceeds(chunk_pos.z, old_pos.z, rd);
                        ax || ay || az
                    },
                };
                let ghost r_old = r@;
                if update_chunk {
                    proof {
                        assert(!spec_lex_before(
                            chunk_pos,
                            current_chunk,
                            dx as int,
                            dy as int,
                            dz as int,
                        ));
                        assert forall|i: int| 0 <= i < r_old.len() implies r_old[i]
                            != chunk_pos by {
                            if r_old[i] == chunk_pos {
                                assert(r_old.contains(chunk_pos));
                            }
                        }
                    }
                    r.push(chunk_pos);
                }
                proof {
                    assert forall|c: IVec3| true implies (r@.contains(c) <==> (spec_within_window(
                        c,
                        current_chunk,
                        render_distance,
                    ) && spec_needs_refresh(old_chunk_pos, c, render_distance) && spec_lex_before(
                        c,
                        current_chunk,
                        dx as int,
                        dy as int,
                        dz as int + 1,
                    ))) by {
                        if update_chunk {
                            lemma_push_contains(r_old, chunk_pos, c);
                        }
                    }
                }
                dz = dz + 1;
            }
            proof {
                assert(forall|c: IVec3|
                    spec_lex_before(c, current_chunk, dx as int, dy as int, rd as int + 1)
                        && spec_within_window(c, current_chunk, render_distance)
                        ==> spec_lex_before(c, current_chunk, dx as int, dy as int + 1, -rd as int));
            }
            dy = dy + 1;
        }
        proof {
            assert(forall|c: IVec3|
                spec_lex_before(c, current_chunk, dx as int, rd as int + 1, -rd as int)
                    && spec_within_window(c, current_chunk, render_distance) ==> spec_lex_before(
                    c,
                    current_chunk,
                    dx as int + 1,
                    -rd as int,
                    -rd as int,
                ));
        }
        dx = dx + 1;
    }
    r
}

/// Whether two coordinates differ by more than `rd` on one axis.
fn dist_exceeds(a: i32, b: i32, rd: i32) -> (r: bool)
    requires
        0 <= rd,
    ensures
        r == !(b - rd <= a <= b + rd),
{
    if a >= b {
        // a - b may exceed i32 range only when b < 0 and a is huge;
        // compare through i64 to keep the subtraction exact.
        (a as i64) - (b as i64) > rd as i64
    } else {
        (b as i64) - (a as i64) > rd as i64
    }
}

/// Drives the per-tick refresh decisions, remembering the viewer chunk
/// the previous tick saw.
pub struct StreamingController {
    previous_viewer_chunk: Option<IVec3>,
    render_distance: u8,
}

impl StreamingController {
    /// The viewer chunk the controller saw on the previous tick, if
    /// any.
    pub closed spec fn spec_previous_viewer_chunk(&self) -> Option<IVec3> {
        self.previous_viewer_chunk
    }

    /// The render distance the controller plans windows for.
    pub closed spec fn spec_render_distance(&self) -> u8 {
        self.render_distance
    }

    /// A controller that has not seen any tick yet: the first tick
    /// refreshes the whole window.
    pub fn new(render_distance: u8) -> (r: StreamingController)
        ensures
            r.spec_previous_viewer_chunk() is None,
            r.spec_render_distance() == render_distance,
    {
        StreamingController { previous_viewer_chunk: None, render_distance }
    }

    /// Runs the decision side of one tick. The first result says
    /// whether the device chain must be drained before slot buffers are
    /// rewritten — exactly when there is anything to rewrite at all,
    /// i.e. unless the viewer chunk is unchanged. The second lists the
    /// chunks to refresh, as `update_chunks` decides them. Two
    /// consecutive ticks with the same viewer chunk make the second one
    /// refresh nothing.
    pub fn tick(&mut self, viewer_chunk: IVec3) -> (r: (bool, Vec<IVec3>))
        requires
            spec_center_in_bounds(viewer_chunk, old(self).spec_render_distance()),
        ensures
            final(self).spec_render_distance() == old(self).spec_render_distance(),
            final(self).spec_previous_viewer_chunk() == Some(viewer_chunk),
            r.0 == (old(self).spec_previous_viewer_chunk() != Some(viewer_chunk)),
            forall|c: IVec3|
                r.1@.contains(c) <==> (spec_within_window(
                    c,
                    viewer_chunk,
                    old(self).spec_render_distance(),
                ) && spec_needs_refresh(
                    old(self).spec_previous_viewer_chunk(),
                    c,
                    old(self).spec_render_distance(),
                )),
            forall|i: int, j: int| 0 <= i < j < r.1@.len() ==> r.1@[i] != r.1@[j],
            old(self).spec_previous_viewer_chunk() == Some(viewer_chunk) ==> r.1@.len() == 0,
    {
        let changed: bool = match &self.previous_viewer_chunk {
            None => true,
            Some(p) => !(*p == viewer_chunk),
        };
        let refreshes = update_chunks(self.previous_viewer_chunk, viewer_chunk, self.render_distance);
        self.previous_viewer_chunk = Some(viewer_chunk);
        (changed, refreshes)
    }
}

} // verus!
