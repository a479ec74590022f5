//! Laws of rings and segments: how many triangles a segment has, how its
//! rings are spaced, and which way its normals point.

use vstd::prelude::*;
use vstd::arithmetic::div_mod::{
    lemma_add_mod_noop_right, lemma_fundamental_div_mod, lemma_mod_add_multiples_vanish,
    lemma_small_mod,
};
use crate::config::BranchSpec;
use crate::ring::{
    rim_ticks, rim_vertex, ring_model, seat_offset, seat_ring_model, seat_ticks, seat_vertex,
    turn_ticks, Direction, End, Point, Vertex,
};
use crate::segment::{
    bottom_fan, capped_model, fork_model, lemma_prefix_layout, next_index, seat_is_negative,
    segment_prefix, shell_lower, shell_upper, slice_at, split_top_model, top_fan, trunk_model,
    Caps, Triangle,
};
use crate::tree::node_triangles;

verus! {

/// A segment of `S` samples has `2 * S` shell triangles, and `2 * S` more
/// when both ends are capped by fans.
pub proof fn lemma_segment_counts(segment_count: u32, first: bool, second: bool)
    ensures
        trunk_model(segment_count).len() == 2 * segment_count,
        capped_model(segment_count).len() == 2 * segment_count + 2 * segment_count,
        fork_model(segment_count, first, second).len() == 2 * segment_count,
{
    let bottom = ring_model(segment_count, 0, End::Bottom);
    let top = ring_model(segment_count, 1, End::Top);
    let split = split_top_model(segment_count, first, second);
    let n = segment_count as nat;
    lemma_prefix_layout(bottom, top, Caps::none(), n);
    lemma_prefix_layout(bottom, top, Caps::both(), n);
    lemma_prefix_layout(bottom, split, Caps::none(), n);
    assert(n * Caps::none().per_index() == 2 * n) by (nonlinear_arith)
        requires
            Caps::none().per_index() == 2,
    ;
    assert(n * Caps::both().per_index() == 4 * n) by (nonlinear_arith)
        requires
            Caps::both().per_index() == 4,
    ;
}

/// A ring is closed and evenly spaced: from each sample to the one after
/// it, wrapping from the last to the first, the tick advances by one full
/// step, which is two ticks.
pub proof fn lemma_ring_is_evenly_spaced(segment_count: u32, phase: u32, i: int)
    requires
        segment_count > 0,
        0 <= i < segment_count,
    ensures
        0 <= rim_ticks(segment_count, phase, i) < turn_ticks(segment_count),
        rim_ticks(segment_count, phase, next_index(i, segment_count as int)) == (rim_ticks(
            segment_count,
            phase,
            i,
        ) + 2) % turn_ticks(segment_count),
{
    let turn = turn_ticks(segment_count);
    let here = 2 * i + phase;
    lemma_add_mod_noop_right(2, here, turn);
    assert((2 + here % turn) % turn == (2 + here) % turn);
    if i + 1 == segment_count {
        assert(next_index(i, segment_count as int) == 0) by (nonlinear_arith)
            requires
                i + 1 == segment_count,
                segment_count > 0,
        ;
        lemma_mod_add_multiples_vanish(phase as int, turn);
    } else {
        assert(next_index(i, segment_count as int) == i + 1) by (nonlinear_arith)
            requires
                0 <= i + 1 < segment_count,
        ;
    }
}

/// The top ring of the canonical segment runs half a step ahead of the
/// bottom ring: top sample `i` sits on the odd tick between bottom sample
/// `i` and the one after it, so the diagonal of each quad joins a bottom
/// vertex to the nearest top vertex.
pub proof fn lemma_top_is_half_a_step_ahead(segment_count: u32, i: int)
    requires
        segment_count > 0,
        0 <= i < segment_count,
    ensures
        rim_ticks(segment_count, 0, i) == 2 * i,
        rim_ticks(segment_count, 1, i) == 2 * i + 1,
{
    lemma_small_mod((2 * i) as nat, turn_ticks(segment_count) as nat);
    lemma_small_mod((2 * i + 1) as nat, turn_ticks(segment_count) as nat);
}

/// A seat ring goes once around its seat: its samples are two full steps
/// of the parent ring apart. Which side of the parent a seat lies on turns
/// its ring by half a turn.
pub proof fn lemma_seat_ring_spacing(segment_count: u32, z_negative: bool, i: int)
    requires
        segment_count > 0,
        segment_count % 4 == 0,
        0 <= i,
    ensures
        0 <= seat_ticks(segment_count, z_negative, i) < turn_ticks(segment_count),
        seat_ticks(segment_count, z_negative, i + 1) == (seat_ticks(
            segment_count,
            z_negative,
            i,
        ) + 4) % turn_ticks(segment_count),
        seat_ticks(segment_count, false, i) == (seat_ticks(segment_count, true, i)
            + segment_count) % turn_ticks(segment_count),
        seat_ticks(segment_count, z_negative, i) % 2 == 0,
{
    let turn = turn_ticks(segment_count);
    let here = 4 * i + 2 + seat_offset(segment_count, z_negative);
    lemma_add_mod_noop_right(4, here, turn);
    assert((4 + here % turn) % turn == (4 + here) % turn);
    let near = 4 * i + 2 + seat_offset(segment_count, true);
    lemma_add_mod_noop_right(segment_count as int, near, turn);
    assert((segment_count + near % turn) % turn == (segment_count + near) % turn);
    assert(seat_offset(segment_count, z_negative) % 2 == 0);
    lemma_fundamental_div_mod(here, turn);
    assert(here == turn * (here / turn) + here % turn);
    assert(turn * (here / turn) == 2 * (segment_count * (here / turn))) by (nonlinear_arith)
        requires
            turn == 2 * segment_count,
    ;
}

/// Whether the radial directions at ticks `a` and `b` of a turn of `turn`
/// ticks have a non-negative dot product: the two lie at most a quarter
/// turn apart.
pub open spec fn within_quarter_turn(a: int, b: int, turn: int) -> bool {
    let gap = (a - b) % turn;
    4 * gap <= turn || 4 * gap >= 3 * turn
}

/// Whether the stored normal of a vertex points to the same side as the
/// analytic outward direction at the vertex: the radial direction of its
/// own tick on a ring, straight up or down at the centre of a cap.
pub open spec fn normal_is_outward(v: Vertex, turn: int) -> bool {
    match v.position {
        Point::Rim { ticks, .. } => v.normal matches Direction::Radial { ticks: n }
            && within_quarter_turn(n as int, ticks as int, turn),
        Point::Seat { ticks, .. } => v.normal matches Direction::Radial { ticks: n }
            && within_quarter_turn(n as int, ticks as int, turn),
        Point::Axis { end: End::Top } => v.normal == Direction::Up,
        Point::Axis { end: End::Bottom } => v.normal == Direction::Down,
    }
}

/// Whether all three normals of a triangle are outward.
pub open spec fn triangle_is_outward(t: Triangle, turn: int) -> bool {
    normal_is_outward(t.a, turn) && normal_is_outward(t.b, turn) && normal_is_outward(t.c, turn)
}

/// Whether every vertex of a ring carries an outward normal.
pub open spec fn ring_is_outward(ring: Seq<Vertex>, turn: int) -> bool {
    forall|i: int| 0 <= i < ring.len() ==> normal_is_outward(#[trigger] ring[i], turn)
}

/// Every vertex of a generated ring stores the radial direction of its own
/// tick, whose dot product with the analytic direction is one.
pub proof fn lemma_rings_are_outward(
    segment_count: u32,
    phase: u32,
    end: End,
    branch: u32,
    z_negative: bool,
)
    requires
        segment_count > 0,
    ensures
        ring_is_outward(ring_model(segment_count, phase, end), turn_ticks(segment_count)),
        ring_is_outward(
            seat_ring_model(segment_count, branch, z_negative),
            turn_ticks(segment_count),
        ),
{
    let turn = turn_ticks(segment_count);
    assert(0int % turn == 0);
    let ring = ring_model(segment_count, phase, end);
    assert forall|i: int| 0 <= i < ring.len() implies normal_is_outward(
        #[trigger] ring[i],
        turn,
    ) by {
        let t = rim_ticks(segment_count, phase, i);
        assert(ring[i] == rim_vertex(t, end));
        assert((t as u64) as int - (t as u64) as int == 0);
    }
    let seat = seat_ring_model(segment_count, branch, z_negative);
    assert forall|i: int| 0 <= i < seat.len() implies normal_is_outward(
        #[trigger] seat[i],
        turn,
    ) by {
        let t = seat_ticks(segment_count, z_negative, i);
        assert(seat[i] == seat_vertex(branch, t));
        assert((t as u64) as int - (t as u64) as int == 0);
    }
}

/// Between two rings of outward normals the builder emits only triangles of
/// outward normals, caps included.
pub proof fn lemma_segment_is_outward(
    bottom: Seq<Vertex>,
    top: Seq<Vertex>,
    caps: Caps,
    turn: int,
    n: nat,
)
    requires
        bottom.len() == top.len(),
        n <= bottom.len(),
        ring_is_outward(bottom, turn),
        ring_is_outward(top, turn),
    ensures
        forall|k: int|
            0 <= k < segment_prefix(bottom, top, caps, n).len() ==> triangle_is_outward(
                #[trigger] segment_prefix(bottom, top, caps, n)[k],
                turn,
            ),
    decreases n,
{
    if n > 0 {
        let m = (n - 1) as nat;
        lemma_segment_is_outward(bottom, top, caps, turn, m);
        let len = bottom.len() as int;
        let i = m as int;
        let next = next_index(i, len);
        assert(0 <= next < len) by (nonlinear_arith)
            requires
                next == (i + 1) % len,
                0 <= i < len,
        ;
        assert(normal_is_outward(bottom[i], turn));
        assert(normal_is_outward(bottom[next], turn));
        assert(normal_is_outward(top[i], turn));
        assert(normal_is_outward(top[next], turn));
        assert(triangle_is_outward(shell_lower(bottom, top, i), turn));
        assert(triangle_is_outward(shell_upper(bottom, top, i), turn));
        assert(triangle_is_outward(top_fan(top, i), turn));
        assert(triangle_is_outward(bottom_fan(bottom, i), turn));
        let before = segment_prefix(bottom, top, caps, m);
        let last = slice_at(bottom, top, caps, i);
        assert forall|j: int| 0 <= j < last.len() implies triangle_is_outward(
            #[trigger] last[j],
            turn,
        ) by {}
        assert forall|k: int|
            0 <= k < segment_prefix(bottom, top, caps, n).len() implies triangle_is_outward(
            #[trigger] segment_prefix(bottom, top, caps, n)[k],
            turn,
        ) by {
            if k < before.len() {
                assert(segment_prefix(bottom, top, caps, n)[k] == before[k]);
            } else {
                assert(segment_prefix(bottom, top, caps, n)[k] == last[k - before.len()]);
            }
        }
    }
}

/// The outward-winding invariant: in every triangle of every mesh the
/// generator builds, each stored normal has a non-negative dot product with
/// the analytic outward direction at its vertex.
pub proof fn lemma_normals_are_outward(spec: BranchSpec, depth: nat, k: int)
    requires
        spec.config_ok(),
        0 <= k < node_triangles(spec, depth).len(),
    ensures
        triangle_is_outward(node_triangles(spec, depth)[k], turn_ticks(spec.segment_count)),
{
    let count = spec.segment_count;
    let turn = turn_ticks(count);
    let bottom = ring_model(count, 0, End::Bottom);
    let top = ring_model(count, 1, End::Top);
    lemma_rings_are_outward(count, 0, End::Bottom, 0, false);
    lemma_rings_are_outward(count, 1, End::Top, 0, false);
    if spec.branch_factor == 2 && depth > 0 {
        let first = seat_is_negative(spec.attachment_points@[0]);
        let second = seat_is_negative(spec.attachment_points@[1]);
        lemma_rings_are_outward(count, 0, End::Bottom, 0, first);
        lemma_rings_are_outward(count, 0, End::Bottom, 1, second);
        let split = split_top_model(count, first, second);
        assert(count as int % 4 == 0);
        assert(split.len() == count);
        assert(ring_is_outward(split, turn)) by {
            let a = seat_ring_model(count, 0, first);
            let b = seat_ring_model(count, 1, second);
            assert forall|i: int| 0 <= i < split.len() implies normal_is_outward(
                #[trigger] split[i],
                turn,
            ) by {
                if i < a.len() {
                    assert(split[i] == a[i]);
                } else {
                    assert(split[i] == b[i - a.len()]);
                }
            }
        }
        lemma_segment_is_outward(bottom, split, Caps::none(), turn, count as nat);
    } else {
        lemma_segment_is_outward(bottom, top, Caps::both(), turn, count as nat);
    }
}

/// The same invariant for the bare shell of the canonical segment.
pub proof fn lemma_trunk_normals_are_outward(segment_count: u32, k: int)
    requires
        segment_count > 0,
        0 <= k < trunk_model(segment_count).len(),
    ensures
        triangle_is_outward(trunk_model(segment_count)[k], turn_ticks(segment_count)),
{
    lemma_rings_are_outward(segment_count, 0, End::Bottom, 0, false);
    lemma_rings_are_outward(segment_count, 1, End::Top, 0, false);
    lemma_segment_is_outward(
        ring_model(segment_count, 0, End::Bottom),
        ring_model(segment_count, 1, End::Top),
        Caps::none(),
        turn_ticks(segment_count),
        segment_count as nat,
    );
}

} // verus!
