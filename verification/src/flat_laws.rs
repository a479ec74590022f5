//! Laws of the flattened buffer: that it holds, node by node, what the
//! node hierarchy shows; how many triangles that is; and what a plainly
//! placed chain flattens to.

use vstd::prelude::*;
use crate::attach::{chain_model, child_model};
use crate::compose::subtree_units;
use crate::config::{BranchSpec, Vec3, MAX_DEPTH, ONE};
use crate::count::{lemma_size_step, lemma_size_within_limit, subtree_size};
use crate::flat::{
    flat_frames, flat_model, flat_triangles, lemma_flat_frames_len, placed, PlacedTriangle,
};
use crate::mesh_laws::lemma_segment_counts;
use crate::segment::{capped_model, seat_is_negative, Triangle};
use crate::transform::{all_shifts, total_rise, Transform};
use crate::tree::{
    child_index, lemma_child_indices, lemma_subtree_len, mesh_index, mesh_table, node_at,
    node_triangles, subtree_model, tree_model, NodeModel,
};
use crate::tree_laws::lemma_mesh_table_serves;

verus! {

/// The triangles that a run of nodes contributes through the mesh table,
/// node by node, each tagged with its node's index; the first node of the
/// run has the index `base`.
pub open spec fn gathered(meshes: Seq<Seq<Triangle>>, nodes: Seq<NodeModel>, base: int) -> Seq<
    PlacedTriangle,
>
    decreases nodes.len(),
{
    if nodes.len() == 0 {
        Seq::<PlacedTriangle>::empty()
    } else {
        gathered(meshes, nodes.drop_last(), base) + placed(
            base + nodes.len() - 1,
            meshes[nodes.last().mesh],
        )
    }
}

/// The sum, over a run of nodes, of the triangle count of each node's mesh.
pub open spec fn local_total(meshes: Seq<Seq<Triangle>>, nodes: Seq<NodeModel>) -> nat
    decreases nodes.len(),
{
    if nodes.len() == 0 {
        0
    } else {
        local_total(meshes, nodes.drop_last()) + meshes[nodes.last().mesh].len()
    }
}

/// Gathering holds as many triangles as the nodes' meshes have together.
pub proof fn lemma_gathered_len(meshes: Seq<Seq<Triangle>>, nodes: Seq<NodeModel>, base: int)
    ensures
        gathered(meshes, nodes, base).len() == local_total(meshes, nodes),
    decreases nodes.len(),
{
    if nodes.len() > 0 {
        lemma_gathered_len(meshes, nodes.drop_last(), base);
    }
}

/// Gathering two runs one after the other is gathering their concatenation.
pub proof fn lemma_gathered_concat(
    meshes: Seq<Seq<Triangle>>,
    front: Seq<NodeModel>,
    back: Seq<NodeModel>,
    base: int,
)
    ensures
        gathered(meshes, front + back, base) == gathered(meshes, front, base) + gathered(
            meshes,
            back,
            base + front.len(),
        ),
    decreases back.len(),
{
    if back.len() == 0 {
        assert(front + back =~= front);
    } else {
        let whole = front + back;
        assert(whole.drop_last() =~= front + back.drop_last());
        assert(whole.last() == back.last());
        lemma_gathered_concat(meshes, front, back.drop_last(), base);
    }
}

/// Flattening a subtree yields what gathering over its nodes yields.
pub proof fn lemma_subtree_flat_is_gathered(
    spec: BranchSpec,
    depth: nat,
    parent: Option<int>,
    local: Transform,
    base: int,
)
    requires
        spec.branch_factor == 1 || spec.branch_factor == 2,
        depth <= spec.depth,
    ensures
        flat_triangles(spec, depth, base) == gathered(
            mesh_table(spec),
            subtree_model(spec, depth, parent, local, base),
            base,
        ),
    decreases depth,
{
    let meshes = mesh_table(spec);
    let root = seq![node_at(spec, depth, parent, local, base)];
    lemma_mesh_table_serves(spec, depth);
    assert(gathered(meshes, root, base) == placed(base, node_triangles(spec, depth))) by {
        assert(root.drop_last() =~= Seq::<NodeModel>::empty());
        assert(gathered(meshes, root.drop_last(), base) =~= Seq::<PlacedTriangle>::empty());
        assert(root.last().mesh == mesh_index(spec, depth));
    }
    if depth > 0 {
        let below = (depth - 1) as nat;
        let stride = subtree_size(spec.branch_factor, below);
        lemma_child_indices(spec, depth, base);
        let first = subtree_model(spec, below, Some(base), child_model(spec, 0), base + 1);
        lemma_subtree_flat_is_gathered(spec, below, Some(base), child_model(spec, 0), base + 1);
        lemma_subtree_len(spec, below, Some(base), child_model(spec, 0), base + 1);
        lemma_gathered_concat(meshes, root, first, base);
        if spec.branch_factor == 2 {
            let second = subtree_model(
                spec,
                below,
                Some(base),
                child_model(spec, 1),
                base + 1 + stride,
            );
            lemma_subtree_flat_is_gathered(
                spec,
                below,
                Some(base),
                child_model(spec, 1),
                base + 1 + stride,
            );
            lemma_gathered_concat(meshes, root + first, second, base);
        }
    }
}

/// Flattening and instancing agree: the buffer of a branch spec holds,
/// node by node in visiting order, the triangles of the mesh that the node
/// of the same index shows in the tree, tagged with that index. Its length
/// is therefore the sum of the per-node triangle counts.
pub proof fn lemma_flat_is_sum_of_nodes(spec: BranchSpec)
    requires
        spec.branch_factor == 1 || spec.branch_factor == 2,
    ensures
        flat_model(spec).triangles == gathered(
            tree_model(spec).meshes,
            tree_model(spec).nodes,
            0,
        ),
        flat_model(spec).triangles.len() == local_total(
            tree_model(spec).meshes,
            tree_model(spec).nodes,
        ),
{
    lemma_subtree_flat_is_gathered(
        spec,
        spec.depth as nat,
        None,
        Transform::identity_model(),
        0,
    );
    lemma_gathered_len(tree_model(spec).meshes, tree_model(spec).nodes, 0);
}

/// A chain has four triangle units per node.
pub proof fn lemma_chain_units(spec: BranchSpec, depth: nat)
    requires
        spec.branch_factor == 1,
    ensures
        subtree_units(spec, depth) == 4 * (depth + 1),
    decreases depth,
{
    if depth > 0 {
        lemma_chain_units(spec, (depth - 1) as nat);
    }
}

/// A subtree contributes the segment count times its triangle units,
/// wherever in the buffer it starts.
pub proof fn lemma_subtree_triangle_count(spec: BranchSpec, depth: nat, base: int)
    requires
        spec.branch_factor == 1 || spec.branch_factor == 2,
    ensures
        flat_triangles(spec, depth, base).len() == spec.segment_count * subtree_units(
            spec,
            depth,
        ),
    decreases depth,
{
    let count = spec.segment_count as int;
    lemma_segment_counts(
        spec.segment_count,
        seat_is_negative(spec.attachment_points@[0]),
        seat_is_negative(spec.attachment_points@[1]),
    );
    if depth == 0 {
        assert(count * 4 == 4 * count) by (nonlinear_arith);
    } else {
        let below = (depth - 1) as nat;
        let rest = subtree_units(spec, below) as int;
        lemma_subtree_triangle_count(spec, below, child_index(spec, depth, base, 0));
        if spec.branch_factor == 2 {
            lemma_subtree_triangle_count(spec, below, child_index(spec, depth, base, 1));
            assert(count * (2 + 2 * rest) == 2 * count + count * rest + count * rest)
                by (nonlinear_arith);
        } else {
            assert(count * (4 + rest) == 4 * count + count * rest) by (nonlinear_arith);
        }
    }
}

/// The buffer of a branch spec holds the segment count times the
/// triangle units of the whole tree: `4 * S` per node of a chain; `2 * S`
/// per forking node and `4 * S` per leaf of a fork.
pub proof fn lemma_triangle_count(spec: BranchSpec)
    requires
        spec.branch_factor == 1 || spec.branch_factor == 2,
    ensures
        flat_model(spec).triangles.len() == spec.segment_count * subtree_units(
            spec,
            spec.depth as nat,
        ),
        spec.branch_factor == 1 ==> flat_model(spec).triangles.len() == 4 * spec.segment_count
            * (spec.depth + 1),
{
    lemma_subtree_triangle_count(spec, spec.depth as nat, 0);
    if spec.branch_factor == 1 {
        lemma_chain_units(spec, spec.depth as nat);
        let count = spec.segment_count as int;
        let levels = spec.depth + 1;
        assert(count * (4 * levels) == 4 * count * levels) by (nonlinear_arith);
    }
}

/// The frame `world` followed by `k` copies of `step`.
pub open spec fn stacked(world: Seq<Transform>, step: Transform, k: nat) -> Seq<Transform> {
    world + Seq::new(k, |j: int| step)
}

/// The plain move by one unit up: from a segment's base to its top.
pub open spec fn unit_lift() -> Transform {
    Transform::shift_model(Vec3 { x: 0, y: ONE, z: 0 })
}

/// Whether a chain's child is neither scaled, turned, twisted nor moved
/// off the top of its parent.
pub open spec fn plain_chain(spec: BranchSpec) -> bool {
    &&& spec.branch_factor == 1
    &&& spec.child_scale == Vec3::uniform_model(ONE)
    &&& spec.child_rotation_euler == Vec3::zero_model()
    &&& spec.child_translation == Vec3::zero_model()
    &&& spec.twist_angle == 0
}

/// In a chain the node `k` levels below a subtree's root has the root's
/// world frame followed by `k` chain steps.
pub proof fn lemma_chain_subtree_frames(spec: BranchSpec, depth: nat, world: Seq<Transform>)
    requires
        spec.branch_factor == 1,
    ensures
        flat_frames(spec, depth, world).len() == depth + 1,
        forall|k: int|
            0 <= k <= depth ==> #[trigger] flat_frames(spec, depth, world)[k] == stacked(
                world,
                chain_model(spec),
                k as nat,
            ),
    decreases depth,
{
    let step = chain_model(spec);
    assert(stacked(world, step, 0) =~= world);
    if depth > 0 {
        let below = (depth - 1) as nat;
        let inner = world.push(step);
        lemma_chain_subtree_frames(spec, below, inner);
        assert forall|k: int| 0 <= k <= depth implies #[trigger] flat_frames(
            spec,
            depth,
            world,
        )[k] == stacked(world, step, k as nat) by {
            if k > 0 {
                assert(flat_frames(spec, depth, world)[k] == flat_frames(spec, below, inner)[k
                    - 1]);
                assert(stacked(inner, step, (k - 1) as nat) =~= stacked(world, step, k as nat));
            }
        }
    }
}

/// A frame of the identity followed by `k` plain moves of one unit up
/// consists of plain moves only and rises by `k` units.
pub proof fn lemma_stack_rises(k: nat)
    ensures
        all_shifts(stacked(seq![Transform::identity_model()], unit_lift(), k)),
        total_rise(stacked(seq![Transform::identity_model()], unit_lift(), k)) == k * ONE,
    decreases k,
{
    let root = seq![Transform::identity_model()];
    let frame = stacked(root, unit_lift(), k);
    if k == 0 {
        assert(frame =~= root);
        assert(root.drop_last() =~= Seq::<Transform>::empty());
        assert(total_rise(root.drop_last()) == 0);
    } else {
        lemma_stack_rises((k - 1) as nat);
        assert(frame.drop_last() =~= stacked(root, unit_lift(), (k - 1) as nat));
        assert(frame.last() == unit_lift());
    }
}

/// A chain whose children are placed plainly is a straight stack of unit
/// segments: the node `k` levels below the root shows the capped unit
/// segment, and its world frame does nothing but lift by `k` units.
pub proof fn lemma_plain_chain_is_a_stack(spec: BranchSpec, k: int)
    requires
        plain_chain(spec),
        0 <= k <= spec.depth,
    ensures
        flat_model(spec).frames[k] == stacked(
            seq![Transform::identity_model()],
            unit_lift(),
            k as nat,
        ),
        all_shifts(flat_model(spec).frames[k]),
        total_rise(flat_model(spec).frames[k]) == k * ONE,
        tree_model(spec).meshes == seq![capped_model(spec.segment_count)],
{
    lemma_chain_subtree_frames(spec, spec.depth as nat, seq![Transform::identity_model()]);
    lemma_stack_rises(k as nat);
    assert(chain_model(spec) == unit_lift());
}

/// Composing frames is associative, and the empty frame changes nothing on
/// either side.
pub proof fn lemma_composition_is_associative(
    a: Seq<Transform>,
    b: Seq<Transform>,
    c: Seq<Transform>,
)
    ensures
        (a + b) + c == a + (b + c),
        Seq::<Transform>::empty() + a == a,
        a + Seq::<Transform>::empty() == a,
{
    assert((a + b) + c =~= a + (b + c));
    assert(Seq::<Transform>::empty() + a =~= a);
    assert(a + Seq::<Transform>::empty() =~= a);
}

/// Composing frames is not commutative: two different placements give
/// different frames in the two orders.
pub proof fn lemma_composition_is_ordered(a: Transform, b: Transform)
    requires
        a != b,
    ensures
        seq![a] + seq![b] != seq![b] + seq![a],
{
    assert((seq![a] + seq![b])[0] == a);
    assert((seq![b] + seq![a])[0] == b);
}

/// The triangles of a subtree are tagged with the indices of its own
/// nodes: from the subtree's root on, as far as the subtree reaches.
pub proof fn lemma_subtree_tags(spec: BranchSpec, depth: nat, base: int, k: int)
    requires
        spec.branch_factor == 1 || spec.branch_factor == 2,
        0 <= base,
        base + subtree_size(spec.branch_factor, depth) <= usize::MAX,
        0 <= k < flat_triangles(spec, depth, base).len(),
    ensures
        base <= flat_triangles(spec, depth, base)[k].frame < base + subtree_size(
            spec.branch_factor,
            depth,
        ),
    decreases depth,
{
    let own = placed(base, node_triangles(spec, depth));
    if depth > 0 && k >= own.len() {
        let below = (depth - 1) as nat;
        let stride = subtree_size(spec.branch_factor, below) as int;
        lemma_child_indices(spec, depth, base);
        lemma_size_step(spec.branch_factor, below);
        let first = flat_triangles(spec, below, base + 1);
        if k < own.len() + first.len() {
            lemma_subtree_tags(spec, below, base + 1, k - own.len());
        } else {
            lemma_subtree_tags(spec, below, base + 1 + stride, k - own.len() - first.len());
        }
    }
}

/// Every triangle of a flattened tree names one of the tree's frames.
pub proof fn lemma_flat_is_well_formed(spec: BranchSpec)
    requires
        spec.branch_factor == 1 || spec.branch_factor == 2,
        spec.depth <= MAX_DEPTH,
    ensures
        flat_model(spec).well_formed(),
{
    let depth = spec.depth as nat;
    lemma_size_within_limit(spec.branch_factor, depth);
    lemma_flat_frames_len(spec, depth, seq![Transform::identity_model()]);
    assert forall|k: int| 0 <= k < flat_model(spec).triangles.len() implies (
    #[trigger] flat_model(spec).triangles[k]).frame < flat_model(spec).frames.len() by {
        lemma_subtree_tags(spec, depth, 0, k);
    }
}

} // verus!
