//! Laws of the node hierarchy: how many nodes it has, how they are linked,
//! which meshes they share, and how their placements add up to the frames
//! that flattening records.

use vstd::prelude::*;
use vstd::arithmetic::power2::pow2;
use crate::attach::child_model;
use crate::config::BranchSpec;
use crate::count::{lemma_chain_size, lemma_fork_size, subtree_size};
use crate::flat::{flat_frames, flat_model, lemma_flat_frames_len, placed};
use crate::segment::capped_model;
use crate::transform::Transform;
use crate::tree::{
    lemma_child_indices, lemma_subtree_len, mesh_index, mesh_table, node_at, node_triangles,
    path_model, reaches_root, subtree_model, tree_model, NodeModel,
};

verus! {

/// The tree and the buffer of one branch spec have one entry per node: a
/// fork of depth `d` gives the `2^(d+1) - 1` nodes of a complete binary
/// tree, a chain gives `d + 1`.
pub proof fn lemma_node_count(spec: BranchSpec)
    requires
        spec.branch_factor == 1 || spec.branch_factor == 2,
    ensures
        tree_model(spec).nodes.len() == subtree_size(spec.branch_factor, spec.depth as nat),
        flat_model(spec).frames.len() == tree_model(spec).nodes.len(),
        spec.branch_factor == 2 ==> tree_model(spec).nodes.len() == pow2(
            (spec.depth + 1) as nat,
        ) - 1,
        spec.branch_factor == 1 ==> tree_model(spec).nodes.len() == spec.depth + 1,
{
    let depth = spec.depth as nat;
    lemma_subtree_len(spec, depth, None, Transform::identity_model(), 0);
    lemma_flat_frames_len(spec, depth, seq![Transform::identity_model()]);
    if spec.branch_factor == 2 {
        lemma_fork_size(depth);
    } else {
        lemma_chain_size(depth);
    }
}

/// At depth zero the generator yields one capped segment and no children,
/// whatever the branch factor: a single root node placed by the identity
/// that shows the capped segment, or that segment's triangles under the
/// identity frame.
pub proof fn lemma_depth_zero_is_one_capped_segment(spec: BranchSpec)
    requires
        spec.depth == 0,
    ensures
        tree_model(spec).meshes == seq![capped_model(spec.segment_count)],
        tree_model(spec).nodes == seq![
            NodeModel {
                transform: Transform::identity_model(),
                mesh: 0,
                depth: 0,
                parent: None,
                children: Seq::<int>::empty(),
            },
        ],
        flat_model(spec).frames == seq![seq![Transform::identity_model()]],
        flat_model(spec).triangles == placed(0, capped_model(spec.segment_count)),
{
}

/// Within the depth of its branch spec, a node's handle leads to the
/// triangles the node shows.
pub proof fn lemma_mesh_table_serves(spec: BranchSpec, depth: nat)
    requires
        depth <= spec.depth,
    ensures
        0 <= mesh_index(spec, depth) < mesh_table(spec).len(),
        mesh_table(spec)[mesh_index(spec, depth)] == node_triangles(spec, depth),
{
}

/// Every node of a subtree is no deeper than the subtree's root and refers
/// to the table entry of its own depth.
pub proof fn lemma_subtree_handles(
    spec: BranchSpec,
    depth: nat,
    parent: Option<int>,
    local: Transform,
    base: int,
    i: int,
)
    requires
        spec.branch_factor == 1 || spec.branch_factor == 2,
        0 <= i < subtree_model(spec, depth, parent, local, base).len(),
    ensures
        subtree_model(spec, depth, parent, local, base)[i].depth <= depth,
        subtree_model(spec, depth, parent, local, base)[i].mesh == mesh_index(
            spec,
            subtree_model(spec, depth, parent, local, base)[i].depth,
        ),
    decreases depth,
{
    if depth > 0 && i > 0 {
        let below = (depth - 1) as nat;
        let stride = subtree_size(spec.branch_factor, below) as int;
        lemma_child_indices(spec, depth, base);
        lemma_subtree_len(spec, below, Some(base), child_model(spec, 0), base + 1);
        if i < 1 + stride {
            lemma_subtree_handles(spec, below, Some(base), child_model(spec, 0), base + 1, i - 1);
        } else {
            lemma_subtree_len(spec, below, Some(base), child_model(spec, 1), base + 1 + stride);
            lemma_subtree_handles(
                spec,
                below,
                Some(base),
                child_model(spec, 1),
                base + 1 + stride,
                i - 1 - stride,
            );
        }
    }
}

/// Meshes are shared, not duplicated: every node's handle leads into the
/// mesh table, to the triangles a node of its depth shows. All nodes of a
/// chain hold the one handle of the capped segment; in a fork all forking
/// nodes hold one handle and all leaves another.
pub proof fn lemma_handles_are_shared(spec: BranchSpec, i: int)
    requires
        spec.branch_factor == 1 || spec.branch_factor == 2,
        0 <= i < tree_model(spec).nodes.len(),
    ensures
        0 <= tree_model(spec).nodes[i].mesh < tree_model(spec).meshes.len(),
        tree_model(spec).meshes.len() <= 2,
        tree_model(spec).meshes[tree_model(spec).nodes[i].mesh] == node_triangles(
            spec,
            tree_model(spec).nodes[i].depth,
        ),
        tree_model(spec).nodes[i].mesh == (if spec.branch_factor == 2 && tree_model(
            spec,
        ).nodes[i].depth > 0 {
            1int
        } else {
            0int
        }),
{
    lemma_subtree_handles(spec, spec.depth as nat, None, Transform::identity_model(), 0, i);
    lemma_mesh_table_serves(spec, tree_model(spec).nodes[i].depth);
}

/// Whether `child` is a proper child of the `i`-th node of a run that
/// starts at index `base`: it lies behind its parent and inside the run,
/// names that parent, and is one level shallower.
pub open spec fn child_is_linked(nodes: Seq<NodeModel>, base: int, i: int, child: int) -> bool {
    &&& base + i < child < base + nodes.len()
    &&& nodes[child - base].parent == Some(base + i)
    &&& nodes[child - base].depth + 1 == nodes[i].depth
}

/// Whether a run of nodes that starts at index `base` is linked like a tree:
/// every node but the first names a parent ahead of it in the run, a node
/// of depth zero has no children and any other has `branch_factor` of
/// them, and every child is a proper child.
pub open spec fn is_linked(nodes: Seq<NodeModel>, base: int, branch_factor: int) -> bool {
    &&& forall|i: int|
        0 < i < nodes.len() ==> match (#[trigger] nodes[i]).parent {
            Some(p) => base <= p < base + i,
            None => false,
        }
    &&& forall|i: int|
        0 <= i < nodes.len() ==> (#[trigger] nodes[i]).children.len() == (if nodes[i].depth
            == 0 {
            0
        } else {
            branch_factor
        })
    &&& forall|i: int, j: int|
        0 <= i < nodes.len() && 0 <= j < nodes[i].children.len() ==> child_is_linked(
            nodes,
            base,
            i,
            #[trigger] nodes[i].children[j],
        )
}

/// Whether the world frame of the `i`-th node of a run that starts at
/// index `base` is the world frame of its parent, which lies ahead of it in
/// the run, followed by the node's own transform.
pub open spec fn frame_follows_link(
    nodes: Seq<NodeModel>,
    frames: Seq<Seq<Transform>>,
    base: int,
    i: int,
) -> bool {
    match nodes[i].parent {
        Some(p) => base <= p < base + i && frames[i] == frames[p - base].push(
            nodes[i].transform,
        ),
        None => false,
    }
}

/// Whether the world frame of every node but the first follows the node's
/// link to its parent.
pub open spec fn frames_follow_links(
    nodes: Seq<NodeModel>,
    frames: Seq<Seq<Transform>>,
    base: int,
) -> bool {
    &&& frames.len() == nodes.len()
    &&& forall|i: int|
        0 < i < nodes.len() ==> #[trigger] frame_follows_link(nodes, frames, base, i)
}

/// Whether `nodes` is `root` followed by the runs `first` and `second`,
/// the children of a node at index `base`: one child where `second` is
/// empty, two otherwise.
pub open spec fn is_joined(
    nodes: Seq<NodeModel>,
    root: NodeModel,
    first: Seq<NodeModel>,
    second: Seq<NodeModel>,
    base: int,
    branch_factor: int,
) -> bool {
    &&& nodes == seq![root] + first + second
    &&& root.depth > 0
    &&& first.len() > 0
    &&& first[0].parent == Some(base)
    &&& first[0].depth + 1 == root.depth
    &&& if second.len() == 0 {
        branch_factor == 1 && root.children == seq![base + 1]
    } else {
        &&& branch_factor == 2
        &&& root.children == seq![base + 1, base + 1 + first.len()]
        &&& second[0].parent == Some(base)
        &&& second[0].depth + 1 == root.depth
    }
}

/// A node followed by the linked runs of its children is a linked run.
pub proof fn lemma_join_is_linked(
    nodes: Seq<NodeModel>,
    root: NodeModel,
    first: Seq<NodeModel>,
    second: Seq<NodeModel>,
    base: int,
    branch_factor: int,
)
    requires
        is_joined(nodes, root, first, second, base, branch_factor),
        is_linked(first, base + 1, branch_factor),
        is_linked(second, base + 1 + first.len(), branch_factor),
    ensures
        is_linked(nodes, base, branch_factor),
{
    let stride = first.len() as int;
    assert(nodes[0] == root);
    assert forall|i: int| 1 <= i < 1 + stride implies nodes[i] == first[i - 1] by {}
    assert forall|i: int| 1 + stride <= i < nodes.len() implies nodes[i] == second[i - 1
        - stride] by {}
    assert forall|i: int| 0 < i < nodes.len() implies match (#[trigger] nodes[i]).parent {
        Some(p) => base <= p < base + i,
        None => false,
    } by {
        if i < 1 + stride {
            assert(nodes[i] == first[i - 1]);
        } else {
            assert(nodes[i] == second[i - 1 - stride]);
        }
    }
    assert forall|i: int| 0 <= i < nodes.len() implies (#[trigger] nodes[i]).children.len() == (
    if nodes[i].depth == 0 {
        0
    } else {
        branch_factor
    }) by {
        if i == 0 {
        } else if i < 1 + stride {
            assert(nodes[i] == first[i - 1]);
        } else {
            assert(nodes[i] == second[i - 1 - stride]);
        }
    }
    assert forall|i: int, j: int|
        0 <= i < nodes.len() && 0 <= j < nodes[i].children.len() implies child_is_linked(
        nodes,
        base,
        i,
        #[trigger] nodes[i].children[j],
    ) by {
        let c = nodes[i].children[j];
        if i == 0 {
            if j == 0 {
                assert(nodes[1] == first[0]);
            } else {
                assert(nodes[1 + stride] == second[0]);
            }
        } else if i < 1 + stride {
            assert(nodes[i] == first[i - 1]);
            assert(child_is_linked(first, base + 1, i - 1, first[i - 1].children[j]));
            assert(nodes[c - base] == first[c - base - 1]);
        } else {
            assert(nodes[i] == second[i - 1 - stride]);
            assert(child_is_linked(
                second,
                base + 1 + stride,
                i - 1 - stride,
                second[i - 1 - stride].children[j],
            ));
            assert(nodes[c - base] == second[c - base - 1 - stride]);
        }
    }
}

/// Where the frames of the children's runs follow their links and start
/// from the parent's frame followed by the child's transform, the frames
/// of the joined run follow its links.
pub proof fn lemma_join_follows_links(
    nodes: Seq<NodeModel>,
    root: NodeModel,
    first: Seq<NodeModel>,
    second: Seq<NodeModel>,
    base: int,
    branch_factor: int,
    world: Seq<Transform>,
    first_frames: Seq<Seq<Transform>>,
    second_frames: Seq<Seq<Transform>>,
)
    requires
        is_joined(nodes, root, first, second, base, branch_factor),
        frames_follow_links(first, first_frames, base + 1),
        frames_follow_links(second, second_frames, base + 1 + first.len()),
        first_frames[0] == world.push(first[0].transform),
        second.len() > 0 ==> second_frames[0] == world.push(second[0].transform),
    ensures
        frames_follow_links(nodes, seq![world] + first_frames + second_frames, base),
{
    let stride = first.len() as int;
    let frames = seq![world] + first_frames + second_frames;
    assert(frames[0] == world);
    assert(frames.len() == nodes.len());
    assert forall|i: int| 0 < i < nodes.len() implies #[trigger] frame_follows_link(
        nodes,
        frames,
        base,
        i,
    ) by {
        if i == 1 {
            assert(nodes[1] == first[0]);
            assert(frames[1] == first_frames[0]);
        } else if i < 1 + stride {
            assert(nodes[i] == first[i - 1]);
            assert(frames[i] == first_frames[i - 1]);
            assert(frame_follows_link(first, first_frames, base + 1, i - 1));
            let p = first[i - 1].parent->Some_0;
            assert(frames[p - base] == first_frames[p - base - 1]);
        } else if i == 1 + stride {
            assert(nodes[i] == second[0]);
            assert(frames[i] == second_frames[0]);
        } else {
            assert(nodes[i] == second[i - 1 - stride]);
            assert(frames[i] == second_frames[i - 1 - stride]);
            assert(frame_follows_link(second, second_frames, base + 1 + stride, i - 1 - stride));
            let p = second[i - 1 - stride].parent->Some_0;
            assert(frames[p - base] == second_frames[p - base - 1 - stride]);
        }
    }
}

/// Every subtree is linked like a tree, and its world frames follow its
/// links.
pub proof fn lemma_subtree_is_linked(
    spec: BranchSpec,
    depth: nat,
    parent: Option<int>,
    local: Transform,
    base: int,
    world: Seq<Transform>,
)
    requires
        spec.branch_factor == 1 || spec.branch_factor == 2,
    ensures
        subtree_model(spec, depth, parent, local, base).len() == subtree_size(
            spec.branch_factor,
            depth,
        ),
        subtree_model(spec, depth, parent, local, base)[0] == node_at(
            spec,
            depth,
            parent,
            local,
            base,
        ),
        flat_frames(spec, depth, world)[0] == world,
        is_linked(
            subtree_model(spec, depth, parent, local, base),
            base,
            spec.branch_factor as int,
        ),
        frames_follow_links(
            subtree_model(spec, depth, parent, local, base),
            flat_frames(spec, depth, world),
            base,
        ),
    decreases depth,
{
    let nodes = subtree_model(spec, depth, parent, local, base);
    let frames = flat_frames(spec, depth, world);
    let b = spec.branch_factor as int;
    lemma_subtree_len(spec, depth, parent, local, base);
    lemma_flat_frames_len(spec, depth, world);
    if depth > 0 {
        let below = (depth - 1) as nat;
        let stride = subtree_size(spec.branch_factor, below) as int;
        lemma_child_indices(spec, depth, base);
        let root = node_at(spec, depth, parent, local, base);
        let first = subtree_model(spec, below, Some(base), child_model(spec, 0), base + 1);
        let first_frames = flat_frames(spec, below, world.push(child_model(spec, 0)));
        lemma_subtree_is_linked(
            spec,
            below,
            Some(base),
            child_model(spec, 0),
            base + 1,
            world.push(child_model(spec, 0)),
        );
        if spec.branch_factor == 2 {
            let second = subtree_model(
                spec,
                below,
                Some(base),
                child_model(spec, 1),
                base + 1 + stride,
            );
            let second_frames = flat_frames(spec, below, world.push(child_model(spec, 1)));
            lemma_subtree_is_linked(
                spec,
                below,
                Some(base),
                child_model(spec, 1),
                base + 1 + stride,
                world.push(child_model(spec, 1)),
            );
            assert(is_joined(nodes, root, first, second, base, b));
            lemma_join_is_linked(nodes, root, first, second, base, b);
            lemma_join_follows_links(
                nodes,
                root,
                first,
                second,
                base,
                b,
                world,
                first_frames,
                second_frames,
            );
        } else {
            let none = Seq::<NodeModel>::empty();
            let no_frames = Seq::<Seq<Transform>>::empty();
            assert(nodes =~= seq![root] + first + none);
            assert(frames =~= seq![world] + first_frames + no_frames);
            assert(is_joined(nodes, root, first, none, base, b));
            lemma_join_is_linked(nodes, root, first, none, base, b);
            lemma_join_follows_links(
                nodes,
                root,
                first,
                none,
                base,
                b,
                world,
                first_frames,
                no_frames,
            );
        }
    }
}

/// The arena of a branch spec is a tree: the root comes first and has no
/// parent, every other node names a parent ahead of it, and the children a
/// node lists are exactly linked back to it, one level shallower each.
/// Leaves are the nodes of depth zero. Every handle leads into the mesh
/// table.
pub proof fn lemma_tree_is_linked(spec: BranchSpec)
    requires
        spec.branch_factor == 1 || spec.branch_factor == 2,
    ensures
        tree_model(spec).nodes.len() > 0,
        tree_model(spec).nodes[0].parent is None,
        tree_model(spec).nodes[0].depth == spec.depth,
        tree_model(spec).nodes[0].transform == Transform::identity_model(),
        is_linked(tree_model(spec).nodes, 0, spec.branch_factor as int),
{
    lemma_subtree_is_linked(
        spec,
        spec.depth as nat,
        None,
        Transform::identity_model(),
        0,
        seq![Transform::identity_model()],
    );
}

/// What the flattening bakes is what a walk over the tree accumulates:
/// the buffer's frame of the root is the root's transform alone, and the
/// frame of every other node is its parent's frame followed by its own
/// local transform.
pub proof fn lemma_frames_follow_tree(spec: BranchSpec)
    requires
        spec.branch_factor == 1 || spec.branch_factor == 2,
    ensures
        flat_model(spec).frames[0] == seq![tree_model(spec).nodes[0].transform],
        frames_follow_links(tree_model(spec).nodes, flat_model(spec).frames, 0),
{
    lemma_subtree_is_linked(
        spec,
        spec.depth as nat,
        None,
        Transform::identity_model(),
        0,
        seq![Transform::identity_model()],
    );
}

/// Walking the tree and flattening it place every node alike: from every
/// node of a generated tree the parent links lead back to the root, and the
/// transforms accumulated on that way are the node's frame in the buffer.
pub proof fn lemma_paths_are_frames(spec: BranchSpec, i: int)
    requires
        spec.branch_factor == 1 || spec.branch_factor == 2,
        0 <= i < tree_model(spec).nodes.len(),
    ensures
        reaches_root(tree_model(spec).nodes, i),
        path_model(tree_model(spec).nodes, i) == flat_model(spec).frames[i],
    decreases i,
{
    let nodes = tree_model(spec).nodes;
    let frames = flat_model(spec).frames;
    lemma_tree_is_linked(spec);
    lemma_frames_follow_tree(spec);
    if i > 0 {
        assert(frame_follows_link(nodes, frames, 0, i));
        let p = nodes[i].parent->Some_0;
        lemma_paths_are_frames(spec, p);
    }
}

} // verus!
