//! Instancing: a tree of nodes that share their meshes.
//!
//! The nodes live in an arena, in depth-first order with a parent ahead of
//! its children and children from first to last. A node names its parent and
//! its children by index; nothing points back for ownership. Every transform
//! is relative to the parent, so a consumer accumulates them on its way down.

use vstd::prelude::*;
use crate::attach::{child_model, child_transform};
use crate::config::{BranchSpec, GenError, MAX_DEPTH};
use crate::count::{lemma_size_step, lemma_size_within_limit, subtree_len, subtree_size, NODE_LIMIT};
use crate::segment::{
    capped_model, capped_segment, fork_model, fork_segment, seat_is_negative, Triangle,
};
use crate::transform::{Frame, Transform};

verus! {

/// Names one of a tree's meshes by its position in the tree's mesh table.
#[derive(Clone, Copy, Debug, PartialEq, Eq, Structural)]
pub struct MeshHandle {
    pub index: usize,
}

/// One instance: a mesh, placed relative to the parent.
#[derive(Clone, Debug)]
pub struct Node {
    /// Placement relative to the parent; the root is placed by the identity.
    pub transform: Transform,
    /// The mesh this node shows. Nodes of equal shape share one handle.
    pub mesh: MeshHandle,
    /// Levels below this node; a node of depth `0` is a leaf.
    pub depth: u32,
    /// The parent's index, absent at the root.
    pub parent: Option<usize>,
    /// The children's indices, first to last.
    pub children: Vec<usize>,
}

/// What a node says, with indices as plain integers.
pub struct NodeModel {
    pub transform: Transform,
    pub mesh: int,
    pub depth: nat,
    pub parent: Option<int>,
    pub children: Seq<int>,
}

impl View for Node {
    type V = NodeModel;

    open spec fn view(&self) -> NodeModel {
        NodeModel {
            transform: self.transform,
            mesh: self.mesh.index as int,
            depth: self.depth as nat,
            parent: match self.parent {
                Some(p) => Some(p as int),
                None => None,
            },
            children: self.children@.map_values(|c: usize| c as int),
        }
    }
}

/// The models of a run of nodes.
pub open spec fn node_models(nodes: Seq<Node>) -> Seq<NodeModel> {
    nodes.map_values(|n: Node| n@)
}

/// The triangles of a run of meshes.
pub open spec fn mesh_models(meshes: Seq<Vec<Triangle>>) -> Seq<Seq<Triangle>> {
    meshes.map_values(|m: Vec<Triangle>| m@)
}

/// A node hierarchy together with the meshes its nodes refer to.
#[derive(Clone, Debug)]
pub struct NodeTree {
    /// The mesh table. Entry `0` is the capped segment; a fork that has
    /// interior nodes adds the forking shell as entry `1`.
    pub meshes: Vec<Vec<Triangle>>,
    /// The arena, root first.
    pub nodes: Vec<Node>,
}

/// What a tree says.
pub struct TreeModel {
    pub meshes: Seq<Seq<Triangle>>,
    pub nodes: Seq<NodeModel>,
}

impl View for NodeTree {
    type V = TreeModel;

    open spec fn view(&self) -> TreeModel {
        TreeModel { meshes: mesh_models(self.meshes@), nodes: node_models(self.nodes@) }
    }
}

/// Whether following the parent links from node `i` leads, always
/// backwards in the arena, to a node without a parent.
pub open spec fn reaches_root(nodes: Seq<NodeModel>, i: int) -> bool
    decreases i,
{
    0 <= i < nodes.len() && match nodes[i].parent {
        Some(p) => 0 <= p < i && reaches_root(nodes, p),
        None => true,
    }
}

/// The transforms on the way from the root down to node `i`, outermost
/// first: what a walk over the tree accumulates for that node.
pub open spec fn path_model(nodes: Seq<NodeModel>, i: int) -> Seq<Transform>
    decreases i,
{
    match nodes[i].parent {
        Some(p) => if 0 <= p < i {
            path_model(nodes, p).push(nodes[i].transform)
        } else {
            seq![nodes[i].transform]
        },
        None => seq![nodes[i].transform],
    }
}

impl NodeTree {
    /// The number of nodes.
    pub fn node_count(&self) -> (n: usize)
        ensures
            n == self@.nodes.len(),
    {
        self.nodes.len()
    }

    /// The world frame of node `i`: the transforms of its ancestors from
    /// the root down, then its own. The parent links serve this walk and
    /// nothing else.
    ///
    /// Answers `None` where `i` names no node or the links from it do not
    /// lead backwards to a root, which no generated tree does.
    pub fn world_frame(&self, i: usize) -> (r: Option<Frame>)
        ensures
            r is Some <==> reaches_root(self@.nodes, i as int),
            r matches Some(frame) ==> frame@ == path_model(self@.nodes, i as int),
        decreases i,
    {
        if i >= self.nodes.len() {
            return None;
        }
        assert(self@.nodes[i as int] == self.nodes@[i as int]@);
        let own = self.nodes[i].transform;
        match self.nodes[i].parent {
            None => {
                let frame = Frame::empty().followed_by(own);
                assert(frame@ =~= seq![own]);
                Some(frame)
            },
            Some(p) => {
                if p >= i {
                    return None;
                }
                match self.world_frame(p) {
                    None => None,
                    Some(above) => Some(above.followed_by(own)),
                }
            },
        }
    }
}

/// Whether a node of `depth` forks, and therefore shows the forking shell
/// rather than the capped segment.
pub open spec fn forks_at(spec: BranchSpec, depth: nat) -> bool {
    spec.branch_factor == 2 && depth > 0
}

/// The table entry a node of `depth` refers to.
pub open spec fn mesh_index(spec: BranchSpec, depth: nat) -> int {
    if forks_at(spec, depth) {
        1
    } else {
        0
    }
}

/// The triangles a node of `depth` shows.
pub open spec fn node_triangles(spec: BranchSpec, depth: nat) -> Seq<Triangle> {
    if forks_at(spec, depth) {
        fork_model(
            spec.segment_count,
            seat_is_negative(spec.attachment_points@[0]),
            seat_is_negative(spec.attachment_points@[1]),
        )
    } else {
        capped_model(spec.segment_count)
    }
}

/// The mesh table of the tree grown from `spec`.
pub open spec fn mesh_table(spec: BranchSpec) -> Seq<Seq<Triangle>> {
    if forks_at(spec, spec.depth as nat) {
        seq![node_triangles(spec, 0), node_triangles(spec, spec.depth as nat)]
    } else {
        seq![node_triangles(spec, 0)]
    }
}

/// The index of child `k` of the node at `base`: the first child follows
/// its parent, the next one follows the first child's whole subtree.
pub open spec fn child_index(spec: BranchSpec, depth: nat, base: int, k: int) -> int {
    base + 1 + k * subtree_size(spec.branch_factor, (depth - 1) as nat)
}

/// The first child follows its parent at once; the second follows the whole
/// subtree of the first.
pub proof fn lemma_child_indices(spec: BranchSpec, depth: nat, base: int)
    ensures
        child_index(spec, depth, base, 0) == base + 1,
        child_index(spec, depth, base, 1) == base + 1 + subtree_size(
            spec.branch_factor,
            (depth - 1) as nat,
        ),
{
    let stride = subtree_size(spec.branch_factor, (depth - 1) as nat);
    assert(0 * stride == 0) by (nonlinear_arith);
    assert(1 * stride == stride) by (nonlinear_arith);
}

/// The children of the node of `depth` at `base`.
pub open spec fn child_indices(spec: BranchSpec, depth: nat, base: int) -> Seq<int> {
    if depth == 0 {
        Seq::<int>::empty()
    } else if spec.branch_factor == 2 {
        seq![child_index(spec, depth, base, 0), child_index(spec, depth, base, 1)]
    } else {
        seq![child_index(spec, depth, base, 0)]
    }
}

/// The node of `depth` at `base`.
pub open spec fn node_at(
    spec: BranchSpec,
    depth: nat,
    parent: Option<int>,
    local: Transform,
    base: int,
) -> NodeModel {
    NodeModel {
        transform: local,
        mesh: mesh_index(spec, depth),
        depth,
        parent,
        children: child_indices(spec, depth, base),
    }
}

/// The subtree of `depth` whose root sits at `base`: the root, then the
/// whole subtree of each child in turn.
pub open spec fn subtree_model(
    spec: BranchSpec,
    depth: nat,
    parent: Option<int>,
    local: Transform,
    base: int,
) -> Seq<NodeModel>
    decreases depth,
{
    let root = seq![node_at(spec, depth, parent, local, base)];
    if depth == 0 {
        root
    } else {
        let below = (depth - 1) as nat;
        let first = subtree_model(
            spec,
            below,
            Some(base),
            child_model(spec, 0),
            child_index(spec, depth, base, 0),
        );
        if spec.branch_factor == 2 {
            root + first + subtree_model(
                spec,
                below,
                Some(base),
                child_model(spec, 1),
                child_index(spec, depth, base, 1),
            )
        } else {
            root + first
        }
    }
}

/// The tree grown from `spec`.
pub open spec fn tree_model(spec: BranchSpec) -> TreeModel {
    TreeModel {
        meshes: mesh_table(spec),
        nodes: subtree_model(spec, spec.depth as nat, None, Transform::identity_model(), 0),
    }
}

/// A subtree has as many nodes as [`subtree_size`] says.
pub proof fn lemma_subtree_len(
    spec: BranchSpec,
    depth: nat,
    parent: Option<int>,
    local: Transform,
    base: int,
)
    requires
        spec.branch_factor == 1 || spec.branch_factor == 2,
    ensures
        subtree_model(spec, depth, parent, local, base).len() == subtree_size(
            spec.branch_factor,
            depth,
        ),
    decreases depth,
{
    if depth > 0 {
        let below = (depth - 1) as nat;
        lemma_size_step(spec.branch_factor, below);
        lemma_subtree_len(
            spec,
            below,
            Some(base),
            child_model(spec, 0),
            child_index(spec, depth, base, 0),
        );
        if spec.branch_factor == 2 {
            lemma_subtree_len(
                spec,
                below,
                Some(base),
                child_model(spec, 1),
                child_index(spec, depth, base, 1),
            );
        }
    }
}

/// Appends the subtree of `depth` to the arena.
fn grow(
    spec: &BranchSpec,
    depth: u32,
    parent: Option<usize>,
    local: Transform,
    nodes: &mut Vec<Node>,
)
    requires
        spec.config_ok(),
        depth <= MAX_DEPTH,
        old(nodes).len() + subtree_size(spec.branch_factor, depth as nat) <= NODE_LIMIT,
    ensures
        node_models(final(nodes)@) == node_models(old(nodes)@) + subtree_model(
            *spec,
            depth as nat,
            match parent {
                Some(p) => Some(p as int),
                None => None,
            },
            local,
            old(nodes).len() as int,
        ),
    decreases depth,
{
    let base: usize = nodes.len();
    let ghost before = node_models(nodes@);
    let ghost up: Option<int> = match parent {
        Some(p) => Some(p as int),
        None => None,
    };
    let forks = spec.branch_factor == 2;
    let mut children: Vec<usize> = Vec::new();
    if depth == 0 {
        let mesh = MeshHandle { index: 0 };
        let node = Node { transform: local, mesh, depth, parent, children };
        assert(node@.children =~= child_indices(*spec, 0, base as int));
        nodes.push(node);
        assert(node_models(nodes@) =~= before + subtree_model(*spec, 0, up, local, base as int));
    } else {
        let stride: usize = subtree_len(spec.branch_factor, depth - 1);
        proof {
            lemma_size_step(spec.branch_factor, (depth - 1) as nat);
            lemma_child_indices(*spec, depth as nat, base as int);
        }
        children.push(base + 1);
        if forks {
            children.push(base + 1 + stride);
        }
        let mesh = MeshHandle {
            index: if forks {
                1
            } else {
                0
            },
        };
        let node = Node { transform: local, mesh, depth, parent, children };
        assert(node@.children =~= child_indices(*spec, depth as nat, base as int));
        nodes.push(node);
        let ghost root = seq![node_at(*spec, depth as nat, up, local, base as int)];
        assert(node_models(nodes@) =~= before + root);
        grow(spec, depth - 1, Some(base), child_transform(spec, 0), nodes);
        proof {
            lemma_subtree_len(
                *spec,
                (depth - 1) as nat,
                Some(base as int),
                child_model(*spec, 0),
                base + 1,
            );
            assert(node_models(nodes@).len() == nodes@.len());
            assert(before.len() == base);
            assert(nodes@.len() == base + 1 + stride);
        }
        if forks {
            grow(spec, depth - 1, Some(base), child_transform(spec, 1), nodes);
        }
        assert(node_models(nodes@) =~= before + subtree_model(
            *spec,
            depth as nat,
            up,
            local,
            base as int,
        ));
    }
}

/// Builds the meshes a tree of `spec` refers to.
pub(crate) fn build_meshes(spec: &BranchSpec) -> (meshes: Vec<Vec<Triangle>>)
    requires
        spec.valid(),
    ensures
        mesh_models(meshes@) == mesh_table(*spec),
{
    let mut meshes: Vec<Vec<Triangle>> = Vec::new();
    match capped_segment(spec.segment_count) {
        Ok(mesh) => {
            meshes.push(mesh);
        },
        Err(_) => {
            assert(false);
        },
    }
    if spec.branch_factor == 2 && spec.depth > 0 {
        match fork_segment(spec.segment_count, &spec.attachment_points) {
            Ok(mesh) => {
                meshes.push(mesh);
            },
            Err(_) => {
                assert(false);
            },
        }
    }
    assert(mesh_models(meshes@) =~= mesh_table(*spec));
    meshes
}

/// Grows the node hierarchy of `spec`: one node per branch, each with its
/// own local transform and a handle to a shared mesh.
///
/// Fails exactly as [`BranchSpec::validate`] does; nothing is built then.
pub fn compose_instanced(spec: &BranchSpec) -> (r: Result<NodeTree, GenError>)
    ensures
        r is Ok <==> spec.valid(),
        r matches Ok(tree) ==> tree@ == tree_model(*spec),
        r matches Err(e) ==> spec.verdict() == Err::<(), GenError>(e),
{
    match spec.validate() {
        Err(e) => {
            return Err(e);
        },
        Ok(_) => {},
    }
    let meshes = build_meshes(spec);
    let mut nodes: Vec<Node> = Vec::new();
    proof {
        lemma_size_within_limit(spec.branch_factor, spec.depth as nat);
    }
    grow(spec, spec.depth, None, Transform::identity(), &mut nodes);
    assert(node_models(nodes@) =~= tree_model(*spec).nodes);
    Ok(NodeTree { meshes, nodes })
}

} // verus!
