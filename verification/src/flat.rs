//! Flattening: one buffer for the whole tree.
//!
//! The tree is walked depth first, a parent before its children and the
//! children from first to last. Every visited node records its world frame,
//! the product of the placements from the root down to itself, and appends
//! its own triangles, each tagged with that frame. The accumulated frame is
//! handed down the recursion as an argument; nothing is kept between calls.
//! The buffer only ever grows.

use vstd::prelude::*;
use crate::attach::{child_model, child_transform};
use crate::config::{BranchSpec, GenError, MAX_DEPTH};
use crate::count::{lemma_size_step, lemma_size_within_limit, subtree_size, NODE_LIMIT};
use crate::segment::Triangle;
use crate::transform::{Frame, Transform};
use crate::tree::{
    build_meshes, child_index, forks_at, lemma_child_indices, mesh_models, node_triangles,
};

verus! {

/// A triangle together with the world frame that places it.
#[derive(Clone, Copy, Debug, PartialEq, Eq, Structural)]
pub struct PlacedTriangle {
    /// Index into the buffer's frames.
    pub frame: usize,
    /// The triangle in the frame's own coordinates.
    pub triangle: Triangle,
}

/// The flattened tree.
#[derive(Clone, Debug)]
pub struct MeshBuffer {
    /// The world frame of every visited node, in visiting order.
    pub frames: Vec<Frame>,
    /// The triangles of every visited node, in visiting order.
    pub triangles: Vec<PlacedTriangle>,
}

/// What a buffer says.
pub struct BufferModel {
    pub frames: Seq<Seq<Transform>>,
    pub triangles: Seq<PlacedTriangle>,
}

impl BufferModel {
    /// Whether every triangle names one of the frames.
    pub open spec fn well_formed(self) -> bool {
        forall|i: int|
            0 <= i < self.triangles.len() ==> (#[trigger] self.triangles[i]).frame
                < self.frames.len()
    }
}

/// The products a run of frames stands for.
pub open spec fn frame_models(frames: Seq<Frame>) -> Seq<Seq<Transform>> {
    frames.map_values(|f: Frame| f@)
}

impl View for MeshBuffer {
    type V = BufferModel;

    open spec fn view(&self) -> BufferModel {
        BufferModel { frames: frame_models(self.frames@), triangles: self.triangles@ }
    }
}

/// The triangles of `mesh`, each tagged with `frame`.
pub open spec fn placed(frame: int, mesh: Seq<Triangle>) -> Seq<PlacedTriangle> {
    Seq::new(mesh.len(), |i: int| PlacedTriangle { frame: frame as usize, triangle: mesh[i] })
}

/// The world frames of the subtree of `depth` whose root has the world
/// frame `world`, in visiting order.
pub open spec fn flat_frames(spec: BranchSpec, depth: nat, world: Seq<Transform>) -> Seq<
    Seq<Transform>,
>
    decreases depth,
{
    let root = seq![world];
    if depth == 0 {
        root
    } else {
        let below = (depth - 1) as nat;
        let first = flat_frames(spec, below, world.push(child_model(spec, 0)));
        if spec.branch_factor == 2 {
            root + first + flat_frames(spec, below, world.push(child_model(spec, 1)))
        } else {
            root + first
        }
    }
}

/// The triangles of the subtree of `depth` whose root is the `base`-th
/// visited node, in visiting order.
pub open spec fn flat_triangles(spec: BranchSpec, depth: nat, base: int) -> Seq<PlacedTriangle>
    decreases depth,
{
    let root = placed(base, node_triangles(spec, depth));
    if depth == 0 {
        root
    } else {
        let below = (depth - 1) as nat;
        let first = flat_triangles(spec, below, child_index(spec, depth, base, 0));
        if spec.branch_factor == 2 {
            root + first + flat_triangles(spec, below, child_index(spec, depth, base, 1))
        } else {
            root + first
        }
    }
}

/// The buffer flattened from `spec`. The root's world frame is the identity
/// alone.
pub open spec fn flat_model(spec: BranchSpec) -> BufferModel {
    BufferModel {
        frames: flat_frames(spec, spec.depth as nat, seq![Transform::identity_model()]),
        triangles: flat_triangles(spec, spec.depth as nat, 0),
    }
}

/// A subtree records one frame per node.
pub proof fn lemma_flat_frames_len(spec: BranchSpec, depth: nat, world: Seq<Transform>)
    requires
        spec.branch_factor == 1 || spec.branch_factor == 2,
    ensures
        flat_frames(spec, depth, world).len() == subtree_size(spec.branch_factor, depth),
    decreases depth,
{
    if depth > 0 {
        let below = (depth - 1) as nat;
        lemma_size_step(spec.branch_factor, below);
        lemma_flat_frames_len(spec, below, world.push(child_model(spec, 0)));
        if spec.branch_factor == 2 {
            lemma_flat_frames_len(spec, below, world.push(child_model(spec, 1)));
        }
    }
}

impl MeshBuffer {
    /// The empty buffer.
    pub fn new() -> (buffer: MeshBuffer)
        ensures
            buffer@.frames == Seq::<Seq<Transform>>::empty(),
            buffer@.triangles == Seq::<PlacedTriangle>::empty(),
            buffer@.well_formed(),
    {
        let buffer = MeshBuffer { frames: Vec::new(), triangles: Vec::new() };
        assert(buffer@.frames =~= Seq::<Seq<Transform>>::empty());
        buffer
    }

    /// The number of frames, one per visited node.
    pub fn frame_count(&self) -> (n: usize)
        ensures
            n == self@.frames.len(),
    {
        self.frames.len()
    }

    /// The number of triangles.
    pub fn triangle_count(&self) -> (n: usize)
        ensures
            n == self@.triangles.len(),
    {
        self.triangles.len()
    }

    /// Records `world` as the next frame and appends the triangles of
    /// `mesh` under it. What the buffer held stays as it was, ahead of
    /// what is added. Returns the index of the new frame.
    pub fn append(&mut self, world: Frame, mesh: &Vec<Triangle>) -> (index: usize)
        ensures
            index == old(self)@.frames.len(),
            final(self)@.frames == old(self)@.frames.push(world@),
            final(self)@.triangles == old(self)@.triangles + placed(index as int, mesh@),
            old(self)@.well_formed() ==> final(self)@.well_formed(),
    {
        let index: usize = self.frames.len();
        let ghost frames_before = self@.frames;
        let ghost before = self.triangles@;
        let ghost path = world@;
        self.frames.push(world);
        assert(self@.frames =~= frames_before.push(path));
        let mut i: usize = 0;
        while i < mesh.len()
            invariant
                i <= mesh.len(),
                self@.frames == frames_before.push(path),
                self.triangles@ == before + placed(index as int, mesh@.take(i as int)),
            decreases mesh.len() - i,
        {
            self.triangles.push(PlacedTriangle { frame: index, triangle: mesh[i] });
            assert(self.triangles@ =~= before + placed(index as int, mesh@.take(i + 1)));
            i = i + 1;
        }
        assert(mesh@.take(i as int) =~= mesh@);
        assert(old(self)@.well_formed() ==> self@.well_formed()) by {
            if old(self)@.well_formed() {
                assert forall|k: int| 0 <= k < self@.triangles.len() implies (
                #[trigger] self@.triangles[k]).frame < self@.frames.len() by {
                    if k < before.len() {
                        assert(self@.triangles[k] == old(self)@.triangles[k]);
                    }
                }
            }
        }
        index
    }
}

/// Visits the subtree of `depth` whose root has the world frame `world`.
fn bake(
    spec: &BranchSpec,
    depth: u32,
    world: Frame,
    capped: &Vec<Triangle>,
    fork: &Vec<Triangle>,
    buffer: &mut MeshBuffer,
)
    requires
        spec.config_ok(),
        depth <= MAX_DEPTH,
        capped@ == node_triangles(*spec, 0),
        forks_at(*spec, depth as nat) ==> fork@ == node_triangles(*spec, depth as nat),
        old(buffer)@.frames.len() + subtree_size(spec.branch_factor, depth as nat) <= NODE_LIMIT,
    ensures
        old(buffer)@.well_formed() ==> final(buffer)@.well_formed(),
        final(buffer)@.frames == old(buffer)@.frames + flat_frames(*spec, depth as nat, world@),
        final(buffer)@.triangles == old(buffer)@.triangles + flat_triangles(
            *spec,
            depth as nat,
            old(buffer)@.frames.len() as int,
        ),
    decreases depth,
{
    let ghost frames_before = buffer@.frames;
    let ghost triangles_before = buffer@.triangles;
    let ghost base = buffer@.frames.len() as int;
    let ghost path = world@;
    if depth == 0 {
        buffer.append(world, capped);
        assert(buffer@.frames =~= frames_before + flat_frames(*spec, 0, path));
    } else {
        let first = world.followed_by(child_transform(spec, 0));
        proof {
            lemma_size_step(spec.branch_factor, (depth - 1) as nat);
            lemma_flat_frames_len(*spec, (depth - 1) as nat, first@);
            lemma_child_indices(*spec, depth as nat, base);
        }
        if spec.branch_factor == 2 {
            let second = world.followed_by(child_transform(spec, 1));
            buffer.append(world, fork);
            bake(spec, depth - 1, first, capped, fork, buffer);
            bake(spec, depth - 1, second, capped, fork, buffer);
        } else {
            buffer.append(world, capped);
            bake(spec, depth - 1, first, capped, fork, buffer);
        }
        assert(buffer@.frames =~= frames_before + flat_frames(*spec, depth as nat, path));
        assert(buffer@.triangles =~= triangles_before + flat_triangles(
            *spec,
            depth as nat,
            base,
        ));
    }
}

/// Flattens the tree of `spec` into one buffer: every node's triangles,
/// tagged with the node's world frame, in depth-first order.
///
/// Fails exactly as [`BranchSpec::validate`] does; no partial buffer is
/// ever returned.
pub fn compose_flat(spec: &BranchSpec) -> (r: Result<MeshBuffer, GenError>)
    ensures
        r is Ok <==> spec.valid(),
        r matches Ok(buffer) ==> buffer@ == flat_model(*spec) && buffer@.well_formed(),
        r matches Err(e) ==> spec.verdict() == Err::<(), GenError>(e),
{
    match spec.validate() {
        Err(e) => {
            return Err(e);
        },
        Ok(_) => {},
    }
    let meshes = build_meshes(spec);
    let second: usize = if spec.branch_factor == 2 && spec.depth > 0 {
        1
    } else {
        0
    };
    let mut buffer = MeshBuffer::new();
    let root = Frame::empty().followed_by(Transform::identity());
    assert(root@ =~= seq![Transform::identity_model()]);
    proof {
        lemma_size_within_limit(spec.branch_factor, spec.depth as nat);
    }
    assert(mesh_models(meshes@).len() == meshes@.len());
    assert(mesh_models(meshes@)[0] == meshes@[0]@);
    assert(mesh_models(meshes@)[second as int] == meshes@[second as int]@);
    bake(spec, spec.depth, root, &meshes[0], &meshes[second], &mut buffer);
    assert(buffer@.frames =~= flat_model(*spec).frames);
    assert(buffer@.triangles =~= flat_model(*spec).triangles);
    Ok(buffer)
}

} // verus!
