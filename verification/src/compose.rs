//! The generator's entry point and the sizes of what it produces.

use vstd::prelude::*;
use crate::config::{BranchSpec, GenError, Mode};
use crate::count::{lemma_size_step, lemma_size_within_limit, subtree_len, subtree_size};
use crate::flat::{compose_flat, flat_model, MeshBuffer};
use crate::tree::{compose_instanced, forks_at, tree_model, NodeTree};

verus! {

/// What a generation run hands over.
#[derive(Debug)]
pub enum Generated {
    /// The node hierarchy of instancing mode.
    Nodes(NodeTree),
    /// The triangle buffer of flatten mode.
    Mesh(MeshBuffer),
}

/// Generates the geometry `spec` describes, in the mode it asks for.
///
/// A branch spec that [`BranchSpec::validate`] turns down yields that
/// same error and nothing else; every other one yields the complete output.
pub fn generate(spec: &BranchSpec) -> (r: Result<Generated, GenError>)
    ensures
        r is Ok <==> spec.valid(),
        r matches Err(e) ==> spec.verdict() == Err::<(), GenError>(e),
        r matches Ok(Generated::Nodes(tree)) ==> spec.mode == Mode::Instancing && tree@
            == tree_model(*spec),
        r matches Ok(Generated::Mesh(buffer)) ==> spec.mode == Mode::Flatten && buffer@
            == flat_model(*spec) && buffer@.well_formed(),
{
    match spec.mode {
        Mode::Instancing => match compose_instanced(spec) {
            Ok(tree) => Ok(Generated::Nodes(tree)),
            Err(e) => Err(e),
        },
        Mode::Flatten => match compose_flat(spec) {
            Ok(buffer) => Ok(Generated::Mesh(buffer)),
            Err(e) => Err(e),
        },
    }
}

/// How many triangles a node of `depth` contributes, counted in multiples
/// of the segment count: two for a bare shell, four with both caps.
pub open spec fn node_units(spec: BranchSpec, depth: nat) -> nat {
    if forks_at(spec, depth) {
        2
    } else {
        4
    }
}

/// How many triangles the subtree of `depth` contributes, counted in
/// multiples of the segment count.
pub open spec fn subtree_units(spec: BranchSpec, depth: nat) -> nat
    decreases depth,
{
    if depth == 0 {
        4
    } else if spec.branch_factor == 2 {
        2 + 2 * subtree_units(spec, (depth - 1) as nat)
    } else {
        4 + subtree_units(spec, (depth - 1) as nat)
    }
}

/// The triangle units of a subtree stay below four per node.
pub proof fn lemma_units_bound(spec: BranchSpec, depth: nat)
    requires
        spec.branch_factor == 1 || spec.branch_factor == 2,
    ensures
        4 <= subtree_units(spec, depth) <= 4 * subtree_size(spec.branch_factor, depth),
    decreases depth,
{
    if depth > 0 {
        lemma_units_bound(spec, (depth - 1) as nat);
        lemma_size_step(spec.branch_factor, (depth - 1) as nat);
    }
}

/// The number of nodes the tree of `spec` has.
///
/// Fails exactly as [`BranchSpec::validate`] does.
pub fn node_count(spec: &BranchSpec) -> (r: Result<usize, GenError>)
    ensures
        r is Ok <==> spec.valid(),
        r matches Ok(n) ==> n == subtree_size(spec.branch_factor, spec.depth as nat),
        r matches Err(e) ==> spec.verdict() == Err::<(), GenError>(e),
{
    match spec.validate() {
        Err(e) => Err(e),
        Ok(_) => Ok(subtree_len(spec.branch_factor, spec.depth)),
    }
}

/// The number of triangles the tree of `spec` has, over all its nodes.
///
/// Fails exactly as [`BranchSpec::validate`] does.
pub fn triangle_count(spec: &BranchSpec) -> (r: Result<u64, GenError>)
    ensures
        r is Ok <==> spec.valid(),
        r matches Ok(n) ==> n == spec.segment_count * subtree_units(*spec, spec.depth as nat),
        r matches Err(e) ==> spec.verdict() == Err::<(), GenError>(e),
{
    match spec.validate() {
        Err(e) => {
            return Err(e);
        },
        Ok(_) => {},
    }
    let forks = spec.branch_factor == 2;
    let mut units: u64 = 4;
    let mut level: u32 = 0;
    while level < spec.depth
        invariant
            level <= spec.depth,
            spec.valid(),
            forks == (spec.branch_factor == 2),
            units == subtree_units(*spec, level as nat),
            units <= 32764,
        decreases spec.depth - level,
    {
        proof {
            lemma_units_bound(*spec, (level + 1) as nat);
            lemma_size_within_limit(spec.branch_factor, (level + 1) as nat);
        }
        if forks {
            units = 2 + 2 * units;
        } else {
            units = 4 + units;
        }
        level = level + 1;
    }
    assert(spec.segment_count * units <= u64::MAX) by (nonlinear_arith)
        requires
            spec.segment_count <= u32::MAX,
            units <= 32764,
    ;
    Ok((spec.segment_count as u64) * units)
}

} // verus!
