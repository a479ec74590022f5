//! Exact core of a recursive branching-geometry generator.
//!
//! A [`config::BranchSpec`] describes a tree-like structure: how many samples
//! a ring has, how deep the branching goes, and whether every node carries one
//! child (a chain) or two (a fork). From it [`compose::generate`] derives
//! either a hierarchy of transformed mesh instances or one flat buffer of
//! placed triangles.
//!
//! Everything here is integer-exact. Directions around a segment's axis are
//! counted in ticks of a full turn, lengths are fixed-point numbers with
//! sixteen fractional bits, and a rotation is named by what it does rather
//! than by a quaternion. Turning these descriptions into coordinates is left
//! to the consumer, which is the only place rounding can occur.
//!
//! The modules, leaves first:
//!
//! - [`config`]: the branch spec, its validation and the two errors;
//! - [`ring`]: ring profiles, the cross-sections of a segment;
//! - [`segment`]: the triangulated shell between two rings, and its caps;
//! - [`transform`]: placements and their ordered products;
//! - [`attach`]: where a child sits on its parent;
//! - [`count`]: how many nodes a tree has;
//! - [`tree`]: instancing, a linked arena of nodes over shared meshes;
//! - [`flat`]: flattening, one append-only buffer for the whole tree;
//! - [`compose`]: the entry point;
//! - [`mesh_laws`], [`tree_laws`], [`flat_laws`]: what holds of every output.

pub mod config;
pub mod ring;
pub mod segment;
pub mod transform;
pub mod attach;
pub mod count;
pub mod tree;
pub mod flat;
pub mod compose;
pub mod mesh_laws;
pub mod tree_laws;
pub mod flat_laws;
