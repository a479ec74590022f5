//! What a tree is grown from, and when it can be.

use vstd::prelude::*;
use crate::ring::{admits, check_segment_count, Topology};

verus! {

/// The fixed-point representation of `1.0`: lengths and scale factors carry
/// sixteen fractional bits.
pub const ONE: i64 = 65536;

/// The number of angle units in a full turn, for the angles a caller supplies
/// (twist and Euler angles).
pub const FULL_TURN: i64 = 65536;

/// The deepest recursion the generator accepts. A fork of depth `d` has
/// `2^(d+1) - 1` nodes, so the limit keeps every count far inside `u64`.
pub const MAX_DEPTH: u32 = 12;

/// A vector of three fixed-point components.
#[derive(Clone, Copy, Debug, PartialEq, Eq, Structural)]
pub struct Vec3 {
    pub x: i64,
    pub y: i64,
    pub z: i64,
}

impl Vec3 {
    pub open spec fn zero_model() -> Vec3 {
        Vec3 { x: 0, y: 0, z: 0 }
    }

    pub open spec fn uniform_model(v: i64) -> Vec3 {
        Vec3 { x: v, y: v, z: v }
    }

    /// The vector with all three components equal to `v`.
    pub fn uniform(v: i64) -> (r: Vec3)
        ensures
            r == Vec3::uniform_model(v),
    {
        Vec3 { x: v, y: v, z: v }
    }

    /// The zero vector.
    pub fn zero() -> (r: Vec3)
        ensures
            r == Vec3::zero_model(),
    {
        Vec3 { x: 0, y: 0, z: 0 }
    }

    /// Whether every component is zero.
    pub fn is_zero(&self) -> (r: bool)
        ensures
            r == (*self == Vec3::zero_model()),
    {
        self.x == 0 && self.y == 0 && self.z == 0
    }
}

/// Which of the two outputs a generation run produces.
#[derive(Clone, Copy, Debug, PartialEq, Eq, Structural)]
pub enum Mode {
    /// A hierarchy of nodes, each with a local transform and a shared mesh.
    Instancing,
    /// One buffer of triangles, each placed by its node's world frame.
    Flatten,
}

/// Why a [`BranchSpec`] was turned down. Both are reported before any
/// geometry exists.
#[derive(Clone, Copy, Debug, PartialEq, Eq, Structural)]
pub enum GenError {
    /// The segment count does not suit the topology, or the topology itself
    /// is not one the generator can build.
    ConfigError,
    /// The requested depth is beyond [`MAX_DEPTH`].
    OverflowError,
}

/// Where a child segment is rooted on its parent: a position, the direction
/// the child grows in (any length), and the child's radius.
#[derive(Clone, Copy, Debug, PartialEq, Eq, Structural)]
pub struct AttachmentPoint {
    pub position: Vec3,
    pub outward_normal: Vec3,
    pub radius: i64,
}

/// The compact description a tree is grown from.
#[derive(Clone, Debug)]
pub struct BranchSpec {
    /// Samples per ring. Must be positive and even, and a multiple of four
    /// where the tree forks.
    pub segment_count: u32,
    /// Levels below the root; `0` yields the root alone.
    pub depth: u32,
    /// Children per interior node: `1` for a chain, `2` for a fork.
    pub branch_factor: u32,
    /// The seats of a fork's children, in child order. Read only when the
    /// branch factor is `2`, where there must be exactly two of them.
    pub attachment_points: Vec<AttachmentPoint>,
    /// Scale of a chain's child relative to its parent.
    pub child_scale: Vec3,
    /// Roll, pitch and yaw of a chain's child, in units of [`FULL_TURN`].
    pub child_rotation_euler: Vec3,
    /// Offset of a chain's child from the top of its parent's segment.
    pub child_translation: Vec3,
    /// A further turn about the child's own axis, in units of [`FULL_TURN`];
    /// `0` leaves the child untwisted.
    pub twist_angle: i64,
    pub mode: Mode,
}

/// What the rings of a tree are for: those of a fork are shared out
/// between two children, those of a chain are not.
pub open spec fn topology_model(branch_factor: u32) -> Topology {
    if branch_factor == 2 {
        Topology::Split
    } else {
        Topology::Trunk
    }
}

impl BranchSpec {
    /// A chain whose children sit plainly on top of their parents: neither
    /// scaled, turned, twisted nor moved aside.
    pub fn chain(segment_count: u32, depth: u32, mode: Mode) -> (r: BranchSpec)
        ensures
            r.segment_count == segment_count,
            r.depth == depth,
            r.branch_factor == 1,
            r.attachment_points@ == Seq::<AttachmentPoint>::empty(),
            r.child_scale == Vec3::uniform_model(ONE),
            r.child_rotation_euler == Vec3::zero_model(),
            r.child_translation == Vec3::zero_model(),
            r.twist_angle == 0,
            r.mode == mode,
    {
        BranchSpec {
            segment_count,
            depth,
            branch_factor: 1,
            attachment_points: Vec::new(),
            child_scale: Vec3::uniform(ONE),
            child_rotation_euler: Vec3::zero(),
            child_translation: Vec3::zero(),
            twist_angle: 0,
            mode,
        }
    }

    /// A fork whose children are seated on `first` and `second` and turned
    /// by `twist_angle` against their parent.
    pub fn fork(
        segment_count: u32,
        depth: u32,
        first: AttachmentPoint,
        second: AttachmentPoint,
        twist_angle: i64,
        mode: Mode,
    ) -> (r: BranchSpec)
        ensures
            r.segment_count == segment_count,
            r.depth == depth,
            r.branch_factor == 2,
            r.attachment_points@ == seq![first, second],
            r.child_scale == Vec3::uniform_model(ONE),
            r.child_rotation_euler == Vec3::zero_model(),
            r.child_translation == Vec3::zero_model(),
            r.twist_angle == twist_angle,
            r.mode == mode,
    {
        let mut attachment_points: Vec<AttachmentPoint> = Vec::new();
        attachment_points.push(first);
        attachment_points.push(second);
        assert(attachment_points@ =~= seq![first, second]);
        BranchSpec {
            segment_count,
            depth,
            branch_factor: 2,
            attachment_points,
            child_scale: Vec3::uniform(ONE),
            child_rotation_euler: Vec3::zero(),
            child_translation: Vec3::zero(),
            twist_angle,
            mode,
        }
    }

    /// The topology is one the generator builds, and the segment count
    /// suits it.
    pub open spec fn config_ok(&self) -> bool {
        &&& (self.branch_factor == 1 || self.branch_factor == 2)
        &&& admits(self.segment_count, topology_model(self.branch_factor))
        &&& (self.branch_factor == 2 ==> self.attachment_points@.len() == 2)
        &&& (self.branch_factor == 1 ==> self.child_translation.y + ONE <= i64::MAX)
    }

    /// A tree can be generated from this.
    pub open spec fn valid(&self) -> bool {
        self.config_ok() && self.depth <= MAX_DEPTH
    }

    /// What [`BranchSpec::validate`] answers.
    pub open spec fn verdict(&self) -> Result<(), GenError> {
        if !self.config_ok() {
            Err(GenError::ConfigError)
        } else if self.depth > MAX_DEPTH {
            Err(GenError::OverflowError)
        } else {
            Ok(())
        }
    }

    /// Checks whether a tree can be generated from this. A configuration
    /// fault is reported ahead of an excessive depth.
    pub fn validate(&self) -> (r: Result<(), GenError>)
        ensures
            r == self.verdict(),
            r is Ok <==> self.valid(),
    {
        if self.branch_factor != 1 && self.branch_factor != 2 {
            return Err(GenError::ConfigError);
        }
        let forks = self.branch_factor == 2;
        let topology = if forks {
            Topology::Split
        } else {
            Topology::Trunk
        };
        match check_segment_count(self.segment_count, topology) {
            Err(e) => {
                return Err(e);
            },
            Ok(_) => {},
        }
        if forks {
            if self.attachment_points.len() != 2 {
                return Err(GenError::ConfigError);
            }
        } else {
            if self.child_translation.y > i64::MAX - ONE {
                return Err(GenError::ConfigError);
            }
        }
        if self.depth > MAX_DEPTH {
            return Err(GenError::OverflowError);
        }
        Ok(())
    }
}

} // verus!
