//! Resolving where a child sits on its parent.
//!
//! The canonical segment stands upright on the origin with unit radius and
//! unit height. A fork seats each child on an attachment point: scaled to
//! the point's radius, tilted so that its axis follows the point's outward
//! normal, and moved to the point's position. A chain seats its single child
//! on top of the parent and applies the configured delta there.

use vstd::prelude::*;
use crate::config::{AttachmentPoint, BranchSpec, Vec3, ONE};
use crate::transform::{Orientation, Transform};

verus! {

/// Whether a direction gives the axis nothing to tilt toward: it has no
/// length, or it lies along the axis itself.
pub open spec fn is_degenerate(normal: Vec3) -> bool {
    normal.x == 0 && normal.z == 0
}

/// The orientation that follows `normal`. A degenerate normal is not an
/// error: the child stays upright.
pub open spec fn aim_model(normal: Vec3) -> Orientation {
    if is_degenerate(normal) {
        Orientation::Upright
    } else {
        Orientation::Toward(normal)
    }
}

/// The orientation given by Euler angles, with no turn at all recognised
/// as upright.
pub open spec fn euler_model(angles: Vec3) -> Orientation {
    if angles == Vec3::zero_model() {
        Orientation::Upright
    } else {
        Orientation::Euler(angles)
    }
}

/// The placement of a child seated on `point`, twisted by `twist`.
pub open spec fn attachment_model(point: AttachmentPoint, twist: i64) -> Transform {
    Transform {
        scale: Vec3::uniform_model(point.radius),
        orientation: aim_model(point.outward_normal),
        twist,
        translation: point.position,
    }
}

/// The placement of a chain's child: the configured delta, applied on top
/// of the parent's unit segment.
pub open spec fn chain_model(spec: BranchSpec) -> Transform {
    Transform {
        scale: spec.child_scale,
        orientation: euler_model(spec.child_rotation_euler),
        twist: spec.twist_angle,
        translation: Vec3 {
            x: spec.child_translation.x,
            y: (spec.child_translation.y + ONE) as i64,
            z: spec.child_translation.z,
        },
    }
}

/// The placement of child `k` of any interior node.
pub open spec fn child_model(spec: BranchSpec, k: int) -> Transform {
    if spec.branch_factor == 2 {
        attachment_model(spec.attachment_points@[k], spec.twist_angle)
    } else {
        chain_model(spec)
    }
}

/// The coordinate-sign test on an attachment point: whether it lies on the
/// negative Z side of its parent.
pub fn on_negative_side(point: &AttachmentPoint) -> (r: bool)
    ensures
        r == (point.position.z < 0),
{
    point.position.z < 0
}

/// Resolves an attachment point into the transform that maps the canonical
/// segment onto it: uniform scale by the radius, the shortest-arc tilt from
/// `+Y` to the outward normal, then the move to the position. `twist` is
/// composed as a further turn about the tilted axis.
///
/// A normal without any length off the axis leaves the child upright.
pub fn resolve_attachment(point: &AttachmentPoint, twist: i64) -> (t: Transform)
    ensures
        t == attachment_model(*point, twist),
{
    let orientation = if point.outward_normal.x == 0 && point.outward_normal.z == 0 {
        Orientation::Upright
    } else {
        Orientation::Toward(point.outward_normal)
    };
    Transform {
        scale: Vec3::uniform(point.radius),
        orientation,
        twist,
        translation: point.position,
    }
}

/// The transform of a chain's child relative to its parent.
pub fn chain_step(spec: &BranchSpec) -> (t: Transform)
    requires
        spec.child_translation.y + ONE <= i64::MAX,
    ensures
        t == chain_model(*spec),
{
    let orientation = if spec.child_rotation_euler.is_zero() {
        Orientation::Upright
    } else {
        Orientation::Euler(spec.child_rotation_euler)
    };
    Transform {
        scale: spec.child_scale,
        orientation,
        twist: spec.twist_angle,
        translation: Vec3 {
            x: spec.child_translation.x,
            y: spec.child_translation.y + ONE,
            z: spec.child_translation.z,
        },
    }
}

/// The transform of child `k` relative to its parent.
pub fn child_transform(spec: &BranchSpec, k: usize) -> (t: Transform)
    requires
        spec.config_ok(),
        k < spec.branch_factor,
    ensures
        t == child_model(*spec, k as int),
{
    if spec.branch_factor == 2 {
        resolve_attachment(&spec.attachment_points[k], spec.twist_angle)
    } else {
        chain_step(spec)
    }
}

} // verus!
