//! Transforms and frames.
//!
//! A [`Transform`] names one placement: scale first, then a rotation, then a
//! translation. The rotation is described by what it does (stay upright,
//! tilt the axis toward a direction, turn by Euler angles) followed by a twist
//! about the already tilted axis. A [`Frame`] is an ordered product of
//! transforms, outermost first: the way from the root of a tree down to one
//! of its nodes. Products are kept as sequences, so composing them is exact,
//! associative, and not commutative.

use vstd::prelude::*;
use crate::config::{Vec3, ONE};

verus! {

/// How the local Y axis is turned.
#[derive(Clone, Copy, Debug, PartialEq, Eq, Structural)]
pub enum Orientation {
    /// Not at all.
    Upright,
    /// By the shortest arc that takes `+Y` to the given direction, which
    /// has some length off the axis.
    Toward(Vec3),
    /// By roll, pitch and yaw.
    Euler(Vec3),
}

/// One placement relative to a parent.
#[derive(Clone, Copy, Debug, PartialEq, Eq, Structural)]
pub struct Transform {
    /// Scale factor per axis, applied first.
    pub scale: Vec3,
    /// How the axis is turned.
    pub orientation: Orientation,
    /// A further turn about the turned axis; `0` for none.
    pub twist: i64,
    /// Offset, applied last.
    pub translation: Vec3,
}

impl Transform {
    /// The transform that changes nothing.
    pub open spec fn identity_model() -> Transform {
        Transform {
            scale: Vec3::uniform_model(ONE),
            orientation: Orientation::Upright,
            twist: 0,
            translation: Vec3::zero_model(),
        }
    }

    /// The transform that only moves by `offset`.
    pub open spec fn shift_model(offset: Vec3) -> Transform {
        Transform {
            scale: Vec3::uniform_model(ONE),
            orientation: Orientation::Upright,
            twist: 0,
            translation: offset,
        }
    }

    /// Whether the transform neither scales nor turns.
    pub open spec fn is_shift(self) -> bool {
        self == Transform::shift_model(self.translation)
    }

    /// The transform that changes nothing.
    pub fn identity() -> (t: Transform)
        ensures
            t == Transform::identity_model(),
    {
        Transform {
            scale: Vec3::uniform(ONE),
            orientation: Orientation::Upright,
            twist: 0,
            translation: Vec3::zero(),
        }
    }

    /// Whether the transform neither scales nor turns, so that it is a
    /// plain move by its translation.
    pub fn moves_only(&self) -> (r: bool)
        ensures
            r == self.is_shift(),
    {
        let upright = match self.orientation {
            Orientation::Upright => true,
            _ => false,
        };
        upright && self.twist == 0 && self.scale.x == ONE && self.scale.y == ONE && self.scale.z
            == ONE
    }
}

/// A product of transforms, outermost first.
#[derive(Clone, Debug)]
pub struct Frame {
    pub links: Vec<Transform>,
}

impl View for Frame {
    type V = Seq<Transform>;

    open spec fn view(&self) -> Seq<Transform> {
        self.links@
    }
}

/// Whether every factor of a frame is a plain move.
pub open spec fn all_shifts(frame: Seq<Transform>) -> bool {
    forall|i: int| 0 <= i < frame.len() ==> (#[trigger] frame[i]).is_shift()
}

/// The sum of the vertical offsets of a frame's factors. Where the frame
/// consists of plain moves, this is how far it lifts a point.
pub open spec fn total_rise(frame: Seq<Transform>) -> int
    decreases frame.len(),
{
    if frame.len() == 0 {
        0
    } else {
        total_rise(frame.drop_last()) + frame.last().translation.y
    }
}

impl Frame {
    /// The empty product.
    pub fn empty() -> (f: Frame)
        ensures
            f@ == Seq::<Transform>::empty(),
    {
        Frame { links: Vec::new() }
    }

    /// The number of factors.
    pub fn len(&self) -> (n: usize)
        ensures
            n == self@.len(),
    {
        self.links.len()
    }

    /// This frame followed by one more placement inside it.
    pub fn followed_by(&self, local: Transform) -> (f: Frame)
        ensures
            f@ == self@.push(local),
    {
        let mut links: Vec<Transform> = Vec::new();
        let mut i: usize = 0;
        while i < self.links.len()
            invariant
                i <= self.links.len(),
                links@ == self.links@.take(i as int),
            decreases self.links.len() - i,
        {
            links.push(self.links[i]);
            assert(links@ =~= self.links@.take(i + 1));
            i = i + 1;
        }
        assert(self.links@.take(i as int) =~= self.links@);
        links.push(local);
        Frame { links }
    }

    /// This frame followed by all of `inner`.
    pub fn compose(&self, inner: &Frame) -> (f: Frame)
        ensures
            f@ == self@ + inner@,
    {
        let mut links: Vec<Transform> = Vec::new();
        let mut i: usize = 0;
        while i < self.links.len()
            invariant
                i <= self.links.len(),
                links@ == self.links@.take(i as int),
            decreases self.links.len() - i,
        {
            links.push(self.links[i]);
            assert(links@ =~= self.links@.take(i + 1));
            i = i + 1;
        }
        assert(self.links@.take(i as int) =~= self.links@);
        let mut j: usize = 0;
        while j < inner.links.len()
            invariant
                j <= inner.links.len(),
                links@ == self.links@ + inner.links@.take(j as int),
            decreases inner.links.len() - j,
        {
            links.push(inner.links[j]);
            assert(links@ =~= self.links@ + inner.links@.take(j + 1));
            j = j + 1;
        }
        assert(inner.links@.take(j as int) =~= inner.links@);
        Frame { links }
    }
}

} // verus!
