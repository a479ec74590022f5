//! Ring profiles: the closed circular cross-sections of a segment.
//!
//! A ring of `S` samples lives on a grid of `2 * S` ticks per turn, so that
//! both the samples themselves (even ticks, when unshifted) and the samples
//! of a ring shifted by half a step (odd ticks) are exact. A point at tick
//! `t` stands for the angle `2 * pi * t / (2 * S)` about the local Y axis,
//! that is for `(cos, y, sin)` of that angle.

use vstd::prelude::*;
use crate::config::GenError;

verus! {

/// The two heights of the canonical unit segment.
#[derive(Clone, Copy, Debug, PartialEq, Eq, Structural)]
pub enum End {
    /// Height `0`, where the segment is rooted.
    Bottom,
    /// Height `1`.
    Top,
}

/// Where a vertex lies, in the frame of its segment.
#[derive(Clone, Copy, Debug, PartialEq, Eq, Structural)]
pub enum Point {
    /// On the axis: `(0, y, 0)`.
    Axis { end: End },
    /// On the unit circle around the axis: `(cos, y, sin)` at `ticks`.
    Rim { ticks: u64, end: End },
    /// On the ring a child is seated on: attachment `branch` of the
    /// branch spec, resolved without twist, applied to `(cos, 0, sin)`
    /// at `ticks`.
    Seat { branch: u32, ticks: u64 },
}

/// A stored normal. It is given analytically, never derived from a
/// triangle's corners, so a degenerate triangle still carries a sane one.
#[derive(Clone, Copy, Debug, PartialEq, Eq, Structural)]
pub enum Direction {
    /// Away from the axis: `(cos, 0, sin)` at `ticks`.
    Radial { ticks: u64 },
    /// `+Y`.
    Up,
    /// `-Y`.
    Down,
}

/// A texture coordinate. The generator assigns none yet and always stores
/// the origin.
#[derive(Clone, Copy, Debug, PartialEq, Eq, Structural)]
pub struct TexCoord {
    pub u: i64,
    pub v: i64,
}

/// One corner of a triangle.
#[derive(Clone, Copy, Debug, PartialEq, Eq, Structural)]
pub struct Vertex {
    pub position: Point,
    pub normal: Direction,
    pub tex_coord: TexCoord,
}

/// What a ring is for, which decides what its sample count must divide by.
#[derive(Clone, Copy, Debug, PartialEq, Eq, Structural)]
pub enum Topology {
    /// A ring of a plain segment: the count must be even.
    Trunk,
    /// A ring that is shared out between two children: the count must be a
    /// multiple of four.
    Split,
}

pub open spec fn divisor(topology: Topology) -> int {
    match topology {
        Topology::Trunk => 2,
        Topology::Split => 4,
    }
}

/// Whether a ring of `segment_count` samples can serve `topology`.
pub open spec fn admits(segment_count: u32, topology: Topology) -> bool {
    segment_count > 0 && segment_count as int % divisor(topology) == 0
}

/// Ticks per full turn on the grid of a ring with `segment_count` samples.
pub open spec fn turn_ticks(segment_count: u32) -> int {
    2 * segment_count
}

/// The tick of sample `i` of a ring shifted by `phase` half steps.
pub open spec fn rim_ticks(segment_count: u32, phase: u32, i: int) -> int {
    (2 * i + phase) % turn_ticks(segment_count)
}

pub open spec fn no_tex() -> TexCoord {
    TexCoord { u: 0, v: 0 }
}

/// The vertex on the rim at `ticks`, with the radial normal of that tick.
pub open spec fn rim_vertex(ticks: int, end: End) -> Vertex {
    Vertex {
        position: Point::Rim { ticks: ticks as u64, end },
        normal: Direction::Radial { ticks: ticks as u64 },
        tex_coord: no_tex(),
    }
}

/// The ring that [`ring_profile`] produces.
pub open spec fn ring_model(segment_count: u32, phase: u32, end: End) -> Seq<Vertex> {
    Seq::new(
        segment_count as nat,
        |i: int| rim_vertex(rim_ticks(segment_count, phase, i), end),
    )
}

/// By how many ticks the samples of a seat ring are turned: a quarter turn
/// for a seat on the negative Z side, three quarters otherwise.
pub open spec fn seat_offset(segment_count: u32, z_negative: bool) -> int {
    if z_negative {
        segment_count as int / 2
    } else {
        3 * (segment_count as int / 2)
    }
}

/// The tick of sample `i` of a seat ring. A seat ring has half the samples
/// of its parent ring and is shifted by half of its own, doubled, step.
pub open spec fn seat_ticks(segment_count: u32, z_negative: bool, i: int) -> int {
    (4 * i + 2 + seat_offset(segment_count, z_negative)) % turn_ticks(segment_count)
}

/// The vertex of seat `branch` at `ticks`. Its normal is radial in the
/// seat's own ring.
pub open spec fn seat_vertex(branch: u32, ticks: int) -> Vertex {
    Vertex {
        position: Point::Seat { branch, ticks: ticks as u64 },
        normal: Direction::Radial { ticks: ticks as u64 },
        tex_coord: no_tex(),
    }
}

/// The ring that [`seat_ring`] produces.
pub open spec fn seat_ring_model(segment_count: u32, branch: u32, z_negative: bool) -> Seq<Vertex> {
    Seq::new(
        (segment_count / 2) as nat,
        |i: int| seat_vertex(branch, seat_ticks(segment_count, z_negative, i)),
    )
}

/// Whether `segment_count` suits `topology`.
pub fn check_segment_count(segment_count: u32, topology: Topology) -> (r: Result<(), GenError>)
    ensures
        r is Ok <==> admits(segment_count, topology),
        r is Err ==> r == Err::<(), GenError>(GenError::ConfigError),
{
    let d: u32 = match topology {
        Topology::Trunk => 2,
        Topology::Split => 4,
    };
    if segment_count == 0 || segment_count % d != 0 {
        Err(GenError::ConfigError)
    } else {
        Ok(())
    }
}

/// The ring of `segment_count` samples at height `end`, shifted by `phase`
/// half steps: sample `i` sits at tick `(2 * i + phase) mod (2 * S)` and
/// carries the radial normal of that tick.
///
/// Fails with `ConfigError` exactly when the count does not suit the
/// topology.
pub fn ring_profile(segment_count: u32, phase: u32, end: End, topology: Topology) -> (r: Result<
    Vec<Vertex>,
    GenError,
>)
    ensures
        r is Ok <==> admits(segment_count, topology),
        r matches Ok(ring) ==> ring@ == ring_model(segment_count, phase, end),
        r matches Err(e) ==> e == GenError::ConfigError,
{
    match check_segment_count(segment_count, topology) {
        Err(e) => {
            return Err(e);
        },
        Ok(_) => {},
    }
    let turn: u64 = 2 * (segment_count as u64);
    let mut ring: Vec<Vertex> = Vec::new();
    let mut i: u32 = 0;
    while i < segment_count
        invariant
            i <= segment_count,
            segment_count > 0,
            turn == turn_ticks(segment_count),
            ring@ == Seq::new(
                i as nat,
                |j: int| rim_vertex(rim_ticks(segment_count, phase, j), end),
            ),
        decreases segment_count - i,
    {
        let ticks: u64 = (2 * (i as u64) + (phase as u64)) % turn;
        ring.push(
            Vertex {
                position: Point::Rim { ticks, end },
                normal: Direction::Radial { ticks },
                tex_coord: TexCoord { u: 0, v: 0 },
            },
        );
        i = i + 1;
    }
    Ok(ring)
}

/// The ring on which child `branch` of a fork is seated, as seen from the
/// parent: half as many samples as the parent ring, spread over the full
/// turn of the seat, and turned by a quarter or by three quarters of a turn
/// according to the side of the parent the seat lies on (`z_negative`).
///
/// Fails with `ConfigError` exactly when the count is zero or not a
/// multiple of four.
pub fn seat_ring(segment_count: u32, branch: u32, z_negative: bool) -> (r: Result<
    Vec<Vertex>,
    GenError,
>)
    ensures
        r is Ok <==> admits(segment_count, Topology::Split),
        r matches Ok(ring) ==> ring@ == seat_ring_model(segment_count, branch, z_negative),
        r matches Err(e) ==> e == GenError::ConfigError,
{
    match check_segment_count(segment_count, Topology::Split) {
        Err(e) => {
            return Err(e);
        },
        Ok(_) => {},
    }
    let turn: u64 = 2 * (segment_count as u64);
    let half: u32 = segment_count / 2;
    let offset: u64 = if z_negative {
        half as u64
    } else {
        3 * (half as u64)
    };
    let mut ring: Vec<Vertex> = Vec::new();
    let mut i: u32 = 0;
    while i < half
        invariant
            i <= half,
            half == segment_count / 2,
            segment_count > 0,
            turn == turn_ticks(segment_count),
            offset == seat_offset(segment_count, z_negative),
            ring@ == Seq::new(
                i as nat,
                |j: int| seat_vertex(branch, seat_ticks(segment_count, z_negative, j)),
            ),
        decreases half - i,
    {
        let ticks: u64 = (4 * (i as u64) + 2 + offset) % turn;
        ring.push(
            Vertex {
                position: Point::Seat { branch, ticks },
                normal: Direction::Radial { ticks },
                tex_coord: TexCoord { u: 0, v: 0 },
            },
        );
        i = i + 1;
    }
    Ok(ring)
}

} // verus!
