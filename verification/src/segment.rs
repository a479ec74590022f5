//! Segment meshes: the shell between two rings, and the caps that close it.
//!
//! For every ring index `i`, with `n` the index after it on the closed ring,
//! the builder emits the two shell triangles
//! `(bottom[n], bottom[i], top[i])` and `(bottom[n], top[i], top[n])`,
//! then, where asked for, the top cap `(top[i], apex, top[n])` and the bottom
//! cap `(bottom[i], bottom[n], apex)`. With the top ring shifted by half a
//! step against the bottom ring, each quad is thereby cut along the diagonal
//! that joins a bottom vertex to the nearest top vertex.

use vstd::prelude::*;
use crate::config::{AttachmentPoint, GenError};
use crate::ring::{
    admits, no_tex, ring_model, ring_profile, seat_ring, seat_ring_model, Direction, End, Point,
    TexCoord, Topology, Vertex,
};

verus! {

/// Three vertices, in the order that fixes the front face.
#[derive(Clone, Copy, Debug, PartialEq, Eq, Structural)]
pub struct Triangle {
    pub a: Vertex,
    pub b: Vertex,
    pub c: Vertex,
}

/// Which ends of a segment are closed by a fan.
#[derive(Clone, Copy, Debug, PartialEq, Eq, Structural)]
pub struct Caps {
    pub top: bool,
    pub bottom: bool,
}

impl Caps {
    pub open spec fn none() -> Caps {
        Caps { top: false, bottom: false }
    }

    pub open spec fn both() -> Caps {
        Caps { top: true, bottom: true }
    }

    /// How many triangles one ring index contributes.
    pub open spec fn per_index(self) -> int {
        2 + (if self.top {
            1int
        } else {
            0int
        }) + (if self.bottom {
            1int
        } else {
            0int
        })
    }
}

/// The centre of the top cap, facing up.
pub open spec fn apex_top() -> Vertex {
    Vertex { position: Point::Axis { end: End::Top }, normal: Direction::Up, tex_coord: no_tex() }
}

/// The centre of the bottom cap, facing down.
pub open spec fn apex_bottom() -> Vertex {
    Vertex {
        position: Point::Axis { end: End::Bottom },
        normal: Direction::Down,
        tex_coord: no_tex(),
    }
}

/// The index after `i` on a closed ring of `len` samples.
pub open spec fn next_index(i: int, len: int) -> int {
    (i + 1) % len
}

/// The shell triangle at `i` that keeps two bottom vertices.
pub open spec fn shell_lower(bottom: Seq<Vertex>, top: Seq<Vertex>, i: int) -> Triangle {
    Triangle { a: bottom[next_index(i, bottom.len() as int)], b: bottom[i], c: top[i] }
}

/// The shell triangle at `i` that keeps two top vertices.
pub open spec fn shell_upper(bottom: Seq<Vertex>, top: Seq<Vertex>, i: int) -> Triangle {
    Triangle {
        a: bottom[next_index(i, bottom.len() as int)],
        b: top[i],
        c: top[next_index(i, top.len() as int)],
    }
}

/// The piece of the top fan at `i`.
pub open spec fn top_fan(top: Seq<Vertex>, i: int) -> Triangle {
    Triangle { a: top[i], b: apex_top(), c: top[next_index(i, top.len() as int)] }
}

/// The piece of the bottom fan at `i`.
pub open spec fn bottom_fan(bottom: Seq<Vertex>, i: int) -> Triangle {
    Triangle { a: bottom[i], b: bottom[next_index(i, bottom.len() as int)], c: apex_bottom() }
}

/// Everything ring index `i` contributes, in emission order.
pub open spec fn slice_at(bottom: Seq<Vertex>, top: Seq<Vertex>, caps: Caps, i: int) -> Seq<
    Triangle,
> {
    seq![shell_lower(bottom, top, i), shell_upper(bottom, top, i)] + (if caps.top {
        seq![top_fan(top, i)]
    } else {
        Seq::<Triangle>::empty()
    }) + (if caps.bottom {
        seq![bottom_fan(bottom, i)]
    } else {
        Seq::<Triangle>::empty()
    })
}

/// The contributions of ring indices `0 .. n`, one after the other.
pub open spec fn segment_prefix(bottom: Seq<Vertex>, top: Seq<Vertex>, caps: Caps, n: nat) -> Seq<
    Triangle,
>
    decreases n,
{
    if n == 0 {
        Seq::<Triangle>::empty()
    } else {
        segment_prefix(bottom, top, caps, (n - 1) as nat) + slice_at(
            bottom,
            top,
            caps,
            n as int - 1,
        )
    }
}

/// The triangles of the segment between `bottom` and `top`.
pub open spec fn segment_triangles(bottom: Seq<Vertex>, top: Seq<Vertex>, caps: Caps) -> Seq<
    Triangle,
> {
    segment_prefix(bottom, top, caps, bottom.len())
}

/// A prefix over `n` ring indices holds `n` slices of equal size, and slice
/// `i` occupies the positions from `i * per_index` on.
pub proof fn lemma_prefix_layout(bottom: Seq<Vertex>, top: Seq<Vertex>, caps: Caps, n: nat)
    ensures
        segment_prefix(bottom, top, caps, n).len() == n * caps.per_index(),
        forall|i: int, j: int|
            0 <= i < n && 0 <= j < caps.per_index() ==> #[trigger] segment_prefix(
                bottom,
                top,
                caps,
                n,
            )[i * caps.per_index() + j] == slice_at(bottom, top, caps, i)[j],
    decreases n,
{
    let g = caps.per_index();
    if n > 0 {
        let m = (n - 1) as nat;
        lemma_prefix_layout(bottom, top, caps, m);
        let before = segment_prefix(bottom, top, caps, m);
        let last = slice_at(bottom, top, caps, m as int);
        assert(last.len() == g);
        assert(n * g == m * g + g) by (nonlinear_arith)
            requires
                n == m + 1,
        ;
        assert forall|i: int, j: int| 0 <= i < n && 0 <= j < g implies #[trigger] segment_prefix(
            bottom,
            top,
            caps,
            n,
        )[i * g + j] == slice_at(bottom, top, caps, i)[j] by {
            if i < m {
                assert(i * g + j < m * g) by (nonlinear_arith)
                    requires
                        0 <= i < m,
                        0 <= j < g,
                ;
                assert(0 <= i * g + j) by (nonlinear_arith)
                    requires
                        0 <= i,
                        0 <= j,
                        0 < g,
                ;
                assert(before[i * g + j] == slice_at(bottom, top, caps, i)[j]);
            } else {
                assert(i * g + j - m * g == j) by (nonlinear_arith)
                    requires
                        i == m,
                ;
            }
        }
    }
}

/// Triangulates the segment between two rings of equal length.
///
/// The result lists, ring index by ring index, the two shell triangles and
/// then the requested cap pieces, so it holds `2 * S` triangles for the bare
/// shell and `S` more for each capped end.
pub fn build_segment(bottom: &Vec<Vertex>, top: &Vec<Vertex>, caps: Caps) -> (out: Vec<Triangle>)
    requires
        bottom.len() == top.len(),
    ensures
        out@ == segment_triangles(bottom@, top@, caps),
        out.len() == bottom.len() * caps.per_index(),
{
    let n: usize = bottom.len();
    let up = Vertex {
        position: Point::Axis { end: End::Top },
        normal: Direction::Up,
        tex_coord: TexCoord { u: 0, v: 0 },
    };
    let down = Vertex {
        position: Point::Axis { end: End::Bottom },
        normal: Direction::Down,
        tex_coord: TexCoord { u: 0, v: 0 },
    };
    let mut out: Vec<Triangle> = Vec::new();
    let mut i: usize = 0;
    while i < n
        invariant
            i <= n,
            n == bottom.len(),
            n == top.len(),
            up == apex_top(),
            down == apex_bottom(),
            out@ == segment_prefix(bottom@, top@, caps, i as nat),
        decreases n - i,
    {
        let next: usize = if i + 1 == n {
            0
        } else {
            i + 1
        };
        assert(next == next_index(i as int, n as int)) by {
            if i + 1 == n {
                assert((i + 1) % (n as int) == 0) by (nonlinear_arith)
                    requires
                        i + 1 == n,
                        n > 0,
                ;
            } else {
                assert((i + 1) % (n as int) == i + 1) by (nonlinear_arith)
                    requires
                        0 <= i + 1 < n,
                ;
            }
        }
        let ghost before = out@;
        out.push(Triangle { a: bottom[next], b: bottom[i], c: top[i] });
        out.push(Triangle { a: bottom[next], b: top[i], c: top[next] });
        if caps.top {
            out.push(Triangle { a: top[i], b: up, c: top[next] });
        }
        if caps.bottom {
            out.push(Triangle { a: bottom[i], b: bottom[next], c: down });
        }
        assert(out@ =~= before + slice_at(bottom@, top@, caps, i as int));
        i = i + 1;
    }
    proof {
        lemma_prefix_layout(bottom@, top@, caps, n as nat);
    }
    out
}

/// The canonical segment, closed at both ends: an unshifted ring at the
/// bottom, a ring shifted by half a step at the top.
pub open spec fn capped_model(segment_count: u32) -> Seq<Triangle> {
    segment_triangles(
        ring_model(segment_count, 0, End::Bottom),
        ring_model(segment_count, 1, End::Top),
        Caps::both(),
    )
}

/// The canonical segment without caps.
pub open spec fn trunk_model(segment_count: u32) -> Seq<Triangle> {
    segment_triangles(
        ring_model(segment_count, 0, End::Bottom),
        ring_model(segment_count, 1, End::Top),
        Caps::none(),
    )
}

/// The coordinate-sign test that decides which way a seat ring is turned.
pub open spec fn seat_is_negative(point: AttachmentPoint) -> bool {
    point.position.z < 0
}

/// The top ring of a fork: the seat ring of the first child, then that of
/// the second. The first half of the bottom ring thus meets the first
/// child, the second half the second.
pub open spec fn split_top_model(segment_count: u32, first: bool, second: bool) -> Seq<Vertex> {
    seat_ring_model(segment_count, 0, first) + seat_ring_model(segment_count, 1, second)
}

/// The shell from an unshifted bottom ring up to the seats of two children
/// whose sign tests gave `first` and `second`.
pub open spec fn fork_model(segment_count: u32, first: bool, second: bool) -> Seq<Triangle> {
    segment_triangles(
        ring_model(segment_count, 0, End::Bottom),
        split_top_model(segment_count, first, second),
        Caps::none(),
    )
}

/// Builds the canonical capped segment: `2 * S` shell triangles and `2 * S`
/// cap triangles.
///
/// Fails with `ConfigError` exactly when the count is zero or odd.
pub fn capped_segment(segment_count: u32) -> (r: Result<Vec<Triangle>, GenError>)
    ensures
        r is Ok <==> admits(segment_count, Topology::Trunk),
        r matches Ok(mesh) ==> mesh@ == capped_model(segment_count) && mesh.len() == 4
            * segment_count,
        r matches Err(e) ==> e == GenError::ConfigError,
{
    let bottom = match ring_profile(segment_count, 0, End::Bottom, Topology::Trunk) {
        Ok(ring) => ring,
        Err(e) => {
            return Err(e);
        },
    };
    let top = match ring_profile(segment_count, 1, End::Top, Topology::Trunk) {
        Ok(ring) => ring,
        Err(e) => {
            return Err(e);
        },
    };
    let caps = Caps { top: true, bottom: true };
    let mesh = build_segment(&bottom, &top, caps);
    assert(mesh.len() == 4 * segment_count) by (nonlinear_arith)
        requires
            mesh.len() == bottom.len() * caps.per_index(),
            caps.per_index() == 4,
            bottom.len() == segment_count,
    ;
    Ok(mesh)
}

/// Builds the canonical segment without caps: `2 * S` shell triangles.
///
/// Fails with `ConfigError` exactly when the count is zero or odd.
pub fn trunk_segment(segment_count: u32) -> (r: Result<Vec<Triangle>, GenError>)
    ensures
        r is Ok <==> admits(segment_count, Topology::Trunk),
        r matches Ok(mesh) ==> mesh@ == trunk_model(segment_count) && mesh.len() == 2
            * segment_count,
        r matches Err(e) ==> e == GenError::ConfigError,
{
    let bottom = match ring_profile(segment_count, 0, End::Bottom, Topology::Trunk) {
        Ok(ring) => ring,
        Err(e) => {
            return Err(e);
        },
    };
    let top = match ring_profile(segment_count, 1, End::Top, Topology::Trunk) {
        Ok(ring) => ring,
        Err(e) => {
            return Err(e);
        },
    };
    let caps = Caps { top: false, bottom: false };
    let mesh = build_segment(&bottom, &top, caps);
    assert(mesh.len() == 2 * segment_count) by (nonlinear_arith)
        requires
            mesh.len() == bottom.len() * caps.per_index(),
            caps.per_index() == 2,
            bottom.len() == segment_count,
    ;
    Ok(mesh)
}

/// Builds the shell of a forking segment: from an unshifted bottom ring up
/// to the seat rings of the two children, `2 * S` triangles.
///
/// Fails with `ConfigError` exactly when the count is zero or not a
/// multiple of four, or when there are not exactly two attachment points.
pub fn fork_segment(segment_count: u32, points: &Vec<AttachmentPoint>) -> (r: Result<
    Vec<Triangle>,
    GenError,
>)
    ensures
        r is Ok <==> admits(segment_count, Topology::Split) && points.len() == 2,
        r matches Ok(mesh) ==> mesh@ == fork_model(
            segment_count,
            seat_is_negative(points[0]),
            seat_is_negative(points[1]),
        ) && mesh.len() == 2 * segment_count,
        r matches Err(e) ==> e == GenError::ConfigError,
{
    if points.len() != 2 {
        return Err(GenError::ConfigError);
    }
    let bottom = match ring_profile(segment_count, 0, End::Bottom, Topology::Split) {
        Ok(ring) => ring,
        Err(e) => {
            return Err(e);
        },
    };
    let mut top = match seat_ring(segment_count, 0, points[0].position.z < 0) {
        Ok(ring) => ring,
        Err(e) => {
            return Err(e);
        },
    };
    let mut second = match seat_ring(segment_count, 1, points[1].position.z < 0) {
        Ok(ring) => ring,
        Err(e) => {
            return Err(e);
        },
    };
    top.append(&mut second);
    assert(top@.len() == segment_count / 2 + segment_count / 2);
    let caps = Caps { top: false, bottom: false };
    let mesh = build_segment(&bottom, &top, caps);
    assert(mesh.len() == 2 * segment_count) by (nonlinear_arith)
        requires
            mesh.len() == bottom.len() * caps.per_index(),
            caps.per_index() == 2,
            bottom.len() == segment_count,
    ;
    Ok(mesh)
}

} // verus!
