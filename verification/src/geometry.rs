//! The fixed cube geometry and per-frame rasterization.
//!
//! The cube's eight vertices sit at coordinates of one unit on each axis,
//! and its twelve edges join them: the back face, the front face, and the
//! four connections between the faces. Rotation and projection of the
//! vertices happen outside this crate; this module takes the eight projected
//! screen points and rasterizes the twelve edges between them.

use vstd::prelude::*;

verus! {

use crate::HEIGHT;
use crate::WIDTH;
use crate::raster::draw_line;
use crate::raster::line_points;
use crate::screen::Screen;

/// The eight cube vertices, in cube units, in their fixed order.
pub open spec fn cube_vertices_spec() -> Seq<(i32, i32, i32)> {
    seq![
        (-1i32, -1i32, -1i32),
        (1i32, -1i32, -1i32),
        (1i32, 1i32, -1i32),
        (-1i32, 1i32, -1i32),
        (-1i32, -1i32, 1i32),
        (1i32, -1i32, 1i32),
        (1i32, 1i32, 1i32),
        (-1i32, 1i32, 1i32),
    ]
}

/// The twelve edges, as pairs of vertex indices: the back face, the front
/// face, and the connections between them.
pub open spec fn cube_edges_spec() -> Seq<(usize, usize)> {
    seq![
        (0usize, 1usize),
        (1usize, 2usize),
        (2usize, 3usize),
        (3usize, 0usize),
        (4usize, 5usize),
        (5usize, 6usize),
        (6usize, 7usize),
        (7usize, 4usize),
        (0usize, 4usize),
        (1usize, 5usize),
        (2usize, 6usize),
        (3usize, 7usize),
    ]
}

/// The cells one edge marks, given the projected vertex points.
pub open spec fn edge_marks(pts: Seq<(usize, usize)>, e: (usize, usize)) -> Set<(int, int)> {
    line_points(
        pts[e.0 as int].0 as int,
        pts[e.0 as int].1 as int,
        pts[e.1 as int].0 as int,
        pts[e.1 as int].1 as int,
    )
}

/// The cells the first `k` edges mark together.
pub open spec fn edges_marks(pts: Seq<(usize, usize)>, k: int) -> Set<(int, int)>
    decreases k,
{
    if k <= 0 {
        Set::empty()
    } else {
        edges_marks(pts, k - 1).union(edge_marks(pts, cube_edges_spec()[k - 1]))
    }
}

/// The cells a whole frame marks: the union over all twelve edges.
pub open spec fn frame_marks(pts: Seq<(usize, usize)>) -> Set<(int, int)> {
    edges_marks(pts, 12)
}

/// The cube's vertices as a vector, in their fixed order.
pub fn cube_vertices() -> (v: Vec<(i32, i32, i32)>)
    ensures
        v@ == cube_vertices_spec(),
{
    let mut v: Vec<(i32, i32, i32)> = Vec::new();
    v.push((-1, -1, -1));
    v.push((1, -1, -1));
    v.push((1, 1, -1));
    v.push((-1, 1, -1));
    v.push((-1, -1, 1));
    v.push((1, -1, 1));
    v.push((1, 1, 1));
    v.push((-1, 1, 1));
    proof {
        assert(v@ =~= cube_vertices_spec());
    }
    v
}

/// The cube's edges as a vector of vertex-index pairs, in their fixed order.
pub fn cube_edges() -> (e: Vec<(usize, usize)>)
    ensures
        e@ == cube_edges_spec(),
{
    let mut e: Vec<(usize, usize)> = Vec::new();
    e.push((0, 1));
    e.push((1, 2));
    e.push((2, 3));
    e.push((3, 0));
    e.push((4, 5));
    e.push((5, 6));
    e.push((6, 7));
    e.push((7, 4));
    e.push((0, 4));
    e.push((1, 5));
    e.push((2, 6));
    e.push((3, 7));
    proof {
        assert(e@ =~= cube_edges_spec());
    }
    e
}

/// Every edge joins two of the eight vertices.
pub proof fn lemma_cube_edges_wf()
    ensures
        forall|i: int|
            0 <= i < 12 ==> (#[trigger] cube_edges_spec()[i]).0 < 8 && cube_edges_spec()[i].1 < 8,
{
}

/// Rasterize one frame: a blank screen with the twelve edges drawn between
/// the eight projected vertex points.
pub fn render_frame(points: &Vec<(usize, usize)>) -> (s: Screen)
    requires
        points@.len() == 8,
        forall|i: int|
            0 <= i < 8 ==> (#[trigger] points@[i]).0 < WIDTH && points@[i].1 < HEIGHT,
    ensures
        s.wf(),
        s.marked() == frame_marks(points@),
{
    let edges = cube_edges();
    let mut s = Screen::new();
    proof {
        assert(s.marked() =~= edges_marks(points@, 0));
    }
    let mut k: usize = 0;
    while k < edges.len()
        invariant
            s.wf(),
            edges@ == cube_edges_spec(),
            edges@.len() == 12,
            k <= 12,
            points@.len() == 8,
            forall|i: int|
                0 <= i < 8 ==> (#[trigger] points@[i]).0 < WIDTH && points@[i].1 < HEIGHT,
            s.marked() == edges_marks(points@, k as int),
        decreases 12 - k,
    {
        proof {
            lemma_cube_edges_wf();
        }
        let (a, b) = edges[k];
        draw_line(points[a], points[b], &mut s);
        proof {
            assert(s.marked() =~= edges_marks(points@, k as int + 1));
        }
        k = k + 1;
    }
    s
}

} // verus!
