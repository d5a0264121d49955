//! Integer line rasterization with an incremental error term.
//!
//! The rasterizer walks from one endpoint to the other, plotting one cell per
//! step and advancing along one or both axes by comparing the doubled error
//! term against the coordinate deltas. The cells it plots are pinned down by
//! the recursive spec function [`line_points`].

use vstd::prelude::*;

verus! {

use crate::HEIGHT;
use crate::WIDTH;
use crate::screen::Screen;

/// Absolute value.
pub open spec fn iabs(v: int) -> int {
    if v < 0 {
        -v
    } else {
        v
    }
}

/// Unit step from one coordinate toward another.
pub open spec fn step_dir(from: int, to: int) -> int {
    if from < to {
        1
    } else {
        -1
    }
}

/// The walk's state invariant. `(x0, y0)` is the current point, `(x1, y1)`
/// the endpoint; `sx`, `sy`, `dx`, `dy` are fixed for the whole walk, and
/// `err` carries the accumulated error. The last conjunct is the closed form
/// of the error term after `dx - sx*(x1 - x0)` steps in x and
/// `-dy - sy*(y1 - y0)` steps in y; it forces the walk never to overshoot
/// the endpoint.
pub open spec fn bres_inv(
    x0: int,
    y0: int,
    x1: int,
    y1: int,
    sx: int,
    sy: int,
    dx: int,
    dy: int,
    err: int,
) -> bool {
    &&& sx == 1 || sx == -1
    &&& sy == 1 || sy == -1
    &&& dx >= 0
    &&& dy <= 0
    &&& 0 <= sx * (x1 - x0) <= dx
    &&& 0 <= sy * (y1 - y0) <= -dy
    &&& err == (-dy - sy * (y1 - y0) + 1) * dx + (dx - sx * (x1 - x0) + 1) * dy
}

/// The next x coordinate: x advances when the doubled error reaches `dy`.
pub open spec fn bres_next_x(x0: int, sx: int, dx: int, dy: int, err: int) -> int {
    if 2 * err >= dy {
        x0 + sx
    } else {
        x0
    }
}

/// The next y coordinate: y advances when the doubled error is at most `dx`.
pub open spec fn bres_next_y(y0: int, sy: int, dx: int, dy: int, err: int) -> int {
    if 2 * err <= dx {
        y0 + sy
    } else {
        y0
    }
}

/// The next error term, adjusted for each axis that advanced.
pub open spec fn bres_next_err(dx: int, dy: int, err: int) -> int {
    let e1 = if 2 * err >= dy {
        err + dy
    } else {
        err
    };
    if 2 * err <= dx {
        e1 + dx
    } else {
        e1
    }
}

/// The set of cells the walk plots from `(x0, y0)` until it reaches
/// `(x1, y1)`.
pub open spec fn bres_trace(
    x0: int,
    y0: int,
    x1: int,
    y1: int,
    sx: int,
    sy: int,
    dx: int,
    dy: int,
    err: int,
) -> Set<(int, int)>
    decreases sx * (x1 - x0) + sy * (y1 - y0),
        when bres_inv(x0, y0, x1, y1, sx, sy, dx, dy, err)
        via bres_trace_decreases
{
    if x0 == x1 && y0 == y1 {
        set![(x0, y0)]
    } else {
        bres_trace(
            bres_next_x(x0, sx, dx, dy, err),
            bres_next_y(y0, sy, dx, dy, err),
            x1,
            y1,
            sx,
            sy,
            dx,
            dy,
            bres_next_err(dx, dy, err),
        ).insert((x0, y0))
    }
}

#[via_fn]
proof fn bres_trace_decreases(
    x0: int,
    y0: int,
    x1: int,
    y1: int,
    sx: int,
    sy: int,
    dx: int,
    dy: int,
    err: int,
) {
    if bres_inv(x0, y0, x1, y1, sx, sy, dx, dy, err) && !(x0 == x1 && y0 == y1) {
        lemma_bres_step(x0, y0, x1, y1, sx, sy, dx, dy, err);
    }
}

/// A signed unit factor turns `s * (a - b) >= 0` into an ordering of `a`
/// and `b`.
proof fn lemma_sign_bound(s: int, a: int, b: int)
    requires
        s == 1 || s == -1,
        s * (a - b) >= 0,
    ensures
        s == 1 ==> b <= a,
        s == -1 ==> a <= b,
{
    if s == 1 {
        assert(s * (a - b) == a - b) by (nonlinear_arith)
            requires
                s == 1,
        ;
    } else {
        assert(s * (a - b) == b - a) by (nonlinear_arith)
            requires
                s == -1,
        ;
    }
}

/// One step of the walk keeps the state invariant and moves the current
/// point strictly closer to the endpoint.
pub proof fn lemma_bres_step(
    x0: int,
    y0: int,
    x1: int,
    y1: int,
    sx: int,
    sy: int,
    dx: int,
    dy: int,
    err: int,
)
    requires
        bres_inv(x0, y0, x1, y1, sx, sy, dx, dy, err),
        x0 != x1 || y0 != y1,
    ensures
        bres_inv(
            bres_next_x(x0, sx, dx, dy, err),
            bres_next_y(y0, sy, dx, dy, err),
            x1,
            y1,
            sx,
            sy,
            dx,
            dy,
            bres_next_err(dx, dy, err),
        ),
        sx * (x1 - bres_next_x(x0, sx, dx, dy, err)) + sy * (y1 - bres_next_y(
            y0,
            sy,
            dx,
            dy,
            err,
        )) < sx * (x1 - x0) + sy * (y1 - y0),
{
    let rx = sx * (x1 - x0);
    let ry = sy * (y1 - y0);
    // A degenerate remaining distance pins the coordinate to the endpoint.
    if rx == 0 {
        assert(x0 == x1) by (nonlinear_arith)
            requires
                sx * (x1 - x0) == 0,
                sx == 1 || sx == -1,
        ;
    }
    if ry == 0 {
        assert(y0 == y1) by (nonlinear_arith)
            requires
                sy * (y1 - y0) == 0,
                sy == 1 || sy == -1,
        ;
    }
    // When x is already finished, the x axis does not advance.
    if rx == 0 {
        assert(ry >= 1);
        assert(2 * err < dy) by (nonlinear_arith)
            requires
                err == (-dy - ry + 1) * dx + (dx - rx + 1) * dy,
                rx == 0,
                1 <= ry <= -dy,
                dx >= 0,
                dy <= 0,
        ;
    }
    // When y is already finished, the y axis does not advance.
    if ry == 0 {
        assert(rx >= 1);
        assert(2 * err > dx) by (nonlinear_arith)
            requires
                err == (-dy - ry + 1) * dx + (dx - rx + 1) * dy,
                ry == 0,
                1 <= rx <= dx,
                dy <= 0,
        ;
    }
    let nx = bres_next_x(x0, sx, dx, dy, err);
    let ny = bres_next_y(y0, sy, dx, dy, err);
    let ne = bres_next_err(dx, dy, err);
    if 2 * err >= dy {
        assert(rx >= 1);
        assert(sx * (x1 - (x0 + sx)) == rx - 1) by (nonlinear_arith)
            requires
                rx == sx * (x1 - x0),
                sx == 1 || sx == -1,
        ;
    }
    if 2 * err <= dx {
        assert(ry >= 1);
        assert(sy * (y1 - (y0 + sy)) == ry - 1) by (nonlinear_arith)
            requires
                ry == sy * (y1 - y0),
                sy == 1 || sy == -1,
        ;
    }
    let nrx = sx * (x1 - nx);
    let nry = sy * (y1 - ny);
    if 2 * err >= dy && 2 * err <= dx {
        assert(ne == (-dy - nry + 1) * dx + (dx - nrx + 1) * dy) by (nonlinear_arith)
            requires
                err == (-dy - ry + 1) * dx + (dx - rx + 1) * dy,
                ne == err + dy + dx,
                nrx == rx - 1,
                nry == ry - 1,
        ;
    } else if 2 * err >= dy {
        assert(ne == (-dy - nry + 1) * dx + (dx - nrx + 1) * dy) by (nonlinear_arith)
            requires
                err == (-dy - ry + 1) * dx + (dx - rx + 1) * dy,
                ne == err + dy,
                nrx == rx - 1,
                nry == ry,
        ;
    } else {
        assert(2 * err <= dx);
        assert(ne == (-dy - nry + 1) * dx + (dx - nrx + 1) * dy) by (nonlinear_arith)
            requires
                err == (-dy - ry + 1) * dx + (dx - rx + 1) * dy,
                ne == err + dx,
                nrx == rx,
                nry == ry - 1,
        ;
    }
}

/// The walk's invariant holds at its starting state for any two endpoints.
pub proof fn lemma_line_points_init(x0: int, y0: int, x1: int, y1: int)
    ensures
        bres_inv(
            x0,
            y0,
            x1,
            y1,
            step_dir(x0, x1),
            step_dir(y0, y1),
            iabs(x1 - x0),
            -iabs(y1 - y0),
            iabs(x1 - x0) - iabs(y1 - y0),
        ),
{
    let sx = step_dir(x0, x1);
    let sy = step_dir(y0, y1);
    let dx = iabs(x1 - x0);
    let dy = -iabs(y1 - y0);
    if x0 < x1 {
        assert(sx * (x1 - x0) == x1 - x0) by (nonlinear_arith)
            requires
                sx == 1,
        ;
    } else {
        assert(sx * (x1 - x0) == x0 - x1) by (nonlinear_arith)
            requires
                sx == -1,
        ;
    }
    if y0 < y1 {
        assert(sy * (y1 - y0) == y1 - y0) by (nonlinear_arith)
            requires
                sy == 1,
        ;
    } else {
        assert(sy * (y1 - y0) == y0 - y1) by (nonlinear_arith)
            requires
                sy == -1,
        ;
    }
    assert((-dy - (-dy) + 1) * dx + (dx - dx + 1) * dy == dx + dy) by (nonlinear_arith);
}

/// The set of cells the rasterizer marks for the segment from `(x0, y0)`
/// to `(x1, y1)`.
pub open spec fn line_points(x0: int, y0: int, x1: int, y1: int) -> Set<(int, int)> {
    bres_trace(
        x0,
        y0,
        x1,
        y1,
        step_dir(x0, x1),
        step_dir(y0, y1),
        iabs(x1 - x0),
        -iabs(y1 - y0),
        iabs(x1 - x0) - iabs(y1 - y0),
    )
}

/// Rasterize the segment between two on-screen points. Afterwards the
/// marked cells are exactly the previously marked cells together with the
/// segment's cells.
pub fn draw_line(p0: (usize, usize), p1: (usize, usize), screen: &mut Screen)
    requires
        old(screen).wf(),
        p0.0 < WIDTH,
        p0.1 < HEIGHT,
        p1.0 < WIDTH,
        p1.1 < HEIGHT,
    ensures
        final(screen).wf(),
        final(screen).marked() == old(screen).marked().union(
            line_points(p0.0 as int, p0.1 as int, p1.0 as int, p1.1 as int),
        ),
{
    let x_end: isize = p1.0 as isize;
    let y_end: isize = p1.1 as isize;
    let mut x0: isize = p0.0 as isize;
    let mut y0: isize = p0.1 as isize;
    let dx: isize = if x_end >= x0 {
        x_end - x0
    } else {
        x0 - x_end
    };
    let dy: isize = if y_end >= y0 {
        y0 - y_end
    } else {
        y_end - y0
    };
    let sx: isize = if x0 < x_end {
        1
    } else {
        -1
    };
    let sy: isize = if y0 < y_end {
        1
    } else {
        -1
    };
    let mut err: isize = dx + dy;
    let ghost total = line_points(p0.0 as int, p0.1 as int, p1.0 as int, p1.1 as int);
    let ghost mut plotted = Set::<(int, int)>::empty();
    proof {
        lemma_line_points_init(p0.0 as int, p0.1 as int, p1.0 as int, p1.1 as int);
        assert(total =~= plotted.union(
            bres_trace(
                x0 as int,
                y0 as int,
                x_end as int,
                y_end as int,
                sx as int,
                sy as int,
                dx as int,
                dy as int,
                err as int,
            ),
        ));
        assert(screen.marked() =~= old(screen).marked().union(plotted));
    }
    while x0 != x_end || y0 != y_end
        invariant
            screen.wf(),
            x_end == p1.0 as isize,
            y_end == p1.1 as isize,
            p1.0 < WIDTH,
            p1.1 < HEIGHT,
            0 <= (x0 as int) && (x0 as int) < WIDTH,
            0 <= (y0 as int) && (y0 as int) < HEIGHT,
            0 <= (dx as int) && (dx as int) < WIDTH,
            -(HEIGHT as int) < (dy as int) && (dy as int) <= 0,
            bres_inv(
                x0 as int,
                y0 as int,
                x_end as int,
                y_end as int,
                sx as int,
                sy as int,
                dx as int,
                dy as int,
                err as int,
            ),
            total == plotted.union(
                bres_trace(
                    x0 as int,
                    y0 as int,
                    x_end as int,
                    y_end as int,
                    sx as int,
                    sy as int,
                    dx as int,
                    dy as int,
                    err as int,
                ),
            ),
            screen.marked() == old(screen).marked().union(plotted),
        decreases (sx as int) * (x_end as int - x0 as int) + (sy as int) * (y_end as int
            - y0 as int),
    {
        let ghost px = x0 as int;
        let ghost py = y0 as int;
        let ghost perr = err as int;
        proof {
            lemma_bres_step(
                px,
                py,
                x_end as int,
                y_end as int,
                sx as int,
                sy as int,
                dx as int,
                dy as int,
                perr,
            );
        }
        if x0 >= 0 && (x0 as usize) < WIDTH && y0 >= 0 && (y0 as usize) < HEIGHT {
            screen.mark(x0 as usize, y0 as usize);
        }
        proof {
            plotted = plotted.insert((px, py));
            assert(screen.marked() =~= old(screen).marked().union(plotted));
            assert(total =~= plotted.union(
                bres_trace(
                    bres_next_x(px, sx as int, dx as int, dy as int, perr),
                    bres_next_y(py, sy as int, dx as int, dy as int, perr),
                    x_end as int,
                    y_end as int,
                    sx as int,
                    sy as int,
                    dx as int,
                    dy as int,
                    bres_next_err(dx as int, dy as int, perr),
                ),
            ));
            // The error term stays small: both products in its closed form
            // are bounded by the grid size.
            assert(-4000 <= (err as int) && (err as int) <= 4000) by (nonlinear_arith)
                requires
                    perr == (-(dy as int) - (sy as int) * (y_end as int - py) + 1) * (dx as int) + (
                    dx as int - (sx as int) * (x_end as int - px) + 1) * (dy as int),
                    err as int == perr,
                    0 <= (sx as int) * (x_end as int - px) <= dx as int,
                    0 <= (sy as int) * (y_end as int - py) <= -(dy as int),
                    0 <= (dx as int) && (dx as int) < 80,
                    -24 < (dy as int) && (dy as int) <= 0,
            ;
        }
        let e2: isize = 2 * err;
        if e2 >= dy {
            err = err + dy;
            x0 = x0 + sx;
        }
        if e2 <= dx {
            err = err + dx;
            y0 = y0 + sy;
        }
        proof {
            assert(x0 as int == bres_next_x(px, sx as int, dx as int, dy as int, perr));
            assert(y0 as int == bres_next_y(py, sy as int, dx as int, dy as int, perr));
            assert(err as int == bres_next_err(dx as int, dy as int, perr));
            lemma_sign_bound(sx as int, x_end as int, x0 as int);
            lemma_sign_bound(sy as int, y_end as int, y0 as int);
        }
    }
    screen.mark(x0 as usize, y0 as usize);
    proof {
        assert(bres_trace(
            x0 as int,
            y0 as int,
            x_end as int,
            y_end as int,
            sx as int,
            sy as int,
            dx as int,
            dy as int,
            err as int,
        ) =~= set![(x_end as int, y_end as int)]);
        assert(screen.marked() =~= old(screen).marked().union(total));
    }
}

/// Law: a segment covers both of its endpoints, and never leaves their
/// bounding box; with on-screen endpoints the rasterizer thus writes no
/// cell outside the screen.
pub proof fn lemma_line_points_box(x0: int, y0: int, x1: int, y1: int)
    ensures
        line_points(x0, y0, x1, y1).contains((x0, y0)),
        line_points(x0, y0, x1, y1).contains((x1, y1)),
        forall|p: (int, int)|
            line_points(x0, y0, x1, y1).contains(p) ==> in_box(p, x0, y0, x1, y1),
{
    lemma_line_points_init(x0, y0, x1, y1);
    lemma_bres_trace_box(
        x0,
        y0,
        x1,
        y1,
        step_dir(x0, x1),
        step_dir(y0, y1),
        iabs(x1 - x0),
        -iabs(y1 - y0),
        iabs(x1 - x0) - iabs(y1 - y0),
    );
}

/// Whether a cell lies in the bounding box of two points.
pub open spec fn in_box(p: (int, int), x0: int, y0: int, x1: int, y1: int) -> bool {
    &&& (if x0 <= x1 {
        x0 <= p.0 <= x1
    } else {
        x1 <= p.0 <= x0
    })
    &&& (if y0 <= y1 {
        y0 <= p.1 <= y1
    } else {
        y1 <= p.1 <= y0
    })
}

/// The walk's trace covers its current point and its endpoint and stays in
/// their bounding box.
proof fn lemma_bres_trace_box(
    x0: int,
    y0: int,
    x1: int,
    y1: int,
    sx: int,
    sy: int,
    dx: int,
    dy: int,
    err: int,
)
    requires
        bres_inv(x0, y0, x1, y1, sx, sy, dx, dy, err),
    ensures
        bres_trace(x0, y0, x1, y1, sx, sy, dx, dy, err).contains((x0, y0)),
        bres_trace(x0, y0, x1, y1, sx, sy, dx, dy, err).contains((x1, y1)),
        forall|p: (int, int)|
            bres_trace(x0, y0, x1, y1, sx, sy, dx, dy, err).contains(p) ==> in_box(
                p,
                x0,
                y0,
                x1,
                y1,
            ),
    decreases sx * (x1 - x0) + sy * (y1 - y0),
{
    lemma_sign_bound(sx, x1, x0);
    lemma_sign_bound(sy, y1, y0);
    if x0 == x1 && y0 == y1 {
    } else {
        lemma_bres_step(x0, y0, x1, y1, sx, sy, dx, dy, err);
        let nx = bres_next_x(x0, sx, dx, dy, err);
        let ny = bres_next_y(y0, sy, dx, dy, err);
        let ne = bres_next_err(dx, dy, err);
        lemma_bres_trace_box(nx, ny, x1, y1, sx, sy, dx, dy, ne);
        lemma_sign_bound(sx, x1, nx);
        lemma_sign_bound(sy, y1, ny);
        // The next point sits between the current point and the endpoint,
        // so the next bounding box is contained in the current one.
        assert forall|p: (int, int)|
            bres_trace(x0, y0, x1, y1, sx, sy, dx, dy, err).contains(p) implies in_box(
            p,
            x0,
            y0,
            x1,
            y1,
        ) by {
            if p != (x0, y0) {
                assert(bres_trace(nx, ny, x1, y1, sx, sy, dx, dy, ne).contains(p));
                assert(in_box(p, nx, ny, x1, y1));
            }
        }
    }
}

/// Law: a segment whose endpoints coincide covers exactly that one cell.
pub proof fn lemma_line_points_single(x: int, y: int)
    ensures
        line_points(x, y, x, y) == set![(x, y)],
{
    lemma_line_points_init(x, y, x, y);
    assert(line_points(x, y, x, y) =~= set![(x, y)]);
}

/// Law: a horizontal segment covers exactly the cells of its row whose
/// column lies between its endpoints, one cell per column.
pub proof fn lemma_line_points_horizontal(x0: int, y: int, x1: int)
    ensures
        line_points(x0, y, x1, y) == Set::new(
            |p: (int, int)|
                p.1 == y && (if x0 <= x1 {
                    x0 <= p.0 <= x1
                } else {
                    x1 <= p.0 <= x0
                }),
        ),
        line_points(x0, y, x1, y).finite(),
        line_points(x0, y, x1, y).len() == iabs(x1 - x0) + 1,
{
    lemma_line_points_init(x0, y, x1, y);
    lemma_bres_trace_horizontal(x0, y, x1, step_dir(x0, x1), iabs(x1 - x0));
    assert(line_points(x0, y, x1, y) =~= Set::new(
        |p: (int, int)|
            p.1 == y && (if x0 <= x1 {
                x0 <= p.0 <= x1
            } else {
                x1 <= p.0 <= x0
            }),
    ));
}

/// Law: a vertical segment covers exactly the cells of its column whose
/// row lies between its endpoints, one cell per row.
pub proof fn lemma_line_points_vertical(x: int, y0: int, y1: int)
    ensures
        line_points(x, y0, x, y1) == Set::new(
            |p: (int, int)|
                p.0 == x && (if y0 <= y1 {
                    y0 <= p.1 <= y1
                } else {
                    y1 <= p.1 <= y0
                }),
        ),
        line_points(x, y0, x, y1).finite(),
        line_points(x, y0, x, y1).len() == iabs(y1 - y0) + 1,
{
    lemma_line_points_init(x, y0, x, y1);
    lemma_bres_trace_vertical(x, y0, y1, step_dir(y0, y1), -iabs(y1 - y0));
    assert(line_points(x, y0, x, y1) =~= Set::new(
        |p: (int, int)|
            p.0 == x && (if y0 <= y1 {
                y0 <= p.1 <= y1
            } else {
                y1 <= p.1 <= y0
            }),
    ));
}

/// On a vertical walk the x axis never advances, so the trace is the column
/// of cells between the current point and the endpoint.
proof fn lemma_bres_trace_vertical(x: int, y0: int, y1: int, sy: int, dy: int)
    requires
        bres_inv(x, y0, x, y1, -1, sy, 0, dy, dy),
    ensures
        bres_trace(x, y0, x, y1, -1, sy, 0, dy, dy) =~= Set::new(
            |p: (int, int)|
                p.0 == x && (if y0 <= y1 {
                    y0 <= p.1 <= y1
                } else {
                    y1 <= p.1 <= y0
                }),
        ),
        bres_trace(x, y0, x, y1, -1, sy, 0, dy, dy).finite(),
        bres_trace(x, y0, x, y1, -1, sy, 0, dy, dy).len() == iabs(y1 - y0) + 1,
    decreases iabs(y1 - y0),
{
    let ry = sy * (y1 - y0);
    if y0 == y1 {
        assert(bres_trace(x, y0, x, y1, -1, sy, 0, dy, dy) =~= Set::new(
            |p: (int, int)|
                p.0 == x && (if y0 <= y1 {
                    y0 <= p.1 <= y1
                } else {
                    y1 <= p.1 <= y0
                }),
        ));
    } else {
        lemma_bres_step(x, y0, x, y1, -1, sy, 0, dy, dy);
        if ry == 0 {
            assert(y0 == y1) by (nonlinear_arith)
                requires
                    sy * (y1 - y0) == 0,
                    sy == 1 || sy == -1,
            ;
        }
        assert(ry >= 1);
        assert(dy <= -1);
        // With the error term at dy and dx == 0, only the y axis steps.
        assert(bres_next_x(x, -1, 0, dy, dy) == x);
        assert(bres_next_y(y0, sy, 0, dy, dy) == y0 + sy);
        assert(bres_next_err(0, dy, dy) == dy);
        if sy == 1 {
            assert(sy * (y1 - (y0 + sy)) == y1 - y0 - 1) by (nonlinear_arith)
                requires
                    sy == 1,
            ;
            assert(y0 < y1) by (nonlinear_arith)
                requires
                    sy == 1,
                    sy * (y1 - y0) >= 1,
            ;
        } else {
            assert(sy * (y1 - (y0 + sy)) == y0 - 1 - y1) by (nonlinear_arith)
                requires
                    sy == -1,
            ;
            assert(y1 < y0) by (nonlinear_arith)
                requires
                    sy == -1,
                    sy * (y1 - y0) >= 1,
            ;
        }
        lemma_bres_trace_vertical(x, y0 + sy, y1, sy, dy);
        let rest = bres_trace(x, y0 + sy, x, y1, -1, sy, 0, dy, dy);
        assert(bres_trace(x, y0, x, y1, -1, sy, 0, dy, dy) == rest.insert((x, y0)));
        assert(!rest.contains((x, y0)));
        assert(bres_trace(x, y0, x, y1, -1, sy, 0, dy, dy) =~= Set::new(
            |p: (int, int)|
                p.0 == x && (if y0 <= y1 {
                    y0 <= p.1 <= y1
                } else {
                    y1 <= p.1 <= y0
                }),
        ));
    }
}

/// On a horizontal walk the y axis never advances, so the trace is the row
/// of cells between the current point and the endpoint.
proof fn lemma_bres_trace_horizontal(x0: int, y: int, x1: int, sx: int, dx: int)
    requires
        bres_inv(x0, y, x1, y, sx, -1, dx, 0, dx),
    ensures
        bres_trace(x0, y, x1, y, sx, -1, dx, 0, dx) =~= Set::new(
            |p: (int, int)|
                p.1 == y && (if x0 <= x1 {
                    x0 <= p.0 <= x1
                } else {
                    x1 <= p.0 <= x0
                }),
        ),
        bres_trace(x0, y, x1, y, sx, -1, dx, 0, dx).finite(),
        bres_trace(x0, y, x1, y, sx, -1, dx, 0, dx).len() == iabs(x1 - x0) + 1,
    decreases iabs(x1 - x0),
{
    let rx = sx * (x1 - x0);
    if x0 == x1 {
        assert(bres_trace(x0, y, x1, y, sx, -1, dx, 0, dx) =~= Set::new(
            |p: (int, int)|
                p.1 == y && (if x0 <= x1 {
                    x0 <= p.0 <= x1
                } else {
                    x1 <= p.0 <= x0
                }),
        ));
    } else {
        lemma_bres_step(x0, y, x1, y, sx, -1, dx, 0, dx);
        if rx == 0 {
            assert(x0 == x1) by (nonlinear_arith)
                requires
                    sx * (x1 - x0) == 0,
                    sx == 1 || sx == -1,
            ;
        }
        assert(rx >= 1);
        assert(dx >= 1);
        // With the error term at dx and dy == 0, only the x axis steps.
        assert(bres_next_x(x0, sx, dx, 0, dx) == x0 + sx);
        assert(bres_next_y(y, -1, dx, 0, dx) == y);
        assert(bres_next_err(dx, 0, dx) == dx);
        if sx == 1 {
            assert(sx * (x1 - (x0 + sx)) == x1 - x0 - 1) by (nonlinear_arith)
                requires
                    sx == 1,
            ;
            assert(x0 < x1) by (nonlinear_arith)
                requires
                    sx == 1,
                    sx * (x1 - x0) >= 1,
            ;
        } else {
            assert(sx * (x1 - (x0 + sx)) == x0 - 1 - x1) by (nonlinear_arith)
                requires
                    sx == -1,
            ;
            assert(x1 < x0) by (nonlinear_arith)
                requires
                    sx == -1,
                    sx * (x1 - x0) >= 1,
            ;
        }
        lemma_bres_trace_horizontal(x0 + sx, y, x1, sx, dx);
        let rest = bres_trace(x0 + sx, y, x1, y, sx, -1, dx, 0, dx);
        assert(bres_trace(x0, y, x1, y, sx, -1, dx, 0, dx) == rest.insert((x0, y)));
        assert(!rest.contains((x0, y)));
        assert(bres_trace(x0, y, x1, y, sx, -1, dx, 0, dx) =~= Set::new(
            |p: (int, int)|
                p.1 == y && (if x0 <= x1 {
                    x0 <= p.0 <= x1
                } else {
                    x1 <= p.0 <= x0
                }),
        ));
    }
}

} // verus!
