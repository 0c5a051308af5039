use vstd::prelude::*;
use crate::grid::{GridPoint, MAX_AXIS_POINTS};
use crate::snap::{Coord, ceil_div, floor_div, snap_max, snap_min};

verus! {

/// Points along one axis of the eager grid: from `ceil(lo)` up to and including `floor(hi)`
/// in steps of `1 / res`; zero for an axis that holds no whole number, for `res == 0`, and for
/// an oversized axis.
pub open spec fn simple_axis_len(lo: Coord, hi: Coord, res: int) -> nat {
    let c = ceil_div(lo.num as int, lo.den as int);
    let f = floor_div(hi.num as int, hi.den as int);
    if res >= 1 && c <= f && (f - c) * res + 1 <= MAX_AXIS_POINTS {
        ((f - c) * res + 1) as nat
    } else {
        0
    }
}

/// The eager grid whose first point is `(x0, y0)`: `ny` horizontal lines of `nx` points,
/// then `nx` vertical lines of `ny` points, all on one lattice of unit steps.
pub open spec fn simple_grid(x0: int, y0: int, nx: nat, ny: nat) -> Seq<Seq<GridPoint>> {
    Seq::new(
        ny + nx,
        |l: int|
            if l < ny {
                Seq::new(nx, |i: int| GridPoint { x: (x0 + i) as i64, y: (y0 + l) as i64 })
            } else {
                Seq::new(ny, |i: int| GridPoint { x: (x0 + (l - ny)) as i64, y: (y0 + i) as i64 })
            },
    )
}

/// The lines that `create_gridlines_simple` builds, in steps of `1 / res`: none at all when
/// either axis is empty.
pub open spec fn simple_lines(
    res: int,
    x_min: Coord,
    x_max: Coord,
    y_min: Coord,
    y_max: Coord,
) -> Seq<Seq<GridPoint>> {
    let nx = simple_axis_len(x_min, x_max, res);
    let ny = simple_axis_len(y_min, y_max, res);
    let nonempty = nx > 0 && ny > 0;
    simple_grid(
        ceil_div(x_min.num as int, x_min.den as int) * res,
        ceil_div(y_min.num as int, y_min.den as int) * res,
        if nonempty { nx } else { 0 },
        if nonempty { ny } else { 0 },
    )
}

fn simple_axis(lo: Coord, hi: Coord, res: u16) -> (r: (i64, usize))
    requires
        lo.wf(),
        hi.wf(),
    ensures
        r.0 == ceil_div(lo.num as int, lo.den as int) * res,
        r.1 == simple_axis_len(lo, hi, res as int),
        -0x40_0000_0000 * 0x1_0000 <= r.0 <= 0x40_0000_0000 * 0x1_0000,
{
    let c = snap_min(lo, 1);
    let f = snap_max(hi, 1);
    proof {
        assert(lo.num * 1 == lo.num);
        assert(hi.num * 1 == hi.num);
        assert(-0x40_0000_0000 * 0x1_0000 <= c * res <= 0x40_0000_0000 * 0x1_0000)
            by (nonlinear_arith)
            requires
                -0x40_0000_0000 <= c <= 0x40_0000_0000,
                0 <= res < 0x1_0000,
        ;
    }
    let len: usize = if res == 0 || c > f {
        0
    } else {
        proof {
            assert(0 <= (f - c) * res <= 0x80_0000_0000 * 0x1_0000) by (nonlinear_arith)
                requires
                    0 <= f - c <= 0x80_0000_0000,
                    0 <= res < 0x1_0000,
            ;
        }
        let n: i64 = (f - c) * res as i64 + 1;
        if n <= MAX_AXIS_POINTS as i64 {
            n as usize
        } else {
            0
        }
    };
    (c * res as i64, len)
}

/// The eager grid of the window, with bounds rounded inwards to whole numbers: for each `y`,
/// the horizontal line of all the `x` values, then for each `x` the vertical line of all the
/// `y` values, `resolution` points per unit from `ceil(min)` to `floor(max)`. No lines at all
/// when either axis is empty. Coordinates count steps of `1 / resolution`.
pub fn create_gridlines_simple(
    resolution: u16,
    x_min: Coord,
    x_max: Coord,
    y_min: Coord,
    y_max: Coord,
) -> (r: Vec<Vec<GridPoint>>)
    requires
        x_min.wf(),
        x_max.wf(),
        y_min.wf(),
        y_max.wf(),
    ensures
        r@.len() == simple_lines(resolution as int, x_min, x_max, y_min, y_max).len(),
        forall|l: int|
            0 <= l < r@.len() ==> #[trigger] r@[l]@ == simple_lines(
                resolution as int,
                x_min,
                x_max,
                y_min,
                y_max,
            )[l],
{
    let (x0, x_len) = simple_axis(x_min, x_max, resolution);
    let (y0, y_len) = simple_axis(y_min, y_max, resolution);
    let nonempty = x_len > 0 && y_len > 0;
    let nx: usize = if nonempty { x_len } else { 0 };
    let ny: usize = if nonempty { y_len } else { 0 };
    let ghost grid = simple_grid(x0 as int, y0 as int, nx as nat, ny as nat);
    let mut lines: Vec<Vec<GridPoint>> = Vec::new();
    let mut j: usize = 0;
    while j < ny
        invariant
            j <= ny <= MAX_AXIS_POINTS,
            nx <= MAX_AXIS_POINTS,
            -0x40_0000_0000 * 0x1_0000 <= x0 <= 0x40_0000_0000 * 0x1_0000,
            -0x40_0000_0000 * 0x1_0000 <= y0 <= 0x40_0000_0000 * 0x1_0000,
            grid == simple_grid(x0 as int, y0 as int, nx as nat, ny as nat),
            lines@.len() == j,
            forall|k: int| 0 <= k < j ==> #[trigger] lines@[k]@ == grid[k],
        decreases ny - j,
    {
        let mut line: Vec<GridPoint> = Vec::new();
        let mut i: usize = 0;
        while i < nx
            invariant
                j < ny <= MAX_AXIS_POINTS,
                i <= nx <= MAX_AXIS_POINTS,
                -0x40_0000_0000 * 0x1_0000 <= x0 <= 0x40_0000_0000 * 0x1_0000,
                -0x40_0000_0000 * 0x1_0000 <= y0 <= 0x40_0000_0000 * 0x1_0000,
                grid == simple_grid(x0 as int, y0 as int, nx as nat, ny as nat),
                line@ =~= grid[j as int].subrange(0, i as int),
            decreases nx - i,
        {
            line.push(GridPoint { x: x0 + i as i64, y: y0 + j as i64 });
            i = i + 1;
        }
        assert(line@ =~= grid[j as int]);
        lines.push(line);
        j = j + 1;
    }
    let mut c: usize = 0;
    while c < nx
        invariant
            c <= nx <= MAX_AXIS_POINTS,
            ny <= MAX_AXIS_POINTS,
            -0x40_0000_0000 * 0x1_0000 <= x0 <= 0x40_0000_0000 * 0x1_0000,
            -0x40_0000_0000 * 0x1_0000 <= y0 <= 0x40_0000_0000 * 0x1_0000,
            grid == simple_grid(x0 as int, y0 as int, nx as nat, ny as nat),
            lines@.len() == ny + c,
            forall|k: int| 0 <= k < ny + c ==> #[trigger] lines@[k]@ == grid[k],
        decreases nx - c,
    {
        let mut line: Vec<GridPoint> = Vec::new();
        let mut i: usize = 0;
        while i < ny
            invariant
                c < nx <= MAX_AXIS_POINTS,
                i <= ny <= MAX_AXIS_POINTS,
                -0x40_0000_0000 * 0x1_0000 <= x0 <= 0x40_0000_0000 * 0x1_0000,
                -0x40_0000_0000 * 0x1_0000 <= y0 <= 0x40_0000_0000 * 0x1_0000,
                grid == simple_grid(x0 as int, y0 as int, nx as nat, ny as nat),
                line@ =~= grid[ny + c].subrange(0, i as int),
            decreases ny - i,
        {
            line.push(GridPoint { x: x0 + c as i64, y: y0 + i as i64 });
            i = i + 1;
        }
        assert(line@ =~= grid[ny + c]);
        lines.push(line);
        c = c + 1;
    }
    lines
}

} // verus!
