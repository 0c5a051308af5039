use vstd::prelude::*;
use vstd::arithmetic::div_mod::{
    lemma_div_multiples_vanish, lemma_fundamental_div_mod, lemma_fundamental_div_mod_converse,
};
use crate::cursor::{GridCursor, lemma_suffix_sum, points_from};
use crate::grid::{GridLayout, MAX_AXIS_POINTS, axis_fine_count, seq_sum};
use crate::simple::{simple_axis_len, simple_lines};
use crate::snap::{
    Coord, MAX_LEVEL, ceil_div, clamp_level, floor_div, snap_max_index, snap_min_index, two_pow,
};

verus! {

/// The line structure adds up to the number of points that the stream hands out, for every
/// window and resolution: `rows * x_points + columns * y_points`.
pub proof fn lemma_structure_sum_matches_points(
    seg: u16,
    resolution: i32,
    x_min: Coord,
    x_max: Coord,
    y_min: Coord,
    y_max: Coord,
    g: GridLayout,
)
    requires
        g.describes(seg as int, resolution as int, x_min, x_max, y_min, y_max),
    ensures
        seq_sum(g.structure()) == g.total_points(),
        (GridCursor { layout: g, line: 0, index: 0 }).remaining() == g.total_points(),
{
    lemma_suffix_sum(g, 0);
    assert(g.structure().subrange(0, g.line_count()) =~= g.structure());
    if g.rows == 0 {
        assert(g.rows * g.x_points == 0);
    }
}

/// A window that holds no coarse grid line on one axis, because its bounds snap past each
/// other, yields no lines at all: no points on that axis, no lines across it, and an empty
/// line structure.
pub proof fn lemma_narrow_axis_is_empty(
    seg: u16,
    resolution: i32,
    x_min: Coord,
    x_max: Coord,
    y_min: Coord,
    y_max: Coord,
    g: GridLayout,
)
    requires
        g.describes(seg as int, resolution as int, x_min, x_max, y_min, y_max),
        ({
            let coarse = two_pow(clamp_level(resolution as int)) as int;
            snap_min_index(x_min.num as int, x_min.den as int, coarse) > snap_max_index(
                x_max.num as int,
                x_max.den as int,
                coarse,
            ) || snap_min_index(y_min.num as int, y_min.den as int, coarse) > snap_max_index(
                y_max.num as int,
                y_max.den as int,
                coarse,
            )
        }),
    ensures
        g.x_points == 0 || g.y_points == 0,
        g.rows == 0,
        g.columns == 0,
        g.structure().len() == 0,
        g.total_points() == 0,
{
}

/// The interval `[lo, hi]` is shorter than one cell of a grid of `res` lines per unit.
pub open spec fn narrower_than_cell(lo: Coord, hi: Coord, res: int) -> bool {
    (hi.num * lo.den - lo.num * hi.den) * res < lo.den * hi.den
}

/// An interval shorter than one cell holds at most one grid line: its upper bound snaps down
/// no further than its lower bound snaps up.
proof fn lemma_narrow_snap(lo: Coord, hi: Coord, c: int)
    requires
        lo.wf(),
        hi.wf(),
        c > 0,
        narrower_than_cell(lo, hi, c),
    ensures
        snap_max_index(hi.num as int, hi.den as int, c) <= snap_min_index(
            lo.num as int,
            lo.den as int,
            c,
        ),
{
    let n0 = lo.num as int;
    let d0 = lo.den as int;
    let n1 = hi.num as int;
    let d1 = hi.den as int;
    let f = (n1 * c) / d1;
    let q = (-(n0 * c)) / d0;
    lemma_fundamental_div_mod(n1 * c, d1);
    lemma_fundamental_div_mod(-(n0 * c), d0);
    assert(d1 * f <= n1 * c);
    assert(d0 * (-q) >= n0 * c) by (nonlinear_arith)
        requires
            -(n0 * c) == d0 * q + (-(n0 * c)) % d0,
            0 <= (-(n0 * c)) % d0,
    ;
    if f > -q {
        assert((n1 * d0 - n0 * d1) * c >= d0 * d1) by (nonlinear_arith)
            requires
                d1 * f <= n1 * c,
                d0 * (-q) >= n0 * c,
                f >= -q + 1,
                d0 > 0,
                d1 > 0,
        ;
    }
}

/// A window narrower than one coarse cell on an axis holds at most one coarse line across
/// that axis, and at most one fine point along it.
pub proof fn lemma_narrow_axis_has_at_most_one_line(
    seg: u16,
    resolution: i32,
    x_min: Coord,
    x_max: Coord,
    y_min: Coord,
    y_max: Coord,
    g: GridLayout,
)
    requires
        x_min.wf(),
        x_max.wf(),
        y_min.wf(),
        y_max.wf(),
        g.describes(seg as int, resolution as int, x_min, x_max, y_min, y_max),
    ensures
        narrower_than_cell(x_min, x_max, two_pow(clamp_level(resolution as int)) as int) ==> g.columns
            <= 1 && g.x_points <= 1,
        narrower_than_cell(y_min, y_max, two_pow(clamp_level(resolution as int)) as int) ==> g.rows
            <= 1 && g.y_points <= 1,
{
    let c = two_pow(clamp_level(resolution as int)) as int;
    lemma_two_pow_positive(clamp_level(resolution as int));
    if narrower_than_cell(x_min, x_max, c) {
        lemma_narrow_snap(x_min, x_max, c);
        let k0 = snap_min_index(x_min.num as int, x_min.den as int, c);
        let k1 = snap_max_index(x_max.num as int, x_max.den as int, c);
        if k0 == k1 {
            assert((k1 - k0) * seg == 0);
        }
    }
    if narrower_than_cell(y_min, y_max, c) {
        lemma_narrow_snap(y_min, y_max, c);
        let k0 = snap_min_index(y_min.num as int, y_min.den as int, c);
        let k1 = snap_max_index(y_max.num as int, y_max.den as int, c);
        if k0 == k1 {
            assert((k1 - k0) * seg == 0);
        }
    }
}

proof fn lemma_two_pow_positive(n: nat)
    ensures
        two_pow(n) > 0,
    decreases n,
{
    if n > 0 {
        lemma_two_pow_positive((n - 1) as nat);
    }
}

/// Snapping is idempotent: the grid line that a bound snaps to, read back as the fraction
/// `k / res`, snaps to itself.
pub proof fn lemma_snap_idempotent(num: int, den: int, res: int)
    requires
        den > 0,
        res > 0,
    ensures
        snap_min_index(snap_min_index(num, den, res), res, res) == snap_min_index(num, den, res),
        snap_max_index(snap_max_index(num, den, res), res, res) == snap_max_index(num, den, res),
{
    let k0 = snap_min_index(num, den, res);
    let k1 = snap_max_index(num, den, res);
    lemma_div_multiples_vanish(-k0, res);
    assert(-(k0 * res) == res * (-k0)) by (nonlinear_arith);
    lemma_div_multiples_vanish(k1, res);
    assert(k1 * res == res * k1) by (nonlinear_arith);
}

/// A multiple of `d` divides exactly, rounded either way, and so does its double.
proof fn lemma_exact_div(a: int, d: int)
    requires
        d > 0,
        a % d == 0,
    ensures
        ceil_div(a, d) == a / d,
        floor_div(a, d) == a / d,
        ceil_div(2 * a, d) == 2 * (a / d),
        floor_div(2 * a, d) == 2 * (a / d),
{
    lemma_fundamental_div_mod(a, d);
    let q = a / d;
    assert(-a == (-q) * d + 0 && 2 * a == (2 * q) * d + 0 && -(2 * a) == (-(2 * q)) * d + 0)
        by (nonlinear_arith)
        requires
            a == d * q + 0,
    ;
    lemma_fundamental_div_mod_converse(-a, d, -q, 0);
    lemma_fundamental_div_mod_converse(2 * a, d, 2 * q, 0);
    lemma_fundamental_div_mod_converse(-(2 * a), d, -(2 * q), 0);
}

/// The fine counts of one axis whose bounds lie on the coarse grid, before and after the
/// coarse grid is made twice as dense.
proof fn lemma_axis_doubling(q0: int, q1: int, seg: int)
    requires
        axis_fine_count(2 * q0, 2 * q1, seg) > 0,
    ensures
        axis_fine_count(q0, q1, seg) > 0,
        axis_fine_count(2 * q0, 2 * q1, seg) - 1 == 2 * (axis_fine_count(q0, q1, seg) - 1),
{
    assert((2 * q1 - 2 * q0) * seg == 2 * ((q1 - q0) * seg)) by (nonlinear_arith);
    assert(0 <= (q1 - q0) * seg) by (nonlinear_arith)
        requires
            q0 <= q1,
            seg >= 1,
    ;
}

/// Going one resolution level up doubles the fine resolution and, on an axis whose bounds lie
/// on the coarser grid, doubles the number of fine steps between the snapped bounds, for as
/// long as the finer axis stays within `MAX_AXIS_POINTS`.
pub proof fn lemma_level_up_doubles_fine_steps(
    seg: u16,
    resolution: i32,
    x_min: Coord,
    x_max: Coord,
    y_min: Coord,
    y_max: Coord,
    g: GridLayout,
    h: GridLayout,
)
    requires
        0 <= resolution < MAX_LEVEL,
        x_min.wf(),
        x_max.wf(),
        y_min.wf(),
        y_max.wf(),
        x_min.on_grid(two_pow(resolution as nat) as int),
        x_max.on_grid(two_pow(resolution as nat) as int),
        y_min.on_grid(two_pow(resolution as nat) as int),
        y_max.on_grid(two_pow(resolution as nat) as int),
        g.describes(seg as int, resolution as int, x_min, x_max, y_min, y_max),
        h.describes(seg as int, resolution + 1, x_min, x_max, y_min, y_max),
    ensures
        h.fine_resolution == 2 * g.fine_resolution,
        h.x_origin == 2 * g.x_origin,
        h.y_origin == 2 * g.y_origin,
        h.x_points > 0 ==> g.x_points > 0 && h.x_points - 1 == 2 * (g.x_points - 1),
        h.y_points > 0 ==> g.y_points > 0 && h.y_points - 1 == 2 * (g.y_points - 1),
{
    let c = two_pow(resolution as nat) as int;
    assert(two_pow((resolution + 1) as nat) == 2 * c);
    assert(clamp_level(resolution as int) == resolution);
    assert(clamp_level(resolution + 1) == resolution + 1);
    assert forall|num: int, den: int|
        den > 0 && (num * c) % den == 0 implies snap_min_index(num, den, c) == (num * c) / den
            && snap_max_index(num, den, c) == (num * c) / den && snap_min_index(num, den, 2 * c)
            == 2 * ((num * c) / den) && snap_max_index(num, den, 2 * c) == 2 * ((num * c) / den) by {
        lemma_exact_div(num * c, den);
        assert(num * (2 * c) == 2 * (num * c)) by (nonlinear_arith);
    }
    assert(h.fine_resolution == 2 * g.fine_resolution) by (nonlinear_arith)
        requires
            h.fine_resolution == (2 * c) * seg,
            g.fine_resolution == c * seg,
    ;
    if h.x_points > 0 {
        lemma_axis_doubling(g.x_origin as int, (x_max.num * c) / (x_max.den as int), seg as int);
    }
    if h.y_points > 0 {
        lemma_axis_doubling(g.y_origin as int, (y_max.num * c) / (y_max.den as int), seg as int);
    }
}

/// Doubling the fine steps per coarse cell doubles the fine resolution and the number of fine
/// steps along each axis, and keeps every coarse line where it was, for as long as the finer
/// axes stay within `MAX_AXIS_POINTS`.
pub proof fn lemma_segment_doubling_keeps_lines(
    seg: u16,
    resolution: i32,
    x_min: Coord,
    x_max: Coord,
    y_min: Coord,
    y_max: Coord,
    g: GridLayout,
    h: GridLayout,
)
    requires
        2 * seg <= 0xffff,
        g.describes(seg as int, resolution as int, x_min, x_max, y_min, y_max),
        h.describes(2 * seg, resolution as int, x_min, x_max, y_min, y_max),
        h.x_points > 0,
        h.y_points > 0,
    ensures
        h.fine_resolution == 2 * g.fine_resolution,
        h.x_points - 1 == 2 * (g.x_points - 1),
        h.y_points - 1 == 2 * (g.y_points - 1),
        h.x_origin == g.x_origin,
        h.y_origin == g.y_origin,
        h.rows == g.rows,
        h.columns == g.columns,
{
    let c = two_pow(clamp_level(resolution as int)) as int;
    let s = seg as int;
    assert(h.fine_resolution == 2 * g.fine_resolution) by (nonlinear_arith)
        requires
            h.fine_resolution == c * (2 * s),
            g.fine_resolution == c * s,
    ;
    assert forall|d: int| d >= 0 && #[trigger] (d * (2 * s)) + 1 <= MAX_AXIS_POINTS implies d * s
        + 1 <= MAX_AXIS_POINTS && d * (2 * s) == 2 * (d * s) by {
        assert(d * (2 * s) == 2 * (d * s)) by (nonlinear_arith);
        assert(0 <= d * s) by (nonlinear_arith)
            requires
                d >= 0,
                s >= 0,
        ;
    }
}

/// A whole number scaled by `c` divides exactly, rounded either way.
proof fn lemma_whole_scaled(num: int, den: int, c: int)
    requires
        den > 0,
        num % den == 0,
    ensures
        ceil_div(num * c, den) == (num / den) * c,
        floor_div(num * c, den) == (num / den) * c,
        ceil_div(num, den) == num / den,
        floor_div(num, den) == num / den,
{
    lemma_exact_div(num, den);
    lemma_fundamental_div_mod(num, den);
    let q = num / den;
    assert(num * c == ((q * c) * den + 0) && -(num * c) == ((-(q * c)) * den + 0))
        by (nonlinear_arith)
        requires
            num == den * q + 0,
    ;
    lemma_fundamental_div_mod_converse(num * c, den, q * c, 0);
    lemma_fundamental_div_mod_converse(-(num * c), den, -(q * c), 0);
}

/// One axis of the two grids: the eager axis at `c` points per unit and the lazy axis at
/// `c` coarse lines per unit with one step per cell hold the same number of points.
proof fn lemma_axis_agrees(lo: Coord, hi: Coord, c: int)
    requires
        lo.wf(),
        hi.wf(),
        lo.on_grid(1),
        hi.on_grid(1),
        c >= 1,
    ensures
        simple_axis_len(lo, hi, c) == axis_fine_count(
            snap_min_index(lo.num as int, lo.den as int, c),
            snap_max_index(hi.num as int, hi.den as int, c),
            1,
        ),
        snap_min_index(lo.num as int, lo.den as int, c) == ceil_div(lo.num as int, lo.den as int)
            * c,
{
    assert(lo.num * 1 == lo.num && hi.num * 1 == hi.num);
    lemma_whole_scaled(lo.num as int, lo.den as int, c);
    lemma_whole_scaled(hi.num as int, hi.den as int, c);
    let a = lo.num as int / lo.den as int;
    let b = hi.num as int / hi.den as int;
    assert(b * c - a * c == (b - a) * c) by (nonlinear_arith);
    assert((b - a) * c >= 0 <==> b >= a) by (nonlinear_arith)
        requires
            c >= 1,
    ;
}

/// For whole-number bounds, the eager grid at `2^k` points per unit and the lazy grid at
/// level `k` with one step per cell draw the same lines, point for point and in the same
/// order, and the eager line lengths are the lazy line structure.
pub proof fn lemma_simple_matches_lazy(
    k: u32,
    x_min: Coord,
    x_max: Coord,
    y_min: Coord,
    y_max: Coord,
    g: GridLayout,
)
    requires
        k <= MAX_LEVEL,
        x_min.wf(),
        x_max.wf(),
        y_min.wf(),
        y_max.wf(),
        x_min.on_grid(1),
        x_max.on_grid(1),
        y_min.on_grid(1),
        y_max.on_grid(1),
        g.wf(),
        g.describes(1, k as int, x_min, x_max, y_min, y_max),
    ensures
        g.fine_resolution == two_pow(k as nat),
        simple_lines(two_pow(k as nat) as int, x_min, x_max, y_min, y_max).len() == g.line_count(),
        forall|l: int|
            0 <= l < g.line_count() ==> #[trigger] simple_lines(
                two_pow(k as nat) as int,
                x_min,
                x_max,
                y_min,
                y_max,
            )[l].len() == g.line_len(l),
        forall|l: int, i: int|
            0 <= l < g.line_count() && 0 <= i < g.line_len(l) ==> {
                let p = #[trigger] simple_lines(
                    two_pow(k as nat) as int,
                    x_min,
                    x_max,
                    y_min,
                    y_max,
                )[l][i];
                p.x == g.point_x(l, i) && p.y == g.point_y(l, i)
            },
{
    let c = two_pow(k as nat) as int;
    assert(clamp_level(k as int) == k);
    lemma_two_pow_positive(k as nat);
    lemma_axis_agrees(x_min, x_max, c);
    lemma_axis_agrees(y_min, y_max, c);
}

} // verus!
