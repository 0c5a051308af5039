use vstd::prelude::*;
use crate::snap::{
    Coord, MAX_LEVEL, clamp_level, coarse_resolution, effective_level, snap_max, snap_max_index,
    snap_min, snap_min_index, two_pow,
};

verus! {

/// Above this many sample points an axis is treated as empty.
pub const MAX_AXIS_POINTS: u64 = 32767;

/// A sample point of the fine grid. Both coordinates count steps of `1 / fine_resolution`
/// of the layout that produced it: the point stands for `(x / fine_resolution, y / fine_resolution)`.
#[derive(Clone, Copy, Debug, PartialEq, Eq, Structural)]
pub struct GridPoint {
    pub x: i64,
    pub y: i64,
}

/// Number of fine sample points along one axis whose snapped bounds are the coarse grid
/// lines `k_min` and `k_max`, with `seg` fine steps per coarse cell; zero for an empty or
/// oversized axis.
pub open spec fn axis_fine_count(k_min: int, k_max: int, seg: int) -> nat {
    if seg >= 1 && k_min <= k_max && (k_max - k_min) * seg + 1 <= MAX_AXIS_POINTS {
        ((k_max - k_min) * seg + 1) as nat
    } else {
        0
    }
}

/// Number of coarse grid lines along one axis; zero exactly when the axis has no fine points.
pub open spec fn axis_coarse_count(k_min: int, k_max: int, seg: int) -> nat {
    if axis_fine_count(k_min, k_max, seg) > 0 {
        (k_max - k_min + 1) as nat
    } else {
        0
    }
}

/// Sum of a sequence of line lengths.
pub open spec fn seq_sum(s: Seq<usize>) -> int
    decreases s.len(),
{
    if s.len() == 0 {
        0
    } else {
        s[0] + seq_sum(s.subrange(1, s.len() as int))
    }
}

/// Where the grid lines of a view window lie and how densely they are sampled.
///
/// The horizontal lines come first: line `j < rows` holds `x_points` points at height
/// `y_origin + j` coarse cells. Then line `rows + c` is the vertical line at `x_origin + c`
/// coarse cells, with `y_points` points. One coarse cell is `segment` fine steps.
#[derive(Clone, Copy, Debug, PartialEq, Eq, Structural)]
pub struct GridLayout {
    pub segment: u16,
    pub fine_resolution: u32,
    pub x_origin: i64,
    pub y_origin: i64,
    pub x_points: usize,
    pub y_points: usize,
    pub rows: usize,
    pub columns: usize,
}

impl GridLayout {
    /// Bounds that keep every sample point within `i64`, and no empty line.
    pub open spec fn wf(self) -> bool {
        &&& -0x40_0000_0000 <= self.x_origin <= 0x40_0000_0000
        &&& -0x40_0000_0000 <= self.y_origin <= 0x40_0000_0000
        &&& self.x_points <= MAX_AXIS_POINTS
        &&& self.y_points <= MAX_AXIS_POINTS
        &&& self.rows <= MAX_AXIS_POINTS
        &&& self.columns <= MAX_AXIS_POINTS
        &&& (self.rows > 0 ==> self.x_points > 0)
        &&& (self.columns > 0 ==> self.y_points > 0)
    }

    /// The layout of the window `[x_min, x_max] x [y_min, y_max]`, with `seg` fine steps per
    /// coarse cell and the slider value `resolution`: the bounds snap inwards to the coarse
    /// grid of `2^clamp_level(resolution)` lines per unit.
    pub open spec fn describes(
        self,
        seg: int,
        resolution: int,
        x_min: Coord,
        x_max: Coord,
        y_min: Coord,
        y_max: Coord,
    ) -> bool {
        let coarse = two_pow(clamp_level(resolution));
        let kx0 = snap_min_index(x_min.num as int, x_min.den as int, coarse as int);
        let kx1 = snap_max_index(x_max.num as int, x_max.den as int, coarse as int);
        let ky0 = snap_min_index(y_min.num as int, y_min.den as int, coarse as int);
        let ky1 = snap_max_index(y_max.num as int, y_max.den as int, coarse as int);
        let nonempty = axis_fine_count(kx0, kx1, seg) > 0 && axis_fine_count(ky0, ky1, seg) > 0;
        &&& self.segment == seg
        &&& self.fine_resolution == coarse * seg
        &&& self.x_origin == kx0
        &&& self.y_origin == ky0
        &&& self.x_points == axis_fine_count(kx0, kx1, seg)
        &&& self.y_points == axis_fine_count(ky0, ky1, seg)
        &&& self.rows == (if nonempty { axis_coarse_count(ky0, ky1, seg) } else { 0 })
        &&& self.columns == (if nonempty { axis_coarse_count(kx0, kx1, seg) } else { 0 })
    }

    /// Number of polylines: the horizontal ones, then the vertical ones.
    pub open spec fn line_count(self) -> int {
        self.rows + self.columns
    }

    /// Number of points on line `l`.
    pub open spec fn line_len(self, l: int) -> usize {
        if l < self.rows {
            self.x_points
        } else {
            self.y_points
        }
    }

    /// The line structure: the length of each line, in drawing order.
    pub open spec fn structure(self) -> Seq<usize> {
        Seq::new(self.line_count() as nat, |l: int| self.line_len(l))
    }

    /// Total number of sample points over all lines.
    pub open spec fn total_points(self) -> int {
        self.rows * self.x_points + self.columns * self.y_points
    }

    /// The `x` step count of point `i` of line `l`.
    pub open spec fn point_x(self, l: int, i: int) -> int {
        if l < self.rows {
            self.x_origin * self.segment + i
        } else {
            (self.x_origin + (l - self.rows)) * self.segment
        }
    }

    /// The `y` step count of point `i` of line `l`.
    pub open spec fn point_y(self, l: int, i: int) -> int {
        if l < self.rows {
            (self.y_origin + l) * self.segment
        } else {
            self.y_origin * self.segment + i
        }
    }

    /// Computes the layout of a view window; see `describes`.
    pub fn new(
        segment_resolution: u16,
        resolution: i32,
        x_min: Coord,
        x_max: Coord,
        y_min: Coord,
        y_max: Coord,
    ) -> (g: GridLayout)
        requires
            x_min.wf(),
            x_max.wf(),
            y_min.wf(),
            y_max.wf(),
        ensures
            g.wf(),
            g.describes(segment_resolution as int, resolution as int, x_min, x_max, y_min, y_max),
    {
        let level = effective_level(resolution);
        let coarse = coarse_resolution(level);
        let kx0 = snap_min(x_min, coarse);
        let kx1 = snap_max(x_max, coarse);
        let ky0 = snap_min(y_min, coarse);
        let ky1 = snap_max(y_max, coarse);
        let (x_points, x_lines) = axis_counts(kx0, kx1, segment_resolution);
        let (y_points, y_lines) = axis_counts(ky0, ky1, segment_resolution);
        let nonempty = x_points > 0 && y_points > 0;
        proof {
            assert(coarse * segment_resolution <= 128 * 0xffff) by (nonlinear_arith)
                requires
                    1 <= coarse <= 128,
                    0 <= segment_resolution <= 0xffff,
            ;
        }
        GridLayout {
            segment: segment_resolution,
            fine_resolution: coarse * segment_resolution as u32,
            x_origin: kx0,
            y_origin: ky0,
            x_points,
            y_points,
            rows: if nonempty { y_lines } else { 0 },
            columns: if nonempty { x_lines } else { 0 },
        }
    }

    /// The line structure as a vector: `rows` copies of `x_points`, then `columns` copies
    /// of `y_points`.
    pub fn line_structure(&self) -> (v: Vec<usize>)
        requires
            self.wf(),
        ensures
            v@ == self.structure(),
    {
        let mut v: Vec<usize> = Vec::new();
        let mut j: usize = 0;
        while j < self.rows
            invariant
                self.wf(),
                j <= self.rows,
                v@ =~= self.structure().subrange(0, j as int),
            decreases self.rows - j,
        {
            v.push(self.x_points);
            j = j + 1;
        }
        let mut c: usize = 0;
        while c < self.columns
            invariant
                self.wf(),
                c <= self.columns,
                v@ =~= self.structure().subrange(0, self.rows + c),
            decreases self.columns - c,
        {
            v.push(self.y_points);
            c = c + 1;
        }
        assert(v@ =~= self.structure());
        v
    }
}

/// Fine point count and coarse line count of one axis.
fn axis_counts(k_min: i64, k_max: i64, seg: u16) -> (r: (usize, usize))
    requires
        -0x40_0000_0000 <= k_min <= 0x40_0000_0000,
        -0x40_0000_0000 <= k_max <= 0x40_0000_0000,
    ensures
        r.0 == axis_fine_count(k_min as int, k_max as int, seg as int),
        r.1 == axis_coarse_count(k_min as int, k_max as int, seg as int),
        r.1 <= r.0 <= MAX_AXIS_POINTS,
{
    if seg == 0 || k_min > k_max {
        return (0, 0);
    }
    let d: i64 = k_max - k_min;
    proof {
        assert(0 <= d * seg <= 0x80_0000_0000 * 0x1_0000) by (nonlinear_arith)
            requires
                0 <= d <= 0x80_0000_0000,
                0 <= seg <= 0xffff,
        ;
        assert(d <= d * seg) by (nonlinear_arith)
            requires
                0 <= d,
                1 <= seg,
        ;
    }
    let n: i64 = d * seg as i64 + 1;
    if n > MAX_AXIS_POINTS as i64 {
        (0, 0)
    } else {
        (n as usize, (d + 1) as usize)
    }
}

} // verus!
