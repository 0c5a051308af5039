use vstd::prelude::*;
use crate::grid::{GridLayout, GridPoint, MAX_AXIS_POINTS, seq_sum};
use crate::snap::Coord;

verus! {

/// The suffix of the line structure from line `l` on, summed in closed form.
pub open spec fn points_from(g: GridLayout, l: int) -> int {
    if l < g.rows {
        (g.rows - l) * g.x_points + g.columns * g.y_points
    } else {
        (g.line_count() - l) * g.y_points
    }
}

/// Peeling the first entry off a suffix of a sequence.
pub proof fn lemma_sum_unfold(s: Seq<usize>, l: int)
    requires
        0 <= l < s.len(),
    ensures
        seq_sum(s.subrange(l, s.len() as int)) == s[l] + seq_sum(s.subrange(l + 1, s.len() as int)),
{
    let t = s.subrange(l, s.len() as int);
    assert(t.subrange(1, t.len() as int) =~= s.subrange(l + 1, s.len() as int));
}

/// The lengths of the lines from `l` on add up to `points_from(g, l)`.
pub proof fn lemma_suffix_sum(g: GridLayout, l: int)
    requires
        0 <= l <= g.line_count(),
    ensures
        seq_sum(g.structure().subrange(l, g.line_count())) == points_from(g, l),
    decreases g.line_count() - l,
{
    let s = g.structure();
    if l == g.line_count() {
        assert(s.subrange(l, g.line_count()) =~= Seq::<usize>::empty());
    } else {
        lemma_sum_unfold(s, l);
        lemma_suffix_sum(g, l + 1);
        if l < g.rows {
            assert((g.rows - l) * g.x_points == g.x_points + (g.rows - (l + 1)) * g.x_points)
                by (nonlinear_arith);
        } else {
            assert((g.line_count() - l) * g.y_points == g.y_points + (g.line_count() - (l + 1))
                * g.y_points) by (nonlinear_arith);
        }
    }
}

proof fn lemma_points_from_bound(g: GridLayout, l: int)
    requires
        g.wf(),
        0 <= l <= g.line_count(),
    ensures
        l < g.line_count() ==> points_from(g, l) >= g.line_len(l),
        l == g.line_count() ==> points_from(g, l) == 0,
{
    if l < g.rows {
        assert((g.rows - l) * g.x_points >= g.x_points) by (nonlinear_arith)
            requires
                l < g.rows,
                g.x_points >= 0,
        ;
        assert(g.columns * g.y_points >= 0) by (nonlinear_arith)
            requires
                g.columns >= 0,
                g.y_points >= 0,
        ;
    } else if l < g.line_count() {
        assert((g.line_count() - l) * g.y_points >= g.y_points) by (nonlinear_arith)
            requires
                l < g.line_count(),
                g.y_points >= 0,
        ;
    }
}

/// A restartable, single-pass stream over the sample points of a layout, line by line:
/// point `index` of line `line` comes next.
#[derive(Clone, Copy, Debug)]
pub struct GridCursor {
    pub layout: GridLayout,
    pub line: usize,
    pub index: usize,
}

impl GridCursor {
    /// The position lies within the grid, or just past its end.
    pub open spec fn wf(self) -> bool {
        &&& self.layout.wf()
        &&& self.line <= self.layout.line_count()
        &&& self.line < self.layout.line_count() ==> self.index < self.layout.line_len(
            self.line as int,
        )
        &&& self.line == self.layout.line_count() ==> self.index == 0
    }

    /// Number of points still to come.
    pub open spec fn remaining(self) -> int {
        seq_sum(self.layout.structure().subrange(self.line as int, self.layout.line_count()))
            - self.index
    }

    /// A stream positioned at the first point of `layout`.
    pub fn start(layout: GridLayout) -> (c: GridCursor)
        requires
            layout.wf(),
        ensures
            c.wf(),
            c.layout == layout,
            c.line == 0,
            c.index == 0,
            c.remaining() == seq_sum(layout.structure()),
    {
        let c = GridCursor { layout, line: 0, index: 0 };
        assert(layout.structure().subrange(0, layout.line_count()) =~= layout.structure());
        c
    }

    /// Moves back to the first point, so that the stream can be walked again.
    pub fn restart(&mut self)
        requires
            old(self).wf(),
        ensures
            final(self).wf(),
            final(self).layout == old(self).layout,
            final(self).line == 0,
            final(self).index == 0,
            final(self).remaining() == seq_sum(old(self).layout.structure()),
    {
        self.line = 0;
        self.index = 0;
        assert(self.layout.structure().subrange(0, self.layout.line_count())
            =~= self.layout.structure());
    }

    /// The next point, with `true` beside it when it ends its line; `None` once every
    /// point has been handed out.
    pub fn next(&mut self) -> (r: Option<(GridPoint, bool)>)
        requires
            old(self).wf(),
        ensures
            final(self).wf(),
            final(self).layout == old(self).layout,
            old(self).remaining() >= 0,
            old(self).remaining() == 0 <==> old(self).line == old(self).layout.line_count(),
            old(self).remaining() == 0 ==> r is None && *final(self) == *old(self),
            old(self).remaining() > 0 ==> {
                let g = old(self).layout;
                let l = old(self).line as int;
                let i = old(self).index as int;
                let last = i + 1 == g.line_len(l);
                &&& r == Some((GridPoint { x: g.point_x(l, i) as i64, y: g.point_y(l, i) as i64 }, last))
                &&& g.point_x(l, i) == r->Some_0.0.x
                &&& g.point_y(l, i) == r->Some_0.0.y
                &&& final(self).remaining() == old(self).remaining() - 1
                &&& last ==> final(self).line == l + 1 && final(self).index == 0
                &&& !last ==> final(self).line == l && final(self).index == i + 1
            },
    {
        proof {
            lemma_suffix_sum(self.layout, self.line as int);
            lemma_points_from_bound(self.layout, self.line as int);
        }
        let g = self.layout;
        if self.line >= g.rows + g.columns {
            return None;
        }
        let seg: i64 = g.segment as i64;
        let l = self.line;
        let i = self.index;
        proof {
            assert(-0x40_0000_0000 * 0x1_0000 <= g.x_origin * seg <= 0x40_0000_0000 * 0x1_0000)
                by (nonlinear_arith)
                requires
                    -0x40_0000_0000 <= g.x_origin <= 0x40_0000_0000,
                    0 <= seg < 0x1_0000,
            ;
            assert(-0x40_0000_0000 * 0x1_0000 <= g.y_origin * seg <= 0x40_0000_0000 * 0x1_0000)
                by (nonlinear_arith)
                requires
                    -0x40_0000_0000 <= g.y_origin <= 0x40_0000_0000,
                    0 <= seg < 0x1_0000,
            ;
        }
        let (p, len) = if l < g.rows {
            proof {
                assert(-0x41_0000_0000 * 0x1_0000 <= (g.y_origin + l) * seg <= 0x41_0000_0000
                    * 0x1_0000) by (nonlinear_arith)
                    requires
                        -0x40_0000_0000 <= g.y_origin <= 0x40_0000_0000,
                        0 <= l <= MAX_AXIS_POINTS,
                        0 <= seg < 0x1_0000,
                ;
            }
            (GridPoint { x: g.x_origin * seg + i as i64, y: (g.y_origin + l as i64) * seg }, g.x_points)
        } else {
            let c = l - g.rows;
            proof {
                assert(-0x41_0000_0000 * 0x1_0000 <= (g.x_origin + c) * seg <= 0x41_0000_0000
                    * 0x1_0000) by (nonlinear_arith)
                    requires
                        -0x40_0000_0000 <= g.x_origin <= 0x40_0000_0000,
                        0 <= c <= MAX_AXIS_POINTS,
                        0 <= seg < 0x1_0000,
                ;
            }
            (GridPoint { x: (g.x_origin + c as i64) * seg, y: g.y_origin * seg + i as i64 }, g.y_points)
        };
        let last = i + 1 == len;
        if last {
            self.line = l + 1;
            self.index = 0;
        } else {
            self.index = i + 1;
        }
        proof {
            lemma_sum_unfold(g.structure(), l as int);
        }
        Some((p, last))
    }
}

/// The grid lines of the window `[x_min, x_max] x [y_min, y_max]`: a stream of their
/// sample points, horizontal lines first, and the line structure that cuts the stream
/// into polylines. `segment_resolution` is the number of fine steps per coarse cell;
/// `resolution` is the slider level, clamped to `0 ..= MAX_LEVEL`.
pub fn create_gridlines(
    segment_resolution: u16,
    resolution: i32,
    x_min: Coord,
    x_max: Coord,
    y_min: Coord,
    y_max: Coord,
) -> (r: (GridCursor, Vec<usize>))
    requires
        x_min.wf(),
        x_max.wf(),
        y_min.wf(),
        y_max.wf(),
    ensures
        r.0.wf(),
        r.0.layout.describes(segment_resolution as int, resolution as int, x_min, x_max, y_min, y_max),
        r.0.line == 0,
        r.0.index == 0,
        r.1@ == r.0.layout.structure(),
        r.0.remaining() == seq_sum(r.1@),
{
    let layout = GridLayout::new(segment_resolution, resolution, x_min, x_max, y_min, y_max);
    let structure = layout.line_structure();
    (GridCursor::start(layout), structure)
}

} // verus!
