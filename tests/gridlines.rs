use hologrid::cursor::{create_gridlines, GridCursor};
use hologrid::grid::{GridLayout, GridPoint, MAX_AXIS_POINTS};
use hologrid::simple::create_gridlines_simple;
use hologrid::snap::{coarse_resolution, effective_level, snap_max, snap_min, Coord};

fn whole(n: i32) -> Coord {
    Coord::from_int(n)
}

fn drain(cursor: &mut GridCursor) -> Vec<(GridPoint, bool)> {
    let mut out = Vec::new();
    while let Some(item) = cursor.next() {
        out.push(item);
    }
    out
}

fn square(half: i32) -> (Coord, Coord) {
    (whole(-half), whole(half))
}

#[test]
fn level_one_square_window_counts() {
    let (lo, hi) = square(5);
    let (mut cursor, structure) = create_gridlines(1, 1, lo, hi, lo, hi);
    let g = cursor.layout;
    assert_eq!(g.fine_resolution, 2);
    assert_eq!(g.x_origin, -10);
    assert_eq!(g.y_origin, -10);
    assert_eq!(g.x_points, 21);
    assert_eq!(g.y_points, 21);
    assert_eq!(g.rows, 21);
    assert_eq!(g.columns, 21);
    assert_eq!(structure.len(), 42);
    assert!(structure.iter().all(|&n| n == 21));
    let points = drain(&mut cursor);
    assert_eq!(points.len(), 882);
    assert_eq!(points[0], (GridPoint { x: -10, y: -10 }, false));
    assert_eq!(points[20], (GridPoint { x: 10, y: -10 }, true));
    assert_eq!(points[21], (GridPoint { x: -10, y: -9 }, false));
    assert_eq!(points[441], (GridPoint { x: -10, y: -10 }, false));
    assert_eq!(points[881], (GridPoint { x: 10, y: 10 }, true));
}

#[test]
fn segments_refine_points_but_not_lines() {
    let (lo, hi) = square(5);
    let (mut cursor, structure) = create_gridlines(4, 1, lo, hi, lo, hi);
    let g = cursor.layout;
    assert_eq!(g.fine_resolution, 8);
    assert_eq!(g.x_points, 81);
    assert_eq!(g.rows, 21);
    assert_eq!(g.columns, 21);
    assert_eq!(structure, vec![81usize; 42]);
    let points = drain(&mut cursor);
    assert_eq!(points.len(), 42 * 81);
    assert_eq!(points[1].0, GridPoint { x: -39, y: -40 });
    assert_eq!(points[81].0, GridPoint { x: -40, y: -36 });
    assert_eq!(points[21 * 81 + 1].0, GridPoint { x: -40, y: -39 });
    assert_eq!(points[22 * 81].0, GridPoint { x: -36, y: -40 });
}

#[test]
fn structure_sum_equals_emitted_points() {
    let windows = [
        (Coord::new(-7, 4), Coord::new(9, 2), Coord::new(1, 3), Coord::new(5, 1)),
        (whole(0), whole(1), whole(0), whole(1)),
        (whole(3), whole(-3), whole(0), whole(2)),
        (Coord::new(-15, 1), Coord::new(15, 1), Coord::new(-1, 7), Coord::new(1, 7)),
    ];
    for (seg, res) in [(1u16, 0i32), (4, 2), (8, 3), (3, 5)] {
        for &(x0, x1, y0, y1) in windows.iter() {
            let (mut cursor, structure) = create_gridlines(seg, res, x0, x1, y0, y1);
            let sum: usize = structure.iter().sum();
            let points = drain(&mut cursor);
            assert_eq!(points.len(), sum);
            let ends = points.iter().filter(|p| p.1).count();
            assert_eq!(ends, structure.len());
            assert!(structure.iter().all(|&n| n > 0));
        }
    }
}

#[test]
fn inverted_window_is_empty() {
    let (mut cursor, structure) = create_gridlines(4, 2, whole(3), whole(-3), whole(0), whole(2));
    assert!(structure.is_empty());
    assert_eq!(cursor.layout.x_points, 0);
    assert_eq!(cursor.next(), None);
}

#[test]
fn narrow_window_has_no_vertical_lines() {
    let x0 = Coord::new(23, 10);
    let x1 = Coord::new(24, 10);
    let (lo, hi) = square(5);
    for level in [0, 1, 2] {
        let (mut cursor, structure) = create_gridlines(4, level, x0, x1, lo, hi);
        assert_eq!(cursor.layout.columns, 0);
        assert_eq!(cursor.layout.x_points, 0);
        assert!(structure.is_empty());
        assert_eq!(cursor.next(), None);
    }
}

#[test]
fn narrow_window_holding_one_grid_line() {
    let x0 = Coord::new(23, 10);
    let x1 = Coord::new(24, 10);
    let (lo, hi) = square(5);
    let (mut cursor, structure) = create_gridlines(1, 3, x0, x1, lo, hi);
    let g = cursor.layout;
    assert_eq!(g.x_origin, 19);
    assert_eq!(g.x_points, 1);
    assert_eq!(g.columns, 1);
    assert_eq!(g.rows, 81);
    assert_eq!(structure.len(), 82);
    assert_eq!(structure[81], 81);
    assert_eq!(drain(&mut cursor).len(), 162);
}

#[test]
fn level_up_doubles_fine_steps() {
    let (lo, hi) = square(5);
    let (a, _) = create_gridlines(4, 1, lo, hi, lo, hi);
    let (b, _) = create_gridlines(4, 2, lo, hi, lo, hi);
    assert_eq!(b.layout.fine_resolution, 2 * a.layout.fine_resolution);
    assert_eq!(a.layout.x_points, 81);
    assert_eq!(b.layout.x_points, 161);
    assert_eq!(b.layout.x_points - 1, 2 * (a.layout.x_points - 1));
    assert_eq!(b.layout.y_points - 1, 2 * (a.layout.y_points - 1));
}

#[test]
fn snapping_is_idempotent() {
    let v = Coord::new(23, 10);
    let k0 = snap_min(v, 8);
    let k1 = snap_max(v, 8);
    assert_eq!(k0, 19);
    assert_eq!(k1, 18);
    assert_eq!(snap_min(Coord::new(k0 as i32, 8), 8), k0);
    assert_eq!(snap_max(Coord::new(k1 as i32, 8), 8), k1);
    let w = Coord::new(-23, 10);
    assert_eq!(snap_min(w, 8), -18);
    assert_eq!(snap_max(w, 8), -19);
    assert_eq!(snap_min(Coord::new(-18, 8), 8), -18);
    assert_eq!(snap_max(Coord::new(-19, 8), 8), -19);
}

#[test]
fn resolution_level_is_clamped() {
    assert_eq!(effective_level(-3), 0);
    assert_eq!(effective_level(4), 4);
    assert_eq!(effective_level(100), 7);
    assert_eq!(coarse_resolution(0), 1);
    assert_eq!(coarse_resolution(7), 128);
    let (lo, hi) = square(1);
    let (a, _) = create_gridlines(1, 100, lo, hi, lo, hi);
    assert_eq!(a.layout.fine_resolution, 128);
    let (b, _) = create_gridlines(1, -4, lo, hi, lo, hi);
    assert_eq!(b.layout.fine_resolution, 1);
    assert_eq!(b.layout.x_points, 3);
}

#[test]
fn oversized_axis_is_dropped() {
    let (lo, hi) = square(15);
    let (mut cursor, structure) = create_gridlines(16, 7, lo, hi, lo, hi);
    assert_eq!(cursor.layout.x_points, 0);
    assert!(structure.is_empty());
    assert_eq!(cursor.next(), None);
    let (c, _) = create_gridlines(1, 0, whole(0), whole(MAX_AXIS_POINTS as i32 - 1), lo, hi);
    assert_eq!(c.layout.x_points, MAX_AXIS_POINTS as usize);
    let (d, _) = create_gridlines(1, 0, whole(0), whole(MAX_AXIS_POINTS as i32), lo, hi);
    assert_eq!(d.layout.x_points, 0);
}

#[test]
fn zero_segment_resolution_is_empty() {
    let (lo, hi) = square(5);
    let (mut cursor, structure) = create_gridlines(0, 1, lo, hi, lo, hi);
    assert!(structure.is_empty());
    assert_eq!(cursor.next(), None);
}

#[test]
fn restart_replays_the_stream() {
    let (mut cursor, _) = create_gridlines(2, 1, Coord::new(-3, 2), whole(2), whole(0), Coord::new(7, 4));
    let first = drain(&mut cursor);
    assert!(!first.is_empty());
    cursor.restart();
    let second = drain(&mut cursor);
    assert_eq!(first, second);
}

#[test]
fn layout_new_matches_create_gridlines() {
    let (lo, hi) = square(2);
    let g = GridLayout::new(3, 2, lo, hi, lo, hi);
    let (cursor, structure) = create_gridlines(3, 2, lo, hi, lo, hi);
    assert_eq!(g, cursor.layout);
    assert_eq!(g.line_structure(), structure);
    let fresh = GridCursor::start(g);
    assert_eq!(fresh.line, 0);
    assert_eq!(fresh.index, 0);
}

#[test]
fn simple_grid_unit_resolution() {
    let (lo, hi) = square(5);
    let lines = create_gridlines_simple(1, lo, hi, lo, hi);
    assert_eq!(lines.len(), 22);
    assert!(lines.iter().all(|l| l.len() == 11));
    assert_eq!(lines[0][0], GridPoint { x: -5, y: -5 });
    assert_eq!(lines[0][10], GridPoint { x: 5, y: -5 });
    assert_eq!(lines[10][3], GridPoint { x: -2, y: 5 });
    assert_eq!(lines[11][0], GridPoint { x: -5, y: -5 });
    assert_eq!(lines[21][10], GridPoint { x: 5, y: 5 });
}

#[test]
fn simple_grid_sixteen_per_unit() {
    let (lo, hi) = square(5);
    let lines = create_gridlines_simple(16, lo, hi, lo, hi);
    assert_eq!(lines.len(), 322);
    assert!(lines.iter().all(|l| l.len() == 161));
    assert_eq!(lines[0][0], GridPoint { x: -80, y: -80 });
    assert_eq!(lines[0][160], GridPoint { x: 80, y: -80 });
    assert_eq!(lines[321][160], GridPoint { x: 80, y: 80 });
}

#[test]
fn simple_grid_stays_inside_whole_bounds() {
    let lines = create_gridlines_simple(2, whole(0), whole(1), whole(0), whole(1));
    assert_eq!(lines.len(), 6);
    assert_eq!(lines[0], vec![GridPoint { x: 0, y: 0 }, GridPoint { x: 1, y: 0 }, GridPoint { x: 2, y: 0 }]);
    assert!(lines.iter().flatten().all(|p| 0 <= p.x && p.x <= 2 && 0 <= p.y && p.y <= 2));
}

#[test]
fn simple_grid_zero_resolution_is_empty() {
    let (lo, hi) = square(5);
    assert!(create_gridlines_simple(0, lo, hi, lo, hi).is_empty());
}

#[test]
fn simple_grid_rounds_bounds_to_whole_units() {
    let lines = create_gridlines_simple(1, Coord::new(-23, 10), Coord::new(31, 10), whole(0), whole(1));
    assert_eq!(lines.len(), 2 + 6);
    assert_eq!(lines[0], (-2..=3).map(|x| GridPoint { x, y: 0 }).collect::<Vec<_>>());
    assert_eq!(lines[7], vec![GridPoint { x: 3, y: 0 }, GridPoint { x: 3, y: 1 }]);
}

#[test]
fn simple_grid_narrow_window() {
    let (lo, hi) = square(5);
    let lines = create_gridlines_simple(1, Coord::new(23, 10), Coord::new(24, 10), lo, hi);
    assert!(lines.is_empty());
    let inverted = create_gridlines_simple(1, whole(3), whole(-3), lo, hi);
    assert!(inverted.is_empty());
}

#[test]
fn simple_and_lazy_agree_on_whole_bounds() {
    let cases = [(-5, 5, -5, 5), (0, 3, -2, 1), (4, 4, 1, 6), (0, 1, 0, 1), (2, -2, 0, 1)];
    for level in 0..=4 {
        for &(a, b, c, d) in cases.iter() {
            let (x0, x1, y0, y1) = (whole(a), whole(b), whole(c), whole(d));
            let eager = create_gridlines_simple(1u16 << level, x0, x1, y0, y1);
            let (mut cursor, structure) = create_gridlines(1, level as i32, x0, x1, y0, y1);
            let lazy: Vec<GridPoint> = drain(&mut cursor).into_iter().map(|p| p.0).collect();
            let flat: Vec<GridPoint> = eager.iter().flatten().copied().collect();
            assert_eq!(lazy, flat);
            let lens: Vec<usize> = eager.iter().map(|l| l.len()).collect();
            assert_eq!(lens, structure);
        }
    }
}

#[test]
fn doubling_segments_keeps_coarse_lines() {
    let (lo, hi) = square(5);
    let (a, sa) = create_gridlines(2, 1, lo, hi, lo, hi);
    let (b, sb) = create_gridlines(4, 1, lo, hi, lo, hi);
    assert_eq!(a.layout.x_points, 41);
    assert_eq!(b.layout.x_points, 81);
    assert_eq!(b.layout.fine_resolution, 2 * a.layout.fine_resolution);
    assert_eq!(a.layout.rows, b.layout.rows);
    assert_eq!(a.layout.columns, b.layout.columns);
    assert_eq!(sa.len(), sb.len());
}
