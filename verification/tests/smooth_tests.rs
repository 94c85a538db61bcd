use sketches::ribbon::polyline_cmds;
use sketches::smooth::{PathCmd, fill_cmds, smooth_cmds, stroke_cmds};

#[test]
fn steep_segment_gets_quarter_circle_corner() {
    // Waypoints at (0, 0) and (10, 20) in canvas units over the
    // denominator 40000: the vertical run exceeds the horizontal
    // one, so the corner form must appear, with the control offset
    // c = (10/2) * 0.5523 = 2.7615 — numerator 110460 — and not the
    // plain single-cubic form.
    let pts = vec![(0i64, 0i64), (10 * 40000, 20 * 40000)];
    let cmds = stroke_cmds(&pts, 12 * 40000);
    assert_eq!(cmds[0], PathCmd::MoveTo { x: 0, y: 0 });
    assert_eq!(cmds[1], PathCmd::LineTo { x: 0, y: 0 });
    assert_eq!(
        cmds[2],
        PathCmd::CurveTo {
            x1: 110460,
            y1: 0,
            x2: 200000,
            y2: 200000 - 110460,
            x: 200000,
            y: 200000,
        }
    );
    assert_eq!(cmds[3], PathCmd::LineTo { x: 400000 - 200000, y: 800000 - 200000 });
    assert_eq!(
        cmds[4],
        PathCmd::CurveTo {
            x1: 200000,
            y1: 600000 + 110460,
            x2: 400000 - 110460,
            y2: 800000,
            x: 400000,
            y: 800000,
        }
    );
    assert_eq!(cmds[5], PathCmd::LineTo { x: 12 * 40000, y: 800000 });
    assert_eq!(cmds.len(), 6);
}

#[test]
fn shallow_segment_gets_single_cubic() {
    let pts = vec![(0i64, 0i64), (10 * 40000, 2 * 40000)];
    let cmds = stroke_cmds(&pts, 12 * 40000);
    assert_eq!(
        cmds[2],
        PathCmd::CurveTo { x1: 200000, y1: 0, x2: 200000, y2: 80000, x: 400000, y: 80000 }
    );
    assert_eq!(cmds.len(), 4);
}

#[test]
fn rising_segment_mirrors_the_corner() {
    let pts = vec![(0i64, 20 * 40000), (10 * 40000, 0i64)];
    let cmds = stroke_cmds(&pts, 12 * 40000);
    assert_eq!(
        cmds[2],
        PathCmd::CurveTo {
            x1: 110460,
            y1: 800000,
            x2: 200000,
            y2: 600000 + 110460,
            x: 200000,
            y: 600000,
        }
    );
}

#[test]
fn fill_closes_along_the_base() {
    let pts = vec![(0i64, 0i64), (10 * 40000, 2 * 40000)];
    let base = 30 * 40000;
    let cmds = fill_cmds(&pts, 12 * 40000, base);
    assert_eq!(cmds[0], PathCmd::MoveTo { x: 0, y: base });
    assert_eq!(cmds[1], PathCmd::LineTo { x: 0, y: 0 });
    assert_eq!(cmds[2], PathCmd::LineTo { x: 0, y: 0 });
    assert_eq!(cmds[cmds.len() - 2], PathCmd::LineTo { x: 12 * 40000, y: base });
    assert_eq!(cmds[cmds.len() - 1], PathCmd::ClosePath);
}

#[test]
fn vertical_stays_straight_in_s_form() {
    let pts = vec![(5i64, 0i64), (5, 10), (7, 20)];
    let cmds = smooth_cmds(&pts);
    assert_eq!(cmds[0], PathCmd::MoveTo { x: 5, y: 0 });
    assert_eq!(cmds[1], PathCmd::LineTo { x: 5, y: 10 });
    assert_eq!(
        cmds[2],
        PathCmd::CurveTo { x1: 5, y1: 15, x2: 7, y2: 15, x: 7, y: 20 }
    );
}

#[test]
fn polyline_enters_and_leaves_horizontally() {
    let pts = vec![(10i64, 3i64), (20, 5)];
    let cmds = polyline_cmds(&pts, 100).unwrap();
    assert_eq!(cmds[0], PathCmd::MoveTo { x: 0, y: 3 });
    assert_eq!(cmds[1], PathCmd::LineTo { x: 10, y: 3 });
    assert_eq!(cmds[2], PathCmd::LineTo { x: 20, y: 5 });
    assert_eq!(cmds[3], PathCmd::LineTo { x: 100, y: 5 });
}

#[test]
fn empty_polyline_is_refused() {
    let pts: Vec<(i64, i64)> = Vec::new();
    assert!(polyline_cmds(&pts, 100).is_err());
}
