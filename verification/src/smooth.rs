//! Curve smoothing: turns an ordered waypoint polyline into
//! renderable path commands.
//!
//! Coordinates are exact numerators over the originating grid's
//! denominator (see the grid module). Two forms exist:
//! - the stroke/area form: for a segment whose vertical run exceeds
//!   its horizontal run, a quarter-circle corner is approximated with
//!   the canonical circle-Bézier constant 0.5523 (control offset
//!   `c = (dx/2) * 5523/10000`), followed by a straight run and the
//!   mirrored corner at the far end; a shallow segment gets a single
//!   cubic with control points at the half-pitch offsets;
//! - the S-curve form: a segment between distinct columns eases
//!   between rows with one cubic whose control points sit at the
//!   segment's vertical midpoint; a vertical segment stays straight.
//!
//! Both forms require the divisibility that makes those offsets
//! exact: horizontal deltas divisible by 40000 in the first form,
//! even vertical deltas in the second. The grids' denominators
//! provide both.

use vstd::prelude::*;
use crate::grid::COORD_LIMIT;

verus! {

/// One path-construction call, handed to the drawing surface.
#[derive(Clone, Copy, Debug, PartialEq, Eq, Structural)]
pub enum PathCmd {
    MoveTo { x: i64, y: i64 },
    LineTo { x: i64, y: i64 },
    CurveTo { x1: i64, y1: i64, x2: i64, y2: i64, x: i64, y: i64 },
    ClosePath,
}

/// A waypoint list fit for the stroke/area form: x-deltas are
/// nonnegative and divisible by 40000, coordinates bounded.
pub open spec fn wave_wf(pts: Seq<(i64, i64)>) -> bool {
    &&& pts.len() >= 1
    &&& forall|k: int|
        0 <= k < pts.len() ==> -COORD_LIMIT <= (#[trigger] pts[k]).0 <= COORD_LIMIT
            && -COORD_LIMIT <= pts[k].1 <= COORD_LIMIT
    &&& forall|k: int, l: int|
        0 <= k && l == k + 1 && l < pts.len() ==> (#[trigger] pts[k]).0 <= (#[trigger] pts[l]).0
            && (pts[l].0 - pts[k].0) % 40000 == 0
}

/// A waypoint list fit for the S-curve form: y nondecreasing with
/// even deltas, coordinates bounded.
pub open spec fn smooth_wf(pts: Seq<(i64, i64)>) -> bool {
    &&& pts.len() >= 1
    &&& forall|k: int|
        0 <= k < pts.len() ==> -COORD_LIMIT <= (#[trigger] pts[k]).0 <= COORD_LIMIT
            && -COORD_LIMIT <= pts[k].1 <= COORD_LIMIT
    &&& forall|k: int, l: int|
        0 <= k && l == k + 1 && l < pts.len() ==> (#[trigger] pts[k]).1 <= (#[trigger] pts[l]).1
            && (pts[l].1 - pts[k].1) % 2 == 0
}

/// The stroke/area form of one segment. `m` is the horizontal delta
/// in units of 40000; the half-run is `ow = 20000*m` and the corner
/// control offset is `c = (ow * 5523) / 10000 = 11046*m`, both exact.
pub open spec fn spec_corner_cmds(a: (i64, i64), b: (i64, i64)) -> Seq<PathCmd> {
    let xa = a.0 as int;
    let ya = a.1 as int;
    let xb = b.0 as int;
    let yb = b.1 as int;
    let m = (xb - xa) / 40000;
    let ow = 20000 * m;
    let c = 11046 * m;
    if yb - ya > xb - xa {
        seq![
            PathCmd::CurveTo {
                x1: (xa + c) as i64,
                y1: ya as i64,
                x2: (xa + ow) as i64,
                y2: (ya + ow - c) as i64,
                x: (xa + ow) as i64,
                y: (ya + ow) as i64,
            },
            PathCmd::LineTo { x: (xb - ow) as i64, y: (yb - ow) as i64 },
            PathCmd::CurveTo {
                x1: (xb - ow) as i64,
                y1: (yb - ow + c) as i64,
                x2: (xb - c) as i64,
                y2: yb as i64,
                x: xb as i64,
                y: yb as i64,
            },
        ]
    } else if ya - yb > xb - xa {
        seq![
            PathCmd::CurveTo {
                x1: (xa + c) as i64,
                y1: ya as i64,
                x2: (xa + ow) as i64,
                y2: (ya - ow + c) as i64,
                x: (xa + ow) as i64,
                y: (ya - ow) as i64,
            },
            PathCmd::LineTo { x: (xb - ow) as i64, y: (yb + ow) as i64 },
            PathCmd::CurveTo {
                x1: (xb - ow) as i64,
                y1: (yb + ow - c) as i64,
                x2: (xb - c) as i64,
                y2: yb as i64,
                x: xb as i64,
                y: yb as i64,
            },
        ]
    } else {
        seq![
            PathCmd::CurveTo {
                x1: (xa + ow) as i64,
                y1: ya as i64,
                x2: (xb - ow) as i64,
                y2: yb as i64,
                x: xb as i64,
                y: yb as i64,
            },
        ]
    }
}

/// The stroke/area form of the first `k` segments of `pts`.
pub open spec fn spec_wave_cmds(pts: Seq<(i64, i64)>, k: int) -> Seq<PathCmd>
    decreases k,
{
    if k <= 0 {
        Seq::empty()
    } else {
        spec_wave_cmds(pts, k - 1) + spec_corner_cmds(pts[k - 1], pts[k])
    }
}

/// The S-curve form of one segment: straight between equal columns,
/// otherwise a cubic easing at the vertical midpoint.
pub open spec fn spec_ease_cmds(a: (i64, i64), b: (i64, i64)) -> Seq<PathCmd> {
    let cy = (b.1 - a.1) / 2;
    if a.0 == b.0 {
        seq![PathCmd::LineTo { x: b.0, y: b.1 }]
    } else {
        seq![
            PathCmd::CurveTo {
                x1: a.0,
                y1: (a.1 + cy) as i64,
                x2: b.0,
                y2: (a.1 + cy) as i64,
                x: b.0,
                y: b.1,
            },
        ]
    }
}

/// The S-curve form of the first `k` segments of `pts`.
pub open spec fn spec_ease_seq(pts: Seq<(i64, i64)>, k: int) -> Seq<PathCmd>
    decreases k,
{
    if k <= 0 {
        Seq::empty()
    } else {
        spec_ease_seq(pts, k - 1) + spec_ease_cmds(pts[k - 1], pts[k])
    }
}

/// The full S-curve path: move to the first waypoint, then ease
/// through every segment.
pub open spec fn spec_smooth_cmds(pts: Seq<(i64, i64)>) -> Seq<PathCmd> {
    seq![PathCmd::MoveTo { x: pts[0].0, y: pts[0].1 }] + spec_ease_seq(pts, pts.len() - 1)
}

/// The full stroke form: enter horizontally from the left canvas
/// edge, run the stroke/area segments, and leave horizontally to the
/// right edge at `wnum`.
pub open spec fn spec_stroke_cmds(pts: Seq<(i64, i64)>, wnum: i64) -> Seq<PathCmd> {
    seq![
        PathCmd::MoveTo { x: 0, y: pts[0].1 },
        PathCmd::LineTo { x: pts[0].0, y: pts[0].1 },
    ] + spec_wave_cmds(pts, pts.len() - 1) + seq![
        PathCmd::LineTo { x: wnum, y: pts[pts.len() - 1].1 },
    ]
}

/// The full area form filled towards `base`: start on the left edge
/// at the base line, rise to the first waypoint, run the stroke/area
/// segments, leave to the right edge and close along the base. The
/// base is the canvas bottom for a fill-to-bottom and 0 for a
/// fill-to-top.
pub open spec fn spec_fill_cmds(pts: Seq<(i64, i64)>, wnum: i64, base: i64) -> Seq<PathCmd> {
    seq![
        PathCmd::MoveTo { x: 0, y: base },
        PathCmd::LineTo { x: 0, y: pts[0].1 },
        PathCmd::LineTo { x: pts[0].0, y: pts[0].1 },
    ] + spec_wave_cmds(pts, pts.len() - 1) + seq![
        PathCmd::LineTo { x: wnum, y: pts[pts.len() - 1].1 },
        PathCmd::LineTo { x: wnum, y: base },
        PathCmd::ClosePath,
    ]
}

/// A bounded waypoint whose height does not drop below the current
/// last waypoint, by an even step, keeps a polyline fit for the
/// S-curve form.
pub proof fn lemma_smooth_push(pts: Seq<(i64, i64)>, p: (i64, i64))
    requires
        smooth_wf(pts),
        pts[pts.len() - 1].1 <= p.1,
        pts[pts.len() - 1].1 % 2 == 0,
        p.1 % 2 == 0,
        -COORD_LIMIT <= p.0 <= COORD_LIMIT,
        -COORD_LIMIT <= p.1 <= COORD_LIMIT,
    ensures
        smooth_wf(pts.push(p)),
{
    let q = pts.push(p);
    let last = pts[pts.len() - 1].1 as int;
    assert((p.1 - last) % 2 == 0) by (nonlinear_arith)
        requires p.1 % 2 == 0 && last % 2 == 0;
    assert forall|k: int| 0 <= k < q.len() implies -COORD_LIMIT <= (#[trigger] q[k]).0
        <= COORD_LIMIT && -COORD_LIMIT <= q[k].1 <= COORD_LIMIT by {
        if k < pts.len() {
            assert(q[k] == pts[k]);
        } else {
            assert(q[k] == p);
        }
    }
    assert forall|k: int, l: int| 0 <= k && l == k + 1 && l < q.len() implies (
    #[trigger] q[k]).1 <= (#[trigger] q[l]).1 && (q[l].1 - q[k].1) % 2 == 0 by {
        if l < pts.len() {
            assert(q[k] == pts[k] && q[l] == pts[l]);
        } else {
            assert(q[k] == pts[pts.len() - 1] && q[l] == p);
        }
    }
}

/// A single bounded waypoint is fit for the S-curve form.
pub proof fn lemma_smooth_single(p: (i64, i64))
    requires
        -COORD_LIMIT <= p.0 <= COORD_LIMIT,
        -COORD_LIMIT <= p.1 <= COORD_LIMIT,
    ensures
        smooth_wf(seq![p]),
{
    let q = seq![p];
    assert(q[0] == p);
}

/// A bounded waypoint whose column does not fall behind the current
/// last waypoint, by a step divisible by 40000, keeps a polyline fit
/// for the stroke/area form.
pub proof fn lemma_wave_push(pts: Seq<(i64, i64)>, p: (i64, i64))
    requires
        wave_wf(pts),
        pts[pts.len() - 1].0 <= p.0,
        (p.0 - pts[pts.len() - 1].0) % 40000 == 0,
        -COORD_LIMIT <= p.0 <= COORD_LIMIT,
        -COORD_LIMIT <= p.1 <= COORD_LIMIT,
    ensures
        wave_wf(pts.push(p)),
{
    let q = pts.push(p);
    assert forall|k: int| 0 <= k < q.len() implies -COORD_LIMIT <= (#[trigger] q[k]).0
        <= COORD_LIMIT && -COORD_LIMIT <= q[k].1 <= COORD_LIMIT by {
        if k < pts.len() {
            assert(q[k] == pts[k]);
        } else {
            assert(q[k] == p);
        }
    }
    assert forall|k: int, l: int| 0 <= k && l == k + 1 && l < q.len() implies (
    #[trigger] q[k]).0 <= (#[trigger] q[l]).0 && (q[l].0 - q[k].0) % 40000 == 0 by {
        if l < pts.len() {
            assert(q[k] == pts[k] && q[l] == pts[l]);
        } else {
            assert(q[k] == pts[pts.len() - 1] && q[l] == p);
        }
    }
}

/// A single bounded waypoint is fit for the stroke/area form.
pub proof fn lemma_wave_single(p: (i64, i64))
    requires
        -COORD_LIMIT <= p.0 <= COORD_LIMIT,
        -COORD_LIMIT <= p.1 <= COORD_LIMIT,
    ensures
        wave_wf(seq![p]),
{
    let q = seq![p];
    assert(q[0] == p);
}

/// Append the stroke/area form of one segment.
fn push_corner(cmds: &mut Vec<PathCmd>, a: (i64, i64), b: (i64, i64))
    requires
        -COORD_LIMIT <= a.0 <= COORD_LIMIT,
        -COORD_LIMIT <= a.1 <= COORD_LIMIT,
        -COORD_LIMIT <= b.0 <= COORD_LIMIT,
        -COORD_LIMIT <= b.1 <= COORD_LIMIT,
        b.0 - a.0 >= 0,
    ensures
        final(cmds)@ == old(cmds)@ + spec_corner_cmds(a, b),
{
    let (xa, ya) = a;
    let (xb, yb) = b;
    let m: i64 = (xb - xa) / 40000;
    let ow: i64 = 20000 * m;
    let c: i64 = 11046 * m;
    if yb - ya > xb - xa {
        cmds.push(PathCmd::CurveTo { x1: xa + c, y1: ya, x2: xa + ow, y2: ya + ow - c, x: xa + ow, y: ya + ow });
        cmds.push(PathCmd::LineTo { x: xb - ow, y: yb - ow });
        cmds.push(PathCmd::CurveTo { x1: xb - ow, y1: yb - ow + c, x2: xb - c, y2: yb, x: xb, y: yb });
    } else if ya - yb > xb - xa {
        cmds.push(PathCmd::CurveTo { x1: xa + c, y1: ya, x2: xa + ow, y2: ya - ow + c, x: xa + ow, y: ya - ow });
        cmds.push(PathCmd::LineTo { x: xb - ow, y: yb + ow });
        cmds.push(PathCmd::CurveTo { x1: xb - ow, y1: yb + ow - c, x2: xb - c, y2: yb, x: xb, y: yb });
    } else {
        cmds.push(PathCmd::CurveTo { x1: xa + ow, y1: ya, x2: xb - ow, y2: yb, x: xb, y: yb });
    }
    proof {
        assert(final(cmds)@ =~= old(cmds)@ + spec_corner_cmds(a, b));
    }
}

/// Append the stroke/area form of every segment of `pts`.
fn push_wave_segments(cmds: &mut Vec<PathCmd>, pts: &Vec<(i64, i64)>)
    requires
        wave_wf(pts@),
    ensures
        final(cmds)@ == old(cmds)@ + spec_wave_cmds(pts@, pts@.len() - 1),
{
    let n = pts.len();
    let mut i: usize = 1;
    proof {
        assert(cmds@ =~= old(cmds)@ + spec_wave_cmds(pts@, 0));
    }
    while i < n
        invariant
            wave_wf(pts@),
            n == pts@.len(),
            1 <= i <= n,
            cmds@ == old(cmds)@ + spec_wave_cmds(pts@, i - 1),
        decreases n - i,
    {
        proof {
            assert(pts@[i - 1].0 <= pts@[i as int].0 && (pts@[i as int].0 - pts@[i - 1].0)
                % 40000 == 0);
            assert(-COORD_LIMIT <= pts@[i - 1].0 <= COORD_LIMIT);
            assert(-COORD_LIMIT <= pts@[i as int].0 <= COORD_LIMIT);
        }
        push_corner(cmds, pts[i - 1], pts[i]);
        proof {
            assert(cmds@ =~= old(cmds)@ + spec_wave_cmds(pts@, i as int));
        }
        i = i + 1;
    }
}

/// The stroke form of a waypoint polyline, entering from the left
/// canvas edge and leaving at the right edge `wnum`.
pub fn stroke_cmds(pts: &Vec<(i64, i64)>, wnum: i64) -> (r: Vec<PathCmd>)
    requires
        wave_wf(pts@),
        -COORD_LIMIT <= wnum <= COORD_LIMIT,
    ensures
        r@ == spec_stroke_cmds(pts@, wnum),
{
    let mut cmds: Vec<PathCmd> = Vec::new();
    let first = pts[0];
    cmds.push(PathCmd::MoveTo { x: 0, y: first.1 });
    cmds.push(PathCmd::LineTo { x: first.0, y: first.1 });
    push_wave_segments(&mut cmds, pts);
    let last = pts[pts.len() - 1];
    cmds.push(PathCmd::LineTo { x: wnum, y: last.1 });
    proof {
        assert(cmds@ =~= spec_stroke_cmds(pts@, wnum));
    }
    cmds
}

/// The area form of a waypoint polyline, closed along the horizontal
/// base line `base` (the canvas bottom to fill below the line, 0 to
/// fill above it).
pub fn fill_cmds(pts: &Vec<(i64, i64)>, wnum: i64, base: i64) -> (r: Vec<PathCmd>)
    requires
        wave_wf(pts@),
        -COORD_LIMIT <= wnum <= COORD_LIMIT,
        -COORD_LIMIT <= base <= COORD_LIMIT,
    ensures
        r@ == spec_fill_cmds(pts@, wnum, base),
{
    let mut cmds: Vec<PathCmd> = Vec::new();
    let first = pts[0];
    cmds.push(PathCmd::MoveTo { x: 0, y: base });
    cmds.push(PathCmd::LineTo { x: 0, y: first.1 });
    cmds.push(PathCmd::LineTo { x: first.0, y: first.1 });
    push_wave_segments(&mut cmds, pts);
    let last = pts[pts.len() - 1];
    cmds.push(PathCmd::LineTo { x: wnum, y: last.1 });
    cmds.push(PathCmd::LineTo { x: wnum, y: base });
    cmds.push(PathCmd::ClosePath);
    proof {
        assert(cmds@ =~= spec_fill_cmds(pts@, wnum, base));
    }
    cmds
}

/// The S-curve form of a waypoint polyline: move to the first
/// waypoint, then one straight or easing segment per pair.
pub fn smooth_cmds(pts: &Vec<(i64, i64)>) -> (r: Vec<PathCmd>)
    requires
        smooth_wf(pts@),
    ensures
        r@ == spec_smooth_cmds(pts@),
{
    let mut cmds: Vec<PathCmd> = Vec::new();
    let first = pts[0];
    cmds.push(PathCmd::MoveTo { x: first.0, y: first.1 });
    let n = pts.len();
    let mut i: usize = 1;
    proof {
        assert(cmds@ =~= seq![PathCmd::MoveTo { x: pts@[0].0, y: pts@[0].1 }] + spec_ease_seq(
            pts@, 0));
    }
    while i < n
        invariant
            smooth_wf(pts@),
            n == pts@.len(),
            1 <= i <= n,
            cmds@ == seq![PathCmd::MoveTo { x: pts@[0].0, y: pts@[0].1 }] + spec_ease_seq(
                pts@, i - 1),
        decreases n - i,
    {
        let (xa, ya) = pts[i - 1];
        let (xb, yb) = pts[i];
        proof {
            assert(pts@[i - 1].1 <= pts@[i as int].1 && (pts@[i as int].1 - pts@[i - 1].1)
                % 2 == 0);
            assert(-COORD_LIMIT <= pts@[i - 1].1 <= COORD_LIMIT);
            assert(-COORD_LIMIT <= pts@[i as int].1 <= COORD_LIMIT);
        }
        if xa == xb {
            cmds.push(PathCmd::LineTo { x: xb, y: yb });
        } else {
            let cy: i64 = (yb - ya) / 2;
            cmds.push(PathCmd::CurveTo { x1: xa, y1: ya + cy, x2: xb, y2: ya + cy, x: xb, y: yb });
        }
        proof {
            assert(cmds@ =~= seq![PathCmd::MoveTo { x: pts@[0].0, y: pts@[0].1 }]
                + spec_ease_seq(pts@, i as int));
        }
        i = i + 1;
    }
    cmds
}

} // verus!
