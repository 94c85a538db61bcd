//! Path synthesis: turn one column's node list into a waypoint
//! polyline, the "bus wire" of a subway-map layout.
//!
//! The path touches the column's top margin, runs straight between
//! vertically adjacent nodes, inserts a short vertical lead-in and
//! lead-out with a fresh horizontal jitter wherever a gap separates
//! two nodes, and finally touches the column's bottom margin. All
//! coordinates are numerators over the grid's denominator.

use vstd::prelude::*;
use crate::color::Color;
use crate::grid::{COORD_LIMIT, InsetGrid, lemma_inset_y_props, lemma_inset_y_step};
use crate::nodes::{rows_below, rows_strictly_increasing};
use crate::rng::{SketchRng, spec_next_val, spec_step};
use crate::smooth::{lemma_smooth_push, lemma_smooth_single, smooth_wf};

verus! {

/// The jittered column coordinate: `x - jr` or `x + jr` by a coin
/// flip.
pub open spec fn spec_cx(s: SketchRng, x: int, jr: int) -> int {
    if spec_next_val(s) % 0x1_0000_0000 >= 0x8000_0000 {
        x - jr
    } else {
        x + jr
    }
}

/// The opening waypoints: from the top margin down to the first
/// node, straight when the node sits in the top row, with a vertical
/// lead-in otherwise.
pub open spec fn spec_vline_head(g: InsetGrid, x: int, cx: int, j0: int) -> Seq<(i64, i64)> {
    let dy = g.spec_dy_num();
    let dyh = dy / 2;
    if j0 == 0 {
        seq![(cx as i64, dyh as i64), (cx as i64, g.spec_y_num(0) as i64)]
    } else {
        seq![
            (x as i64, dyh as i64),
            (x as i64, (g.spec_y_num(j0) - dy) as i64),
            (cx as i64, g.spec_y_num(j0) as i64),
        ]
    }
}

/// The waypoints between node `k-1` and the nodes from `k` on:
/// straight between adjacent rows, a lead-out, lead-in and fresh
/// jitter across a gap. Yields the waypoints, the random state and
/// the jittered coordinate left for the closing run.
pub open spec fn spec_vline_mid(
    s: SketchRng,
    g: InsetGrid,
    jr: int,
    x: int,
    nodes: Seq<(Color, u32)>,
    k: int,
    cx: int,
) -> (Seq<(i64, i64)>, SketchRng, int)
    decreases nodes.len() - k,
{
    if k < 1 || k >= nodes.len() {
        (Seq::empty(), s, cx)
    } else {
        let ja = nodes[k - 1].1 as int;
        let jb = nodes[k].1 as int;
        let dy = g.spec_dy_num();
        if jb - ja == 1 {
            let rest = spec_vline_mid(s, g, jr, x, nodes, k + 1, cx);
            (seq![(cx as i64, g.spec_y_num(jb) as i64)] + rest.0, rest.1, rest.2)
        } else {
            let cx2 = spec_cx(s, x, jr);
            let s2 = spec_step(s);
            let rest = spec_vline_mid(s2, g, jr, x, nodes, k + 1, cx2);
            (seq![
                (x as i64, (g.spec_y_num(ja) + dy) as i64),
                (x as i64, (g.spec_y_num(jb) - dy) as i64),
                (cx2 as i64, g.spec_y_num(jb) as i64),
            ] + rest.0, rest.1, rest.2)
        }
    }
}

/// The closing waypoints: from the last node down to the bottom
/// margin, straight when the node sits in the bottom row, with a
/// vertical lead-out otherwise.
pub open spec fn spec_vline_tail(g: InsetGrid, x: int, cx: int, jl: int) -> Seq<(i64, i64)> {
    let dy = g.spec_dy_num();
    let dyh = dy / 2;
    let yb = g.spec_y_num(g.ny - 1) + dyh;
    if jl == g.ny - 1 {
        seq![(cx as i64, yb as i64)]
    } else {
        seq![(x as i64, (g.spec_y_num(jl) + dy) as i64), (x as i64, yb as i64)]
    }
}

/// The whole polyline of one column, and the random state after it:
/// an initial jitter draw, the opening run, the middle runs and the
/// closing run.
pub open spec fn spec_vline(
    s: SketchRng,
    g: InsetGrid,
    jr: int,
    x: int,
    nodes: Seq<(Color, u32)>,
) -> (Seq<(i64, i64)>, SketchRng) {
    let cx0 = spec_cx(s, x, jr);
    let s1 = spec_step(s);
    let head = spec_vline_head(g, x, cx0, nodes[0].1 as int);
    let mid = spec_vline_mid(s1, g, jr, x, nodes, 1, cx0);
    let tail = spec_vline_tail(g, x, mid.2, nodes[nodes.len() - 1].1 as int);
    (head + mid.0 + tail, mid.1)
}

/// Append the middle runs: one straight or lead-in/lead-out group
/// per consecutive node pair. Returns the jittered coordinate left
/// for the closing run.
#[verifier::rlimit(100)]
fn push_mid_runs(
    rng: &mut SketchRng,
    grid: &InsetGrid,
    jr: i64,
    x: i64,
    nodes: &Vec<(Color, u32)>,
    cx0: i64,
    pts: &mut Vec<(i64, i64)>,
) -> (cxf: i64)
    requires
        grid.wf(),
        nodes@.len() >= 1,
        rows_strictly_increasing(nodes@),
        rows_below(nodes@, grid.ny as int),
        0 <= jr,
        0 < x,
        0 <= x - jr,
        x + jr <= COORD_LIMIT,
        cx0 == x - jr || cx0 == x + jr,
        smooth_wf(old(pts)@),
        old(pts)@.last().1 == grid.spec_y_num(nodes@[0].1 as int),
        old(pts)@.last().1 % 2 == 0,
    ensures
        ({
            let mid = spec_vline_mid(*old(rng), *grid, jr as int, x as int, nodes@, 1,
                cx0 as int);
            &&& final(pts)@ == old(pts)@ + mid.0
            &&& *final(rng) == mid.1
            &&& cxf == mid.2
        }),
        smooth_wf(final(pts)@),
        final(pts)@.last().1 == grid.spec_y_num(nodes@[nodes@.len() - 1].1 as int),
        final(pts)@.last().1 % 2 == 0,
        cxf == x - jr || cxf == x + jr,
{
    let ghost base = old(pts)@;
    let ghost baselen = base.len();
    let ghost mtotal = spec_vline_mid(*old(rng), *grid, jr as int, x as int, nodes@, 1,
        cx0 as int);
    let n = nodes.len();
    let mut cx: i64 = cx0;
    let mut k: usize = 1;
    proof {
        assert(pts@.skip(baselen as int) =~= Seq::<(i64, i64)>::empty());
    }
    while k < n
        invariant
            grid.wf(),
            n == nodes@.len(),
            1 <= k <= n,
            rows_strictly_increasing(nodes@),
            rows_below(nodes@, grid.ny as int),
            0 <= jr,
            0 < x,
            0 <= x - jr,
            x + jr <= COORD_LIMIT,
            cx == x - jr || cx == x + jr,
            smooth_wf(pts@),
            pts@.len() >= baselen >= 1,
            pts@.take(baselen as int) == base,
            pts@.last().1 == grid.spec_y_num(nodes@[k - 1].1 as int),
            pts@.last().1 % 2 == 0,
            mtotal == spec_vline_mid(*old(rng), *grid, jr as int, x as int, nodes@, 1,
                cx0 as int),
            mtotal.0 =~= pts@.skip(baselen as int) + spec_vline_mid(*rng, *grid, jr as int,
                x as int, nodes@, k as int, cx as int).0,
            mtotal.1 == spec_vline_mid(*rng, *grid, jr as int, x as int, nodes@, k as int,
                cx as int).1,
            mtotal.2 == spec_vline_mid(*rng, *grid, jr as int, x as int, nodes@, k as int,
                cx as int).2,
        decreases n - k,
    {
        let ghost pre = *rng;
        let ghost precx = cx as int;
        let ghost prepts = pts@;
        let ja = nodes[k - 1].1;
        let jb = nodes[k].1;
        proof {
            assert(nodes@[k - 1].1 < nodes@[k as int].1);
            assert(nodes@[k as int].1 < grid.ny);
            lemma_inset_y_props(*grid, ja as int);
            lemma_inset_y_props(*grid, jb as int);
            lemma_inset_y_step(*grid, ja as int, jb as int);
        }
        let dy = grid.dy_num();
        if jb - ja == 1 {
            let yb = grid.y_num(jb);
            proof {
                lemma_smooth_push(pts@, (cx, yb));
            }
            pts.push((cx, yb));
            proof {
                assert(pts@.skip(baselen as int) =~= prepts.skip(baselen as int).push((cx, yb)));
                assert(mtotal.0 =~= pts@.skip(baselen as int) + spec_vline_mid(*rng, *grid,
                    jr as int, x as int, nodes@, k + 1, cx as int).0);
                assert(pts@.take(baselen as int) =~= base);
            }
        } else {
            let ya = grid.y_num(ja);
            let yb = grid.y_num(jb);
            proof {
                lemma_smooth_push(pts@, (x, (ya + dy) as i64));
            }
            pts.push((x, ya + dy));
            proof {
                lemma_smooth_push(pts@, (x, (yb - dy) as i64));
            }
            pts.push((x, yb - dy));
            let off2 = rng.pick_i64(-jr, jr);
            cx = x + off2;
            proof {
                lemma_smooth_push(pts@, (cx, yb));
            }
            pts.push((cx, yb));
            proof {
                assert(pts@.skip(baselen as int) =~= prepts.skip(baselen as int).push((x, (ya
                    + dy) as i64)).push((x, (yb - dy) as i64)).push((cx, yb)));
                assert(spec_vline_mid(pre, *grid, jr as int, x as int, nodes@, k as int,
                    precx).0 =~= seq![
                    (x, (ya + dy) as i64),
                    (x, (yb - dy) as i64),
                    (cx, yb),
                ] + spec_vline_mid(*rng, *grid, jr as int, x as int, nodes@, k + 1,
                    cx as int).0);
                assert(mtotal.0 =~= pts@.skip(baselen as int) + spec_vline_mid(*rng, *grid,
                    jr as int, x as int, nodes@, k + 1, cx as int).0);
                assert(pts@.take(baselen as int) =~= base);
            }
        }
        k = k + 1;
    }
    proof {
        assert(mtotal.0 =~= pts@.skip(baselen as int));
        assert(pts@ =~= base + mtotal.0);
    }
    cx
}

/// Build one column's waypoint polyline from its node list.
///
/// The result is fit for the S-curve smoothing form, starts at the
/// top margin `dy/2` and ends at the bottom margin, and is — with
/// the final random state — a pure function of the incoming state.
#[verifier::rlimit(100)]
pub fn build_vline(
    rng: &mut SketchRng,
    grid: &InsetGrid,
    jr: i64,
    x: i64,
    nodes: &Vec<(Color, u32)>,
) -> (pts: Vec<(i64, i64)>)
    requires
        grid.wf(),
        nodes@.len() >= 1,
        rows_strictly_increasing(nodes@),
        rows_below(nodes@, grid.ny as int),
        0 <= jr,
        0 < x,
        0 <= x - jr,
        x + jr <= COORD_LIMIT,
    ensures
        (pts@, *final(rng)) == spec_vline(*old(rng), *grid, jr as int, x as int, nodes@),
        smooth_wf(pts@),
        pts@.len() >= 2,
        pts@[0].1 == grid.spec_dy_num() / 2,
        pts@.last().1 == grid.spec_y_num(grid.ny - 1) + grid.spec_dy_num() / 2,
{
    let ghost s0 = *rng;
    let ghost total = spec_vline(s0, *grid, jr as int, x as int, nodes@);
    let dy = grid.dy_num();
    let dyh = grid.dyh_num();
    let n = nodes.len();
    let off = rng.pick_i64(-jr, jr);
    let cx0: i64 = x + off;
    let mut pts: Vec<(i64, i64)> = Vec::new();
    let j0 = nodes[0].1;
    proof {
        assert(nodes@[0].1 < grid.ny);
        lemma_inset_y_props(*grid, j0 as int);
        if j0 != 0 {
            lemma_inset_y_step(*grid, 0, j0 as int);
            lemma_inset_y_props(*grid, 0);
        }
    }
    if j0 == 0 {
        let y0 = grid.y_num(0);
        pts.push((cx0, dyh));
        pts.push((cx0, y0));
        proof {
            lemma_smooth_single((cx0, dyh));
            lemma_smooth_push(seq![(cx0, dyh)], (cx0, y0));
            assert(pts@ =~= seq![(cx0, dyh)].push((cx0, y0)));
        }
    } else {
        let y = grid.y_num(j0);
        pts.push((x, dyh));
        pts.push((x, y - dy));
        pts.push((cx0, y));
        proof {
            lemma_smooth_single((x, dyh));
            lemma_smooth_push(seq![(x, dyh)], (x, (y - dy) as i64));
            lemma_smooth_push(seq![(x, dyh)].push((x, (y - dy) as i64)), (cx0, y));
            assert(pts@ =~= seq![(x, dyh)].push((x, (y - dy) as i64)).push((cx0, y)));
        }
    }
    let ghost head = spec_vline_head(*grid, x as int, cx0 as int, j0 as int);
    proof {
        assert(pts@ =~= head);
    }
    let cxf = push_mid_runs(rng, grid, jr, x, nodes, cx0, &mut pts);
    let ghost mid = spec_vline_mid(spec_step(s0), *grid, jr as int, x as int, nodes@, 1,
        cx0 as int);
    let jl = nodes[n - 1].1;
    let ylast = grid.y_num(grid.ny() - 1);
    proof {
        assert(nodes@[n - 1].1 < grid.ny);
        lemma_inset_y_props(*grid, jl as int);
        lemma_inset_y_props(*grid, (grid.ny - 1) as int);
        lemma_inset_y_step(*grid, jl as int, (grid.ny - 1) as int);
    }
    let ghost pretail = pts@;
    if jl == grid.ny() - 1 {
        proof {
            lemma_smooth_push(pts@, (cxf, (ylast + dyh) as i64));
        }
        pts.push((cxf, ylast + dyh));
    } else {
        let y = grid.y_num(jl);
        proof {
            lemma_smooth_push(pts@, (x, (y + dy) as i64));
        }
        pts.push((x, y + dy));
        proof {
            lemma_smooth_push(pts@, (x, (ylast + dyh) as i64));
        }
        pts.push((x, ylast + dyh));
    }
    proof {
        let tail = spec_vline_tail(*grid, x as int, cxf as int, jl as int);
        assert(pts@ =~= pretail + tail);
        assert(pts@ =~= head + mid.0 + tail);
        assert(pts@ == total.0);
        assert(*rng == total.1);
    }
    pts
}

} // verus!
