//! The ribbon-chart layout: two horizontal strands over a dashed
//! centered grid.
//!
//! Each column draws an ordered pair of distinct rows; the upper
//! rows form one strand, the lower rows the other. The strands are
//! plain polylines run out to the canvas edges.

use vstd::prelude::*;
use crate::color::Color;
use crate::grid::{CenteredGrid, MAX_SIDE};
use crate::rng::{SketchRng, spec_next_val, spec_range_map, spec_step};
use crate::smooth::PathCmd;
use crate::theme::{Themes, spec_palette_color};

verus! {

/// A polyline with no waypoints cannot be drawn.
#[derive(Clone, Copy, Debug, PartialEq, Eq, Structural)]
pub struct EmptyPathError;

/// One ordered row pair per column from column `i` on: the first
/// row is uniform below `ny - 1`, the second uniform between the
/// first (exclusive) and `ny`.
pub open spec fn spec_pairs(s: SketchRng, n: int, ny: int, i: int) -> (Seq<(u32, u32)>, SketchRng)
    decreases n - i,
{
    if i < 0 || i >= n {
        (Seq::empty(), s)
    } else {
        let ya = spec_range_map(spec_next_val(s), 0, (ny - 1) as u64);
        let s1 = spec_step(s);
        let yb = spec_range_map(spec_next_val(s1), (ya + 1) as u64, ny as u64);
        let s2 = spec_step(s1);
        let rest = spec_pairs(s2, n, ny, i + 1);
        (seq![(ya as u32, yb as u32)] + rest.0, rest.1)
    }
}

/// Draw one ordered row pair per column: within each pair the first
/// row lies strictly above the second, and both lie below `ny`.
pub fn gen_pairs(rng: &mut SketchRng, n: u32, ny: u32) -> (pairs: Vec<(u32, u32)>)
    requires
        2 <= ny,
    ensures
        (pairs@, *final(rng)) == spec_pairs(*old(rng), n as int, ny as int, 0),
        pairs@.len() == n,
        forall|k: int|
            0 <= k < n ==> (#[trigger] pairs@[k]).0 < pairs@[k].1 && pairs@[k].1 < ny,
{
    let ghost total = spec_pairs(*old(rng), n as int, ny as int, 0);
    let mut pairs: Vec<(u32, u32)> = Vec::new();
    let mut i: u32 = 0;
    proof {
        assert(total.0 =~= pairs@ + spec_pairs(*rng, n as int, ny as int, 0).0);
    }
    while i < n
        invariant
            2 <= ny,
            0 <= i <= n,
            pairs@.len() == i,
            forall|k: int|
                0 <= k < i ==> (#[trigger] pairs@[k]).0 < pairs@[k].1 && pairs@[k].1 < ny,
            total == spec_pairs(*old(rng), n as int, ny as int, 0),
            total.0 =~= pairs@ + spec_pairs(*rng, n as int, ny as int, i as int).0,
            total.1 == spec_pairs(*rng, n as int, ny as int, i as int).1,
        decreases n - i,
    {
        let ghost prepairs = pairs@;
        let ya = rng.gen_range_u64(0, (ny - 1) as u64);
        let yb = rng.gen_range_u64(ya + 1, ny as u64);
        pairs.push((ya as u32, yb as u32));
        proof {
            assert(pairs@ =~= prepairs.push((ya as u32, yb as u32)));
            assert(total.0 =~= pairs@ + spec_pairs(*rng, n as int, ny as int, i + 1).0);
        }
        i = i + 1;
    }
    proof {
        assert(total.0 =~= pairs@);
    }
    pairs
}

/// The strand through one side of each pair: column `i`'s sample
/// point at the chosen row's center.
pub fn pair_path(grid: &CenteredGrid, pairs: &Vec<(u32, u32)>, second: bool) -> (pts: Vec<(
    i64,
    i64,
)>)
    requires
        grid.wf(),
        pairs@.len() == grid.nw,
        forall|k: int|
            0 <= k < pairs@.len() ==> (#[trigger] pairs@[k]).0 < pairs@[k].1 && pairs@[k].1
                < grid.nh,
    ensures
        pts@.len() == grid.nw,
        forall|k: int|
            0 <= k < pts@.len() ==> #[trigger] pts@[k] == (grid.spec_x_num(k) as i64, (
            grid.spec_y_num((if second {
                pairs@[k].1
            } else {
                pairs@[k].0
            }) as int)) as i64),
{
    let n = pairs.len();
    let mut pts: Vec<(i64, i64)> = Vec::new();
    let mut i: usize = 0;
    while i < n
        invariant
            grid.wf(),
            n == pairs@.len(),
            n == grid.nw,
            0 <= i <= n,
            forall|k: int|
                0 <= k < pairs@.len() ==> (#[trigger] pairs@[k]).0 < pairs@[k].1 && pairs@[k].1
                    < grid.nh,
            pts@.len() == i,
            forall|k: int|
                0 <= k < i ==> #[trigger] pts@[k] == (grid.spec_x_num(k) as i64, (
                grid.spec_y_num((if second {
                    pairs@[k].1
                } else {
                    pairs@[k].0
                }) as int)) as i64),
        decreases n - i,
    {
        let (ya, yb) = pairs[i];
        let row = if second {
            yb
        } else {
            ya
        };
        let x = grid.x_num(i as u32);
        let y = grid.y_num(row);
        pts.push((x, y));
        i = i + 1;
    }
    pts
}

/// The command list of a plain polyline strand: enter horizontally
/// from the left edge, visit every waypoint, and leave horizontally
/// to the right edge at `wnum`.
pub open spec fn spec_polyline_cmds(pts: Seq<(i64, i64)>, wnum: i64) -> Seq<PathCmd> {
    seq![PathCmd::MoveTo { x: 0, y: pts[0].1 }] + Seq::new(pts.len(), |i: int|
        PathCmd::LineTo { x: pts[i].0, y: pts[i].1 },
    ) + seq![PathCmd::LineTo { x: wnum, y: pts[pts.len() - 1].1 }]
}

/// Draw a strand as straight segments, extended to both canvas
/// edges. An empty waypoint list is refused.
pub fn polyline_cmds(pts: &Vec<(i64, i64)>, wnum: i64) -> (r: Result<
    Vec<PathCmd>,
    EmptyPathError,
>)
    ensures
        r is Ok <==> pts@.len() >= 1,
        r is Ok ==> r->Ok_0@ == spec_polyline_cmds(pts@, wnum),
{
    let n = pts.len();
    if n == 0 {
        return Err(EmptyPathError);
    }
    let mut cmds: Vec<PathCmd> = Vec::new();
    cmds.push(PathCmd::MoveTo { x: 0, y: pts[0].1 });
    let mut i: usize = 0;
    while i < n
        invariant
            n == pts@.len(),
            n >= 1,
            0 <= i <= n,
            cmds@.len() == i + 1,
            cmds@[0] == (PathCmd::MoveTo { x: 0, y: pts@[0].1 }),
            forall|k: int|
                0 <= k < i ==> cmds@[k + 1] == (PathCmd::LineTo {
                    x: pts@[k].0,
                    y: #[trigger] pts@[k].1,
                }),
        decreases n - i,
    {
        let (x, y) = pts[i];
        cmds.push(PathCmd::LineTo { x, y });
        i = i + 1;
    }
    cmds.push(PathCmd::LineTo { x: wnum, y: pts[n - 1].1 });
    proof {
        assert(cmds@ =~= spec_polyline_cmds(pts@, wnum));
    }
    Ok(cmds)
}

/// The ribbon-chart layout: background, contrast grid color slots,
/// the pair columns and the two strands.
pub struct RibbonLayout {
    pub theme_index: usize,
    pub palette: Vec<Color>,
    pub grid: CenteredGrid,
    pub pairs: Vec<(u32, u32)>,
    pub path_a: Vec<(i64, i64)>,
    pub path_b: Vec<(i64, i64)>,
}

/// Lay out one ribbon chart: pick a palette, size a centered grid
/// (20..80 columns, 5..20 rows), draw one ordered row pair per
/// column and derive both strands. The whole result is a pure
/// function of the incoming random state, the canvas size and the
/// palette table.
pub fn ribbon_layout(rng: &mut SketchRng, width: u32, height: u32, themes: &Themes) -> (r:
    RibbonLayout)
    requires
        1 <= width <= MAX_SIDE,
        1 <= height <= MAX_SIDE,
        themes.wf(),
        themes.spec_len() >= 1,
    ensures
        ({
            let s0 = *old(rng);
            let ti = spec_range_map(spec_next_val(s0), 0, themes.spec_len() as u64);
            let s1 = spec_step(s0);
            let nxv = spec_range_map(spec_next_val(s1), 20, 80);
            let s2 = spec_step(s1);
            let nyv = spec_range_map(spec_next_val(s2), 5, 20);
            let s3 = spec_step(s2);
            let grid = CenteredGrid { width, height, nw: nxv as u32, nh: nyv as u32 };
            let prs = spec_pairs(s3, nxv as int, nyv as int, 0);
            &&& r.theme_index == ti
            &&& r.palette@.len() == 5
            &&& (forall|i: int|
                0 <= i < 5 ==> #[trigger] r.palette@[i] == spec_palette_color(themes.data@, ti
                    * 20 + 4 * i))
            &&& r.grid == grid
            &&& r.pairs@ == prs.0
            &&& *final(rng) == prs.1
            &&& r.path_a@.len() == nxv
            &&& r.path_b@.len() == nxv
            &&& (forall|k: int|
                0 <= k < nxv ==> #[trigger] r.path_a@[k] == (grid.spec_x_num(k) as i64, (
                grid.spec_y_num(prs.0[k].0 as int)) as i64))
            &&& (forall|k: int|
                0 <= k < nxv ==> #[trigger] r.path_b@[k] == (grid.spec_x_num(k) as i64, (
                grid.spec_y_num(prs.0[k].1 as int)) as i64))
        }),
        r.grid.wf(),
        r.path_a@.len() >= 1,
        forall|k: int|
            0 <= k < r.pairs@.len() ==> (#[trigger] r.pairs@[k]).0 < r.pairs@[k].1
                && r.pairs@[k].1 < r.grid.nh,
{
    let (ti, palette) = themes.pick(rng);
    let nxv = rng.gen_range_u64(20, 80);
    let nyv = rng.gen_range_u64(5, 20);
    let grid = CenteredGrid::new(width, height, nxv as u32, nyv as u32);
    let pairs = gen_pairs(rng, nxv as u32, nyv as u32);
    let path_a = pair_path(&grid, &pairs, false);
    let path_b = pair_path(&grid, &pairs, true);
    RibbonLayout { theme_index: ti, palette, grid, pairs, path_a, path_b }
}

} // verus!
