//! The wire-chart layout: the full deterministic skeleton of the
//! subway-map sketch family.
//!
//! From one seeded context the layout draws a palette, segments it
//! into background, foreground and a residual pool, sizes an inset
//! grid, populates its columns with Bernoulli-density nodes, and
//! builds one jittered vertical polyline per column. Everything in
//! the result — and the state the context is left in — is a pure
//! function of the incoming state, the canvas size and the palette
//! table.

use vstd::prelude::*;
use crate::color::Color;
use crate::grid::{COORD_LIMIT, InsetGrid, MAX_SIDE, lemma_inset_x_bound};
use crate::nodes::{
    rows_below, rows_strictly_increasing, select_nodes, spec_bernoulli_columns,
};
use crate::rng::{SketchRng, spec_next_val, spec_range_map, spec_step};
use crate::segment::{segment_theme, spec_index_of_max, spec_index_of_min, spec_residual};
use crate::smooth::smooth_wf;
use crate::theme::{Themes, spec_palette_color};
use crate::vline::{build_vline, spec_vline};

verus! {

/// The node density of the wire chart: a quarter, as a numerator
/// over 2^53.
pub const WIRE_DENSITY: u64 = 0x8_0000_0000_0000;

/// One vertical polyline per column, consuming the random context
/// column after column; column `i` runs at the grid's `i`-th column
/// coordinate.
pub open spec fn spec_vlines(
    s: SketchRng,
    g: InsetGrid,
    jr: int,
    nodes: Seq<Seq<(Color, u32)>>,
    i: int,
) -> (Seq<Seq<(i64, i64)>>, SketchRng)
    decreases nodes.len() - i,
{
    if i < 0 || i >= nodes.len() {
        (Seq::empty(), s)
    } else {
        let one = spec_vline(s, g, jr, g.spec_x_num(i), nodes[i]);
        let rest = spec_vlines(one.1, g, jr, nodes, i + 1);
        (seq![one.0] + rest.0, rest.1)
    }
}

/// `spec_vlines` yields one polyline per column.
proof fn lemma_vlines_len(s: SketchRng, g: InsetGrid, jr: int, nodes: Seq<Seq<(Color, u32)>>,
    i: int)
    requires
        0 <= i <= nodes.len(),
    ensures
        spec_vlines(s, g, jr, nodes, i).0.len() == nodes.len() - i,
    decreases nodes.len() - i,
{
    if i < nodes.len() {
        lemma_vlines_len(spec_vline(s, g, jr, g.spec_x_num(i), nodes[i]).1, g, jr, nodes, i + 1);
    }
}

/// Unfolding of `spec_vlines` by one column.
proof fn lemma_vlines_step(s: SketchRng, g: InsetGrid, jr: int, nodes: Seq<Seq<(Color, u32)>>,
    i: int)
    requires
        0 <= i < nodes.len(),
    ensures
        ({
            let total = spec_vlines(s, g, jr, nodes, i);
            let one = spec_vline(s, g, jr, g.spec_x_num(i), nodes[i]);
            let rest = spec_vlines(one.1, g, jr, nodes, i + 1);
            &&& total.0.len() == nodes.len() - i
            &&& total.0[0] == one.0
            &&& total.0.skip(1) =~= rest.0
            &&& total.1 == rest.1
        }),
{
    let one = spec_vline(s, g, jr, g.spec_x_num(i), nodes[i]);
    lemma_vlines_len(s, g, jr, nodes, i);
    lemma_vlines_len(one.1, g, jr, nodes, i + 1);
    let total = spec_vlines(s, g, jr, nodes, i);
    let rest = spec_vlines(one.1, g, jr, nodes, i + 1);
    assert(total.0 == seq![one.0] + rest.0);
    assert(total.0.skip(1) =~= rest.0);
}

/// Build one polyline per column from the selected nodes.
#[verifier::rlimit(100)]
fn build_vlines(rng: &mut SketchRng, grid: &InsetGrid, jitter: i64, nodes: &Vec<Vec<(Color, u32)>>)
    -> (paths: Vec<Vec<(i64, i64)>>)
    requires
        grid.wf(),
        0 <= jitter,
        jitter <= grid.spec_dx_num(),
        nodes@.len() <= grid.nx,
        forall|k: int|
            0 <= k < nodes@.len() ==> rows_strictly_increasing((#[trigger] nodes@[k])@)
                && rows_below(nodes@[k]@, grid.ny as int) && nodes@[k]@.len() >= 1,
    ensures
        ({
            let nodeviews = nodes@.map_values(|v: Vec<(Color, u32)>| v@);
            let lines = spec_vlines(*old(rng), *grid, jitter as int, nodeviews, 0);
            &&& paths@.len() == nodes@.len()
            &&& forall|i: int| 0 <= i < paths@.len() ==> (#[trigger] paths@[i])@ == lines.0[i]
            &&& *final(rng) == lines.1
        }),
        forall|i: int|
            0 <= i < paths@.len() ==> smooth_wf((#[trigger] paths@[i])@) && paths@[i]@.len() >= 2
                && paths@[i]@[0].1 == grid.spec_dy_num() / 2 && paths@[i]@.last().1
                == grid.spec_y_num(grid.ny - 1) + grid.spec_dy_num() / 2,
{
    let ghost s5 = *rng;
    let ghost nodeviews = nodes@.map_values(|v: Vec<(Color, u32)>| v@);
    let ghost lines = spec_vlines(s5, *grid, jitter as int, nodeviews, 0);
    let mut paths: Vec<Vec<(i64, i64)>> = Vec::new();
    let n = nodes.len();
    let mut i: usize = 0;
    proof {
        assert(nodeviews.len() == nodes@.len());
        lemma_vlines_len(s5, *grid, jitter as int, nodeviews, 0);
        assert(lines.0.skip(0) =~= lines.0);
    }
    while i < n
        invariant
            grid.wf(),
            n == nodes@.len(),
            n == nodeviews.len(),
            n <= grid.nx,
            0 <= i <= n,
            0 <= jitter,
            jitter <= grid.spec_dx_num(),
            forall|k: int| 0 <= k < n ==> (#[trigger] nodes@[k])@ == nodeviews[k],
            forall|k: int|
                0 <= k < n ==> rows_strictly_increasing(#[trigger] nodeviews[k]) && rows_below(
                    nodeviews[k], grid.ny as int) && nodeviews[k].len() >= 1,
            paths@.len() == i,
            forall|k: int| 0 <= k < i ==> (#[trigger] paths@[k])@ == lines.0[k],
            forall|k: int|
                0 <= k < i ==> smooth_wf((#[trigger] paths@[k])@) && paths@[k]@.len() >= 2
                    && paths@[k]@[0].1 == grid.spec_dy_num() / 2 && paths@[k]@.last().1
                    == grid.spec_y_num(grid.ny - 1) + grid.spec_dy_num() / 2,
            lines == spec_vlines(s5, *grid, jitter as int, nodeviews, 0),
            lines.0.len() == n,
            spec_vlines(*rng, *grid, jitter as int, nodeviews, i as int).0 =~= lines.0.skip(
                i as int),
            spec_vlines(*rng, *grid, jitter as int, nodeviews, i as int).1 == lines.1,
        decreases n - i,
    {
        let ghost pre = *rng;
        let x = grid.x_num(i as u32);
        proof {
            lemma_inset_x_bound(*grid, i as int);
            assert(nodes@[i as int]@ == nodeviews[i as int]);
        }
        let pts = build_vline(rng, grid, jitter, x, &nodes[i]);
        paths.push(pts);
        proof {
            lemma_vlines_step(pre, *grid, jitter as int, nodeviews, i as int);
            let rem = spec_vlines(pre, *grid, jitter as int, nodeviews, i as int);
            let rest = spec_vlines(*rng, *grid, jitter as int, nodeviews, i + 1);
            assert(rem.0[0] == lines.0.skip(i as int)[0]);
            assert(lines.0.skip(i as int)[0] == lines.0[i as int]);
            assert(rest.0 =~= lines.0.skip(i + 1)) by {
                assert(rest.0 =~= rem.0.skip(1));
                assert forall|k: int| 0 <= k < rest.0.len() implies rest.0[k] == lines.0.skip(i
                    + 1)[k] by {
                    assert(rem.0.skip(1)[k] == rem.0[k + 1]);
                    assert(lines.0.skip(i as int)[k + 1] == lines.0[i + 1 + k]);
                }
            }
        }
        i = i + 1;
    }
    paths
}

/// The wire-chart layout: palette roles, grid, nodes and polylines.
pub struct WiresLayout {
    pub theme_index: usize,
    pub bg: Color,
    pub fg: Color,
    pub colors: Vec<Color>,
    pub grid: InsetGrid,
    pub halo_num: i64,
    pub dot_num: i64,
    pub jitter_num: i64,
    pub nodes: Vec<Vec<(Color, u32)>>,
    pub paths: Vec<Vec<(i64, i64)>>,
}

/// Lay out one wire chart.
///
/// The contract pins every part of the result as a pure function of
/// the incoming random state, the canvas size and the palette
/// table: the palette pick, the role split, the grid dimensions
/// (20..40 columns, 5..20 rows), the radii derived from the smaller
/// pitch, the node selection at density 1/4, and each column's
/// polyline together with the state the context is left in. Every
/// polyline is fit for the S-curve smoothing form and touches the
/// top and bottom margins.
#[verifier::rlimit(100)]
pub fn wires_layout(rng: &mut SketchRng, width: u32, height: u32, themes: &Themes) -> (r:
    WiresLayout)
    requires
        1 <= width <= MAX_SIDE,
        1 <= height <= MAX_SIDE,
        themes.wf(),
        themes.spec_len() >= 1,
    ensures
        ({
            let s0 = *old(rng);
            let ti = spec_range_map(spec_next_val(s0), 0, themes.spec_len() as u64);
            let s1 = spec_step(s0);
            let palette = Seq::new(5, |i: int| spec_palette_color(themes.data@, ti * 20 + 4
                * i));
            let mn = spec_index_of_min(palette);
            let mx = spec_index_of_max(palette);
            let coin = spec_next_val(s1) % 0x1_0000_0000 >= 0x8000_0000;
            let s2 = spec_step(s1);
            let nxv = spec_range_map(spec_next_val(s2), 20, 40);
            let s3 = spec_step(s2);
            let nyv = spec_range_map(spec_next_val(s3), 5, 20);
            let s4 = spec_step(s3);
            let grid = InsetGrid { width, height, nx: nxv as u32, ny: nyv as u32 };
            let halo = if grid.spec_dx_num() <= grid.spec_dy_num() {
                grid.spec_dx_num()
            } else {
                grid.spec_dy_num()
            };
            let picks = spec_bernoulli_columns(s4, nxv as int, nyv as int, spec_residual(
                palette, mn, mx), WIRE_DENSITY);
            let lines = spec_vlines(picks.1, grid, halo / 20 * 9, picks.0, 0);
            &&& r.theme_index == ti
            &&& r.bg == if coin {
                palette[mn]
            } else {
                palette[mx]
            }
            &&& r.fg == if coin {
                palette[mx]
            } else {
                palette[mn]
            }
            &&& r.colors@ == spec_residual(palette, mn, mx)
            &&& r.grid == grid
            &&& r.halo_num == halo
            &&& r.dot_num == halo / 5
            &&& r.jitter_num == halo / 20 * 9
            &&& r.nodes@.len() == nxv
            &&& forall|i: int| 0 <= i < nxv ==> (#[trigger] r.nodes@[i])@ == picks.0[i]
            &&& r.paths@.len() == nxv
            &&& forall|i: int| 0 <= i < nxv ==> (#[trigger] r.paths@[i])@ == lines.0[i]
            &&& *final(rng) == lines.1
        }),
        r.grid.wf(),
        r.colors@.len() >= 3,
        forall|i: int|
            0 <= i < r.paths@.len() ==> smooth_wf((#[trigger] r.paths@[i])@) && r.paths@[i]@.len()
                >= 2 && r.paths@[i]@[0].1 == r.grid.spec_dy_num() / 2 && r.paths@[i]@.last().1
                == r.grid.spec_y_num(r.grid.ny - 1) + r.grid.spec_dy_num() / 2,
        forall|i: int|
            0 <= i < r.nodes@.len() ==> rows_strictly_increasing((#[trigger] r.nodes@[i])@)
                && rows_below(r.nodes@[i]@, r.grid.ny as int) && r.nodes@[i]@.len() >= 1,
{
    let (ti, palette) = themes.pick(rng);
    proof {
        assert(palette@ =~= Seq::new(5, |i: int| spec_palette_color(themes.data@, ti * 20 + 4
            * i)));
    }
    let (bg, fg, colors) = segment_theme(rng, &palette);
    let nxv = rng.gen_range_u64(20, 40);
    let nyv = rng.gen_range_u64(5, 20);
    let grid = InsetGrid::new(width, height, nxv as u32, nyv as u32);
    let dxn = grid.dx_num();
    let dyn_ = grid.dy_num();
    let halo = if dxn <= dyn_ {
        dxn
    } else {
        dyn_
    };
    let dot = halo / 5;
    let jitter = halo / 20 * 9;
    let ghost s4g = *rng;
    let nodes = select_nodes(rng, nxv as u32, nyv as u32, &colors, WIRE_DENSITY);
    let ghost nodestotal = spec_bernoulli_columns(s4g, nxv as int, nyv as int, colors@,
        WIRE_DENSITY);
    let ghost nodeviews = nodes@.map_values(|v: Vec<(Color, u32)>| v@);
    proof {
        assert(nodeviews =~= nodestotal.0) by {
            assert forall|k: int| 0 <= k < nodeviews.len() implies nodeviews[k]
                == nodestotal.0[k] by {
                assert(nodeviews[k] == nodes@[k]@);
            }
        }
    }
    let paths = build_vlines(rng, &grid, jitter, &nodes);
    WiresLayout {
        theme_index: ti,
        bg,
        fg,
        colors,
        grid,
        halo_num: halo,
        dot_num: dot,
        jitter_num: jitter,
        nodes,
        paths,
    }
}

} // verus!
