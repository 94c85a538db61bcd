//! The dual-series layout: two stacked hill charts, one filled
//! towards the top edge and one towards the bottom, each generated
//! on its own centered grid over half the canvas height.

use vstd::prelude::*;
use crate::color::Color;
use crate::grid::{CenteredGrid, MAX_SIDE};
use crate::rng::{SketchRng, spec_next_val, spec_range_map, spec_step};
use crate::series::{Series, spec_series_pts};
use crate::theme::{Themes, spec_palette_color};

verus! {

/// The dual-series layout: palette, both grids and both series.
pub struct DualSeriesLayout {
    pub theme_index: usize,
    pub palette: Vec<Color>,
    pub tgrid: CenteredGrid,
    pub top: Series,
    pub bgrid: CenteredGrid,
    pub bottom: Series,
}

/// Lay out the stacked hill charts.
///
/// The top grid draws 5..20 columns and 5..10 rows over the upper
/// half canvas; the top series samples it. The bottom grid keeps
/// the top grid's column count with a fresh 5..10 row draw, and the
/// bottom series samples that. The palette's head is the
/// background; the next two entries fill and stroke both series.
///
/// The half canvas is the whole-unit quotient `height / 2`: on an
/// odd height each half deliberately stands half a unit short of an
/// exact bisection, so the two grids stay on whole units and the
/// contract states the drawn halves exactly.
pub fn dual_series_layout(rng: &mut SketchRng, width: u32, height: u32, themes: &Themes) -> (r:
    DualSeriesLayout)
    requires
        1 <= width <= MAX_SIDE,
        2 <= height <= MAX_SIDE,
        themes.wf(),
        themes.spec_len() >= 1,
    ensures
        ({
            let s0 = *old(rng);
            let ti = spec_range_map(spec_next_val(s0), 0, themes.spec_len() as u64);
            let s1 = spec_step(s0);
            let nwv = spec_range_map(spec_next_val(s1), 5, 20);
            let s2 = spec_step(s1);
            let nhv = spec_range_map(spec_next_val(s2), 5, 10);
            let s3 = spec_step(s2);
            let tgrid = CenteredGrid {
                width,
                height: (height / 2) as u32,
                nw: nwv as u32,
                nh: nhv as u32,
            };
            let tops = spec_series_pts(s3, tgrid, 0);
            let s4 = tops.1;
            let nhv2 = spec_range_map(spec_next_val(s4), 5, 10);
            let s5 = spec_step(s4);
            let bgrid = CenteredGrid {
                width,
                height: (height / 2) as u32,
                nw: nwv as u32,
                nh: nhv2 as u32,
            };
            let bots = spec_series_pts(s5, bgrid, 0);
            &&& r.theme_index == ti
            &&& r.palette@.len() == 5
            &&& (forall|i: int|
                0 <= i < 5 ==> #[trigger] r.palette@[i] == spec_palette_color(themes.data@, ti
                    * 20 + 4 * i))
            &&& r.tgrid == tgrid
            &&& r.top.pts@ == tops.0
            &&& r.bgrid == bgrid
            &&& r.bottom.pts@ == bots.0
            &&& *final(rng) == bots.1
        }),
        r.tgrid.wf(),
        r.bgrid.wf(),
        r.top.wf(),
        r.bottom.wf(),
        r.top.pts@.len() == r.tgrid.nw,
        r.bottom.pts@.len() == r.bgrid.nw,
        r.top.width_num == r.tgrid.width * r.tgrid.spec_den(),
        r.top.height_num == r.tgrid.height * r.tgrid.spec_den(),
        r.bottom.width_num == r.bgrid.width * r.bgrid.spec_den(),
        r.bottom.height_num == r.bgrid.height * r.bgrid.spec_den(),
{
    let (ti, palette) = themes.pick(rng);
    let nwv = rng.gen_range_u64(5, 20);
    let nhv = rng.gen_range_u64(5, 10);
    let half = height / 2;
    let tgrid = CenteredGrid::new(width, half, nwv as u32, nhv as u32);
    let top = Series::gen_on_grid(rng, &tgrid);
    let nhv2 = rng.gen_range_u64(5, 10);
    let bgrid = CenteredGrid::new(width, half, nwv as u32, nhv2 as u32);
    let bottom = Series::gen_on_grid(rng, &bgrid);
    DualSeriesLayout { theme_index: ti, palette, tgrid, top, bgrid, bottom }
}

} // verus!
