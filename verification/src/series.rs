//! Series generation: one uniform row sample per column of a
//! centered-cell grid, the skeleton of the stacked "hill" charts.
//!
//! A series remembers the canvas extents it was generated for, as
//! numerators over its grid's denominator, so that the smoothing
//! forms can run the path out to the canvas edges.

use vstd::prelude::*;
use crate::grid::{CenteredGrid, COORD_LIMIT, lemma_centered_x_step};
use crate::rng::{SketchRng, spec_next_val, spec_range_map, spec_step};
use crate::smooth::{lemma_wave_push, lemma_wave_single, wave_wf};

verus! {

/// An ordered series of one sample point per grid column, with the
/// canvas extents it belongs to.
#[derive(Clone, Debug)]
pub struct Series {
    pub width_num: i64,
    pub height_num: i64,
    pub pts: Vec<(i64, i64)>,
}

/// The sample points from column `i` on: column `i` pairs its exact
/// x-coordinate with a uniformly drawn row's y-coordinate.
pub open spec fn spec_series_pts(s: SketchRng, g: CenteredGrid, i: int) -> (
    Seq<(i64, i64)>,
    SketchRng,
)
    decreases g.nw - i,
{
    if i < 0 || i >= g.nw {
        (Seq::empty(), s)
    } else {
        let j = spec_range_map(spec_next_val(s), 0, g.nh as u64);
        let s1 = spec_step(s);
        let rest = spec_series_pts(s1, g, i + 1);
        (seq![(g.spec_x_num(i) as i64, g.spec_y_num(j as int) as i64)] + rest.0, rest.1)
    }
}

impl Series {
    /// A series fit for the smoothing forms: one point per column,
    /// columns strictly left to right.
    pub open spec fn wf(self) -> bool {
        &&& wave_wf(self.pts@)
        &&& 0 < self.width_num <= COORD_LIMIT
        &&& 0 < self.height_num <= COORD_LIMIT
    }

    /// Generate a series on a grid: for each column left to right,
    /// draw a uniform row and sample the column at that row's
    /// center.
    pub fn gen_on_grid(rng: &mut SketchRng, grid: &CenteredGrid) -> (r: Series)
        requires
            grid.wf(),
        ensures
            (r.pts@, *final(rng)) == spec_series_pts(*old(rng), *grid, 0),
            r.width_num == grid.width * grid.spec_den(),
            r.height_num == grid.height * grid.spec_den(),
            r.pts@.len() == grid.nw,
            r.wf(),
    {
        let ghost total = spec_series_pts(*old(rng), *grid, 0);
        let n = grid.nw();
        let mut pts: Vec<(i64, i64)> = Vec::new();
        let mut i: u32 = 0;
        proof {
            assert(total.0 =~= pts@ + spec_series_pts(*rng, *grid, 0).0);
        }
        while i < n
            invariant
                grid.wf(),
                n == grid.nw,
                0 <= i <= n,
                pts@.len() == i,
                i > 0 ==> wave_wf(pts@),
                i > 0 ==> pts@.last().0 == grid.spec_x_num(i - 1),
                total == spec_series_pts(*old(rng), *grid, 0),
                total.0 =~= pts@ + spec_series_pts(*rng, *grid, i as int).0,
                total.1 == spec_series_pts(*rng, *grid, i as int).1,
            decreases n - i,
        {
            let ghost prepts = pts@;
            let j = rng.gen_range_u64(0, grid.nh() as u64);
            let x = grid.x_num(i);
            let y = grid.y_num(j as u32);
            proof {
                if i == 0 {
                    lemma_wave_single((x, y));
                } else {
                    lemma_centered_x_step(*grid, i - 1);
                    lemma_wave_push(pts@, (x, y));
                }
            }
            pts.push((x, y));
            proof {
                assert(total.0 =~= pts@ + spec_series_pts(*rng, *grid, i + 1).0);
            }
            i = i + 1;
        }
        let width_num = grid.width_num();
        let height_num = grid.height_num();
        proof {
            assert(total.0 =~= pts@);
        }
        Series { width_num, height_num, pts }
    }
}

} // verus!
