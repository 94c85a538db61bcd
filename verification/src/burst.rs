//! The radial-burst parameters: every scalar the burst sketch needs,
//! derived deterministically before any trigonometry happens.
//!
//! Lengths are exact integers in thousandths of a canvas unit
//! ("mil"). A unit draw `u` stands for the uniform sample `u / 2^53`
//! of the unit interval, and a scaled draw floors the product, so
//! each parameter is an exact integer function of the draws.

use vstd::prelude::*;
use crate::color::{Color, LUM_HALF, spec_darken, spec_luminance, spec_scale_channel};
use crate::grid::MAX_SIDE;
use crate::rng::{SketchRng, spec_next_val, spec_range_map, spec_step};
use crate::theme::{Themes, spec_palette_color};

verus! {

/// `lo + u * (hi - lo) / 2^53`: the unit draw `u` scaled into
/// `[lo, hi)`, floored.
pub open spec fn spec_unit_scale(u: u64, lo: int, hi: int) -> int {
    lo + u * (hi - lo) / 0x20_0000_0000_0000
}

/// Scale a unit draw into the interval `[lo, hi)` of mil values.
fn unit_scale(u: u64, lo: i64, hi: i64) -> (r: i64)
    requires
        0 <= lo <= hi,
        hi <= 100_000_000_000,
        u < 0x20_0000_0000_0000,
    ensures
        r == spec_unit_scale(u, lo as int, hi as int),
        lo <= r,
        lo < hi ==> r < hi,
        lo == hi ==> r == lo,
{
    let range: i64 = hi - lo;
    proof {
        assert(u * range < 0x20_0000_0000_0000 * range || range == 0) by (nonlinear_arith)
            requires u < 0x20_0000_0000_0000 && range >= 0;
        assert(u * range <= 0x20_0000_0000_0000 * 100_000_000_000) by (nonlinear_arith)
            requires 0 <= u <= 0x20_0000_0000_0000 && 0 <= range <= 100_000_000_000;
        assert(u * range >= 0) by (nonlinear_arith)
            requires u >= 0 && range >= 0;
        assert(u * range / 0x20_0000_0000_0000 < range || range == 0) by (nonlinear_arith)
            requires u * range < 0x20_0000_0000_0000 * range || range == 0;
        assert(u * range / 0x20_0000_0000_0000 >= 0) by (nonlinear_arith)
            requires u * range >= 0;
        assert(range == 0 ==> u * range == 0) by (nonlinear_arith);
    }
    let wide: i128 = (u as i128) * (range as i128);
    let off: i128 = wide / 0x20_0000_0000_0000;
    lo + (off as i64)
}

/// Every scalar of one radial burst.
pub struct BurstParams {
    pub theme_index: usize,
    pub palette: Vec<Color>,
    pub halo: Color,
    pub ri_mil: i64,
    pub ro_mil: i64,
    pub rt_mil: i64,
    pub spikes: u32,
    pub lw_mil: i64,
    pub ys_mil: i64,
}

/// Derive the burst's parameters.
///
/// With `r = 500 * min(width, height)` mil — half the smaller canvas
/// side — the inner radius is `0.4 * r`, the outer radius scales the
/// inner one by a uniform factor in `[1.1, 1.5)`, the ring step is
/// uniform in `[r/50, r/10)`, the spike count is twice a uniform
/// draw from `[4, 10)`, the line width is uniform in `[2, 6)` units
/// and the tendril spacing uniform in `[10, height/8)` units. The
/// halo color darkens a light palette head by the factor 0.7 and
/// brightens a dark one by 17075/10000, the closest ten-thousandth
/// to 0.7^-1.5.
pub fn burst_params(rng: &mut SketchRng, width: u32, height: u32, themes: &Themes) -> (r:
    BurstParams)
    requires
        1 <= width <= MAX_SIDE,
        81 <= height <= MAX_SIDE,
        themes.wf(),
        themes.spec_len() >= 1,
    ensures
        ({
            let s0 = *old(rng);
            let ti = spec_range_map(spec_next_val(s0), 0, themes.spec_len() as u64);
            let s1 = spec_step(s0);
            let u_ro = spec_next_val(s1) / 0x800;
            let s2 = spec_step(s1);
            let u_rt = spec_next_val(s2) / 0x800;
            let s3 = spec_step(s2);
            let nv = spec_range_map(spec_next_val(s3), 4, 10);
            let s4 = spec_step(s3);
            let u_lw = spec_next_val(s4) / 0x800;
            let s5 = spec_step(s4);
            let u_ys = spec_next_val(s5) / 0x800;
            let s6 = spec_step(s5);
            let rmil = 500 * (if width <= height {
                width
            } else {
                height
            });
            let ri = rmil * 2 / 5;
            let head = spec_palette_color(themes.data@, ti * 20);
            &&& r.theme_index == ti
            &&& r.palette@.len() == 5
            &&& (forall|i: int|
                0 <= i < 5 ==> #[trigger] r.palette@[i] == spec_palette_color(themes.data@, ti
                    * 20 + 4 * i))
            &&& r.ri_mil == ri
            &&& r.ro_mil == ri + spec_unit_scale(u_ro, 0, ri * 2 / 5) + ri / 10
            &&& r.rt_mil == spec_unit_scale(u_rt, rmil / 50, rmil / 10)
            &&& r.spikes == 2 * nv
            &&& r.lw_mil == spec_unit_scale(u_lw, 2000, 6000)
            &&& r.ys_mil == spec_unit_scale(u_ys, 10000, 125 * height)
            &&& r.halo == if spec_luminance(head) > LUM_HALF {
                Color {
                    a: head.a,
                    r: spec_darken(head.r as int, 1) as u8,
                    g: spec_darken(head.g as int, 1) as u8,
                    b: spec_darken(head.b as int, 1) as u8,
                }
            } else {
                Color {
                    a: head.a,
                    r: spec_scale_channel(head.r as int, 17075, 10000) as u8,
                    g: spec_scale_channel(head.g as int, 17075, 10000) as u8,
                    b: spec_scale_channel(head.b as int, 17075, 10000) as u8,
                }
            }
            &&& *final(rng) == s6
        }),
        0 < r.ri_mil < r.ro_mil,
        0 < r.rt_mil,
        8 <= r.spikes < 20,
{
    let (ti, palette) = themes.pick(rng);
    let min_side = if width <= height {
        width
    } else {
        height
    };
    let rmil: i64 = 500 * (min_side as i64);
    let ri: i64 = rmil * 2 / 5;
    let u_ro = rng.gen_unit53();
    let ro: i64 = ri + unit_scale(u_ro, 0, ri * 2 / 5) + ri / 10;
    let u_rt = rng.gen_unit53();
    let rt: i64 = unit_scale(u_rt, rmil / 50, rmil / 10);
    let nv = rng.gen_range_u64(4, 10);
    let spikes: u32 = 2 * (nv as u32);
    let u_lw = rng.gen_unit53();
    let lw: i64 = unit_scale(u_lw, 2000, 6000);
    let u_ys = rng.gen_unit53();
    let ys: i64 = unit_scale(u_ys, 10000, 125 * (height as i64));
    let head = palette[0];
    let halo = if head.is_light() {
        head.darker(1)
    } else {
        head.scaled(17075, 10000)
    };
    BurstParams {
        theme_index: ti,
        palette,
        halo,
        ri_mil: ri,
        ro_mil: ro,
        rt_mil: rt,
        spikes,
        lw_mil: lw,
        ys_mil: ys,
    }
}

} // verus!
