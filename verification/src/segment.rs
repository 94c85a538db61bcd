//! Theme segmentation: split a palette into two role colors — its
//! luminance extremes — and a residual pool for node decoration.
//!
//! Luminance gives the single total order used everywhere a color
//! must be classified; ties break to the first occurrence in scan
//! order. A coin flip assigns one extreme as background and the
//! other as the contrasting foreground.

use vstd::prelude::*;
use crate::color::{Color, LUM_HALF, spec_luminance};
use crate::rng::{SketchRng, spec_next_val, spec_step};

verus! {

/// The scan underlying `spec_index_of_min`: the index of the least
/// luminance among `best` and the entries from `k` on, ties kept at
/// the earlier index.
pub open spec fn spec_min_scan(s: Seq<Color>, k: int, best: int) -> int
    decreases s.len() - k,
{
    if k < 0 || k >= s.len() {
        best
    } else if spec_luminance(s[k]) < spec_luminance(s[best]) {
        spec_min_scan(s, k + 1, k)
    } else {
        spec_min_scan(s, k + 1, best)
    }
}

/// The scan underlying `spec_index_of_max`.
pub open spec fn spec_max_scan(s: Seq<Color>, k: int, best: int) -> int
    decreases s.len() - k,
{
    if k < 0 || k >= s.len() {
        best
    } else if spec_luminance(s[k]) > spec_luminance(s[best]) {
        spec_max_scan(s, k + 1, k)
    } else {
        spec_max_scan(s, k + 1, best)
    }
}

/// Index of the first entry of least luminance.
pub open spec fn spec_index_of_min(s: Seq<Color>) -> int {
    spec_min_scan(s, 1, 0)
}

/// Index of the first entry of greatest luminance.
pub open spec fn spec_index_of_max(s: Seq<Color>) -> int {
    spec_max_scan(s, 1, 0)
}

/// The palette without the entries at `a` and `b`, scanning from
/// index `k`, order kept.
pub open spec fn spec_residual_from(s: Seq<Color>, a: int, b: int, k: int) -> Seq<Color>
    decreases s.len() - k,
{
    if k < 0 || k >= s.len() {
        Seq::empty()
    } else if k == a || k == b {
        spec_residual_from(s, a, b, k + 1)
    } else {
        seq![s[k]] + spec_residual_from(s, a, b, k + 1)
    }
}

/// The palette without the entries at `a` and `b`, order kept.
pub open spec fn spec_residual(s: Seq<Color>, a: int, b: int) -> Seq<Color> {
    spec_residual_from(s, a, b, 0)
}

/// Removing two distinct in-range indices leaves exactly
/// `len - 2` entries; removing one index twice leaves `len - 1`.
pub proof fn lemma_residual_len(s: Seq<Color>, a: int, b: int)
    requires
        0 <= a < s.len(),
        0 <= b < s.len(),
    ensures
        a != b ==> spec_residual(s, a, b).len() == s.len() - 2,
        a == b ==> spec_residual(s, a, b).len() == s.len() - 1,
{
    lemma_residual_from_len(s, a, b, 0);
}

proof fn lemma_residual_from_len(s: Seq<Color>, a: int, b: int, k: int)
    requires
        0 <= k <= s.len(),
    ensures
        spec_residual_from(s, a, b, k).len() == s.len() - k - (if k <= a < s.len() {
            1int
        } else {
            0int
        }) - (if a != b && k <= b < s.len() {
            1int
        } else {
            0int
        }),
    decreases s.len() - k,
{
    if k < s.len() {
        lemma_residual_from_len(s, a, b, k + 1);
    }
}

/// Index of the palette's first darkest entry: its luminance is a
/// lower bound for the whole palette, and every earlier entry is
/// strictly brighter.
pub fn index_of_min(colors: &Vec<Color>) -> (i: usize)
    requires
        colors@.len() >= 1,
    ensures
        i == spec_index_of_min(colors@),
        0 <= i < colors@.len(),
        forall|k: int|
            0 <= k < colors@.len() ==> spec_luminance(colors@[i as int]) <= spec_luminance(
                #[trigger] colors@[k]),
        forall|k: int|
            0 <= k < i ==> spec_luminance(#[trigger] colors@[k]) > spec_luminance(
                colors@[i as int]),
{
    let n = colors.len();
    let mut best: usize = 0;
    let mut bestlum: u32 = colors[0].luminance();
    let mut k: usize = 1;
    while k < n
        invariant
            n == colors@.len(),
            1 <= k <= n,
            0 <= best < k,
            bestlum == spec_luminance(colors@[best as int]),
            spec_index_of_min(colors@) == spec_min_scan(colors@, k as int, best as int),
            forall|j: int|
                0 <= j < k ==> spec_luminance(colors@[best as int]) <= spec_luminance(
                    #[trigger] colors@[j]),
            forall|j: int|
                0 <= j < best ==> spec_luminance(#[trigger] colors@[j]) > spec_luminance(
                    colors@[best as int]),
        decreases n - k,
    {
        let l = colors[k].luminance();
        if l < bestlum {
            best = k;
            bestlum = l;
        }
        k = k + 1;
    }
    best
}

/// Index of the palette's first brightest entry: its luminance is an
/// upper bound for the whole palette, and every earlier entry is
/// strictly darker.
pub fn index_of_max(colors: &Vec<Color>) -> (i: usize)
    requires
        colors@.len() >= 1,
    ensures
        i == spec_index_of_max(colors@),
        0 <= i < colors@.len(),
        forall|k: int|
            0 <= k < colors@.len() ==> spec_luminance(#[trigger] colors@[k]) <= spec_luminance(
                colors@[i as int]),
        forall|k: int|
            0 <= k < i ==> spec_luminance(#[trigger] colors@[k]) < spec_luminance(
                colors@[i as int]),
{
    let n = colors.len();
    let mut best: usize = 0;
    let mut bestlum: u32 = colors[0].luminance();
    let mut k: usize = 1;
    while k < n
        invariant
            n == colors@.len(),
            1 <= k <= n,
            0 <= best < k,
            bestlum == spec_luminance(colors@[best as int]),
            spec_index_of_max(colors@) == spec_max_scan(colors@, k as int, best as int),
            forall|j: int|
                0 <= j < k ==> spec_luminance(#[trigger] colors@[j]) <= spec_luminance(
                    colors@[best as int]),
            forall|j: int|
                0 <= j < best ==> spec_luminance(#[trigger] colors@[j]) < spec_luminance(
                    colors@[best as int]),
        decreases n - k,
    {
        let l = colors[k].luminance();
        if l > bestlum {
            best = k;
            bestlum = l;
        }
        k = k + 1;
    }
    best
}

/// Split a palette into two role colors and the residual pool.
///
/// The role colors are the palette's luminance extremes — its first
/// darkest and first brightest entries — and only their order
/// depends on the coin flip; the residual pool is the palette with
/// both extremes removed, order kept. For a palette of distinct
/// extremes of length `n` the pool holds `n - 2` colors.
pub fn segment_theme(rng: &mut SketchRng, theme: &Vec<Color>) -> (r: (Color, Color, Vec<Color>))
    requires
        theme@.len() >= 1,
    ensures
        *final(rng) == spec_step(*old(rng)),
        ({
            let mn = spec_index_of_min(theme@);
            let mx = spec_index_of_max(theme@);
            let coin = spec_next_val(*old(rng)) % 0x1_0000_0000 >= 0x8000_0000;
            &&& r.0 == if coin {
                theme@[mn]
            } else {
                theme@[mx]
            }
            &&& r.1 == if coin {
                theme@[mx]
            } else {
                theme@[mn]
            }
            &&& r.2@ == spec_residual(theme@, mn, mx)
            &&& (mn != mx ==> r.2@.len() == theme@.len() - 2)
            &&& (mn == mx ==> r.2@.len() == theme@.len() - 1)
            &&& forall|k: int|
                0 <= k < theme@.len() ==> spec_luminance(theme@[mn]) <= spec_luminance(
                    #[trigger] theme@[k]) && spec_luminance(theme@[k]) <= spec_luminance(
                    theme@[mx])
        }),
{
    let mn = index_of_min(theme);
    let mx = index_of_max(theme);
    let n = theme.len();
    let mut rest: Vec<Color> = Vec::new();
    let mut k: usize = 0;
    proof {
        assert(spec_residual(theme@, mn as int, mx as int) =~= rest@ + spec_residual_from(
            theme@, mn as int, mx as int, 0));
    }
    while k < n
        invariant
            n == theme@.len(),
            0 <= k <= n,
            mn < n,
            mx < n,
            spec_residual(theme@, mn as int, mx as int) =~= rest@ + spec_residual_from(theme@,
                mn as int, mx as int, k as int),
        decreases n - k,
    {
        if k != mn && k != mx {
            rest.push(theme[k]);
            proof {
                assert(spec_residual(theme@, mn as int, mx as int) =~= rest@
                    + spec_residual_from(theme@, mn as int, mx as int, k + 1));
            }
        }
        k = k + 1;
    }
    proof {
        assert(rest@ =~= spec_residual(theme@, mn as int, mx as int));
        lemma_residual_len(theme@, mn as int, mx as int);
    }
    if rng.gen_bool() {
        (theme[mn], theme[mx], rest)
    } else {
        (theme[mx], theme[mn], rest)
    }
}

/// The single global contrast rule: near-black over a light color,
/// white over a dark one.
pub fn color_contrasting_with(c: &Color) -> (r: Color)
    ensures
        r == if spec_luminance(*c) > LUM_HALF {
            Color { a: 0xff, r: 0x33, g: 0x33, b: 0x33 }
        } else {
            Color { a: 0xff, r: 0xff, g: 0xff, b: 0xff }
        },
{
    if c.is_light() {
        Color::from_rgb(0x33, 0x33, 0x33)
    } else {
        Color::white()
    }
}

/// A translucent shadow tone against `base`: black over a light
/// base, white over a dark one, with the alpha byte `alpha`.
pub fn shadow_over(base: &Color, alpha: u8) -> (r: Color)
    ensures
        r == if spec_luminance(*base) > LUM_HALF {
            Color { a: alpha, r: 0, g: 0, b: 0 }
        } else {
            Color { a: alpha, r: 0xff, g: 0xff, b: 0xff }
        },
{
    let c = if base.is_light() {
        Color::black()
    } else {
        Color::white()
    };
    c.with_alpha(alpha)
}

} // verus!
