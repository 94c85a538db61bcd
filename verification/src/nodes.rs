//! Node selection: populate each grid column with an ordered list of
//! (color, row) picks, consuming the random context per column.
//!
//! Two stochastic policies exist. The Bernoulli-density policy draws
//! a starting row in the top half of the column and then keeps each
//! following row with a fixed probability, cycling through the color
//! pool. The random-walk policy starts in the top half and advances
//! the cursor by a uniform positive stride, pairing each visited row
//! with the next unused color until rows or colors run out.
//!
//! Every function's result is a pure function of the incoming random
//! state, and within one column the picked rows are strictly
//! increasing.

use vstd::prelude::*;
use crate::color::Color;
use crate::rng::{SketchRng, spec_next_val, spec_range_map, spec_step};

verus! {

/// Rows of a column's picks are strictly increasing.
pub open spec fn rows_strictly_increasing(col: Seq<(Color, u32)>) -> bool {
    forall|a: int, b: int| 0 <= a < b < col.len() ==> (#[trigger] col[a]).1 < (#[trigger] col[b]).1
}

/// All rows of a column's picks lie below `ny`.
pub open spec fn rows_below(col: Seq<(Color, u32)>, ny: int) -> bool {
    forall|a: int| 0 <= a < col.len() ==> (#[trigger] col[a]).1 < ny
}

/// Bernoulli scan from row `j` on: each row is kept when a fresh
/// 53-bit draw falls below `density`; a kept row is paired with the
/// color pool entry at the running count, cycling.
pub open spec fn spec_bernoulli_rows(
    s: SketchRng,
    j: int,
    ny: int,
    colors: Seq<Color>,
    density: u64,
    count: int,
) -> (Seq<(Color, u32)>, SketchRng)
    decreases ny - j,
{
    if j < 0 || j >= ny {
        (Seq::empty(), s)
    } else {
        let keep = spec_next_val(s) / 0x800 < density;
        let s1 = spec_step(s);
        if keep {
            let node = (colors[count % (colors.len() as int)], j as u32);
            let rest = spec_bernoulli_rows(s1, j + 1, ny, colors, density, count + 1);
            (seq![node] + rest.0, rest.1)
        } else {
            spec_bernoulli_rows(s1, j + 1, ny, colors, density, count)
        }
    }
}

/// One column under the Bernoulli-density policy: a guaranteed first
/// pick at a uniform row in the column's top half, then the Bernoulli
/// scan of the rows below it.
pub open spec fn spec_bernoulli_column(
    s: SketchRng,
    ny: int,
    colors: Seq<Color>,
    density: u64,
) -> (Seq<(Color, u32)>, SketchRng) {
    let j0 = spec_range_map(spec_next_val(s), 0, (ny / 2) as u64);
    let s1 = spec_step(s);
    let first = (colors[0], j0 as u32);
    let rest = spec_bernoulli_rows(s1, j0 + 1, ny, colors, density, 1);
    (seq![first] + rest.0, rest.1)
}

/// `n` columns under the Bernoulli-density policy, consuming the
/// random context column after column.
pub open spec fn spec_bernoulli_columns(
    s: SketchRng,
    n: int,
    ny: int,
    colors: Seq<Color>,
    density: u64,
) -> (Seq<Seq<(Color, u32)>>, SketchRng)
    decreases n,
{
    if n <= 0 {
        (Seq::empty(), s)
    } else {
        let col = spec_bernoulli_column(s, ny, colors, density);
        let rest = spec_bernoulli_columns(col.1, n - 1, ny, colors, density);
        (seq![col.0] + rest.0, rest.1)
    }
}

/// The random-walk policy from cursor `j` with `count` colors used:
/// emit the cursor row with the next unused color, then stride down
/// by a uniform draw from `[1, ny)`; stop at the bottom or when the
/// colors are exhausted.
pub open spec fn spec_walk_rows(
    s: SketchRng,
    j: int,
    ny: int,
    colors: Seq<Color>,
    count: int,
) -> (Seq<(Color, u32)>, SketchRng)
    decreases colors.len() - count,
{
    if j < 0 || j >= ny || count >= colors.len() {
        (Seq::empty(), s)
    } else {
        let node = (colors[count], j as u32);
        let stride = spec_range_map(spec_next_val(s), 1, ny as u64);
        let s1 = spec_step(s);
        let rest = spec_walk_rows(s1, j + stride, ny, colors, count + 1);
        (seq![node] + rest.0, rest.1)
    }
}

/// One column under the random-walk policy: a uniform starting row
/// in the column's top half, then the capped walk.
pub open spec fn spec_walk_column(s: SketchRng, ny: int, colors: Seq<Color>) -> (
    Seq<(Color, u32)>,
    SketchRng,
) {
    let j0 = spec_range_map(spec_next_val(s), 0, (ny / 2) as u64);
    let s1 = spec_step(s);
    spec_walk_rows(s1, j0 as int, ny, colors, 0)
}

/// One column of Bernoulli-density picks.
///
/// `density` is a numerator over 2^53: a row is kept when a fresh
/// draw of the unit interval falls below `density / 2^53`.
pub fn bernoulli_column(rng: &mut SketchRng, ny: u32, colors: &Vec<Color>, density: u64) -> (col:
    Vec<(Color, u32)>)
    requires
        2 <= ny,
        colors@.len() >= 1,
    ensures
        (col@, *final(rng)) == spec_bernoulli_column(*old(rng), ny as int, colors@, density),
        col@.len() >= 1,
        rows_strictly_increasing(col@),
        rows_below(col@, ny as int),
        col@[0].1 < ny / 2,
{
    let ghost total = spec_bernoulli_column(*old(rng), ny as int, colors@, density);
    let j0 = rng.gen_range_u64(0, (ny / 2) as u64);
    let mut col: Vec<(Color, u32)> = Vec::new();
    col.push((colors[0], j0 as u32));
    let mut j: u32 = j0 as u32 + 1;
    proof {
        assert(total.0 =~= col@ + spec_bernoulli_rows(*rng, j as int, ny as int, colors@,
            density, col@.len() as int).0);
    }
    while j < ny
        invariant
            2 <= ny,
            colors@.len() >= 1,
            1 <= col@.len(),
            j <= ny,
            col@[0].1 < ny / 2,
            rows_strictly_increasing(col@),
            rows_below(col@, j as int),
            col@.last().1 < j,
            total == spec_bernoulli_column(*old(rng), ny as int, colors@, density),
            total.0 =~= col@ + spec_bernoulli_rows(*rng, j as int, ny as int, colors@, density,
                col@.len() as int).0,
            total.1 == spec_bernoulli_rows(*rng, j as int, ny as int, colors@, density,
                col@.len() as int).1,
        decreases ny - j,
    {
        let ghost pre = *rng;
        let ghost precol = col@;
        let draw = rng.gen_unit53();
        if draw < density {
            let c = colors[col.len() % colors.len()];
            col.push((c, j));
            proof {
                assert(col@ =~= precol.push((colors@[precol.len() as int % (
                colors@.len() as int)], j)));
                assert(total.0 =~= col@ + spec_bernoulli_rows(*rng, j + 1, ny as int, colors@,
                    density, col@.len() as int).0);
            }
        } else {
            proof {
                assert(total.0 =~= col@ + spec_bernoulli_rows(*rng, j + 1, ny as int, colors@,
                    density, col@.len() as int).0);
            }
        }
        j = j + 1;
    }
    proof {
        assert(total.0 =~= col@);
    }
    col
}

/// Unfolding of `spec_bernoulli_columns` by one column.
proof fn lemma_columns_step(s: SketchRng, n: int, ny: int, colors: Seq<Color>, density: u64)
    requires
        n >= 1,
    ensures
        ({
            let total = spec_bernoulli_columns(s, n, ny, colors, density);
            let col = spec_bernoulli_column(s, ny, colors, density);
            let rest = spec_bernoulli_columns(col.1, n - 1, ny, colors, density);
            &&& total.0.len() == n
            &&& total.0[0] == col.0
            &&& total.0.skip(1) =~= rest.0
            &&& total.1 == rest.1
        }),
{
    let total = spec_bernoulli_columns(s, n, ny, colors, density);
    let col = spec_bernoulli_column(s, ny, colors, density);
    let rest = spec_bernoulli_columns(col.1, n - 1, ny, colors, density);
    lemma_columns_len(col.1, n - 1, ny, colors, density);
    assert(total.0 == seq![col.0] + rest.0);
    assert(total.0.skip(1) =~= rest.0);
}

/// Bernoulli-density picks for `nx` columns, each consuming the
/// random context independently of the others' contents.
#[verifier::rlimit(100)]
pub fn select_nodes(rng: &mut SketchRng, nx: u32, ny: u32, colors: &Vec<Color>, density: u64) -> (
    nodes: Vec<Vec<(Color, u32)>>)
    requires
        2 <= ny,
        colors@.len() >= 1,
    ensures
        ({
            let total = spec_bernoulli_columns(*old(rng), nx as int, ny as int, colors@, density);
            &&& *final(rng) == total.1
            &&& nodes@.len() == nx
            &&& nodes@.len() == total.0.len()
            &&& forall|i: int| 0 <= i < nx ==> (#[trigger] nodes@[i])@ == total.0[i]
        }),
        forall|i: int|
            0 <= i < nx ==> rows_strictly_increasing((#[trigger] nodes@[i])@)
                && rows_below(nodes@[i]@, ny as int) && nodes@[i]@.len() >= 1 && nodes@[i]@[0].1
                < ny / 2,
{
    let ghost total = spec_bernoulli_columns(*old(rng), nx as int, ny as int, colors@, density);
    let mut nodes: Vec<Vec<(Color, u32)>> = Vec::new();
    let mut i: u32 = 0;
    proof {
        lemma_columns_len(*old(rng), nx as int, ny as int, colors@, density);
        assert(total.0.skip(0) =~= total.0);
    }
    while i < nx
        invariant
            2 <= ny,
            colors@.len() >= 1,
            i <= nx,
            nodes@.len() == i,
            total == spec_bernoulli_columns(*old(rng), nx as int, ny as int, colors@, density),
            total.0.len() == nx,
            forall|k: int| 0 <= k < i ==> (#[trigger] nodes@[k])@ == total.0[k],
            forall|k: int|
                0 <= k < i ==> rows_strictly_increasing((#[trigger] nodes@[k])@)
                    && rows_below(nodes@[k]@, ny as int) && nodes@[k]@.len() >= 1
                    && nodes@[k]@[0].1 < ny / 2,
            spec_bernoulli_columns(*rng, (nx - i) as int, ny as int, colors@, density).0
                =~= total.0.skip(i as int),
            spec_bernoulli_columns(*rng, (nx - i) as int, ny as int, colors@, density).1
                == total.1,
        decreases nx - i,
    {
        let ghost pre = *rng;
        let col = bernoulli_column(rng, ny, colors, density);
        nodes.push(col);
        proof {
            lemma_columns_step(pre, (nx - i) as int, ny as int, colors@, density);
            let rem = spec_bernoulli_columns(pre, (nx - i) as int, ny as int, colors@, density);
            let rest = spec_bernoulli_columns(*rng, (nx - i - 1) as int, ny as int, colors@,
                density);
            assert(rem.0[0] == total.0.skip(i as int)[0]);
            assert(total.0.skip(i as int)[0] == total.0[i as int]);
            assert(col@ == total.0[i as int]);
            assert(rest.0 =~= rem.0.skip(1));
            assert(rest.0 =~= total.0.skip(i + 1)) by {
                assert forall|k: int| 0 <= k < rest.0.len() implies rest.0[k] == total.0.skip(
                    i + 1)[k] by {
                    assert(rem.0.skip(1)[k] == rem.0[k + 1]);
                    assert(total.0.skip(i as int)[k + 1] == total.0[i + 1 + k]);
                }
            }
        }
        i = i + 1;
    }
    nodes
}

/// `spec_bernoulli_columns` yields one pick list per column.
proof fn lemma_columns_len(s: SketchRng, n: int, ny: int, colors: Seq<Color>, density: u64)
    requires
        n >= 0,
    ensures
        spec_bernoulli_columns(s, n, ny, colors, density).0.len() == n,
    decreases n,
{
    if n > 0 {
        lemma_columns_len(spec_bernoulli_column(s, ny, colors, density).1, n - 1, ny, colors,
            density);
    }
}

/// One column of random-walk picks.
pub fn walk_column(rng: &mut SketchRng, ny: u32, colors: &Vec<Color>) -> (col: Vec<(Color, u32)>)
    requires
        2 <= ny,
        colors@.len() >= 1,
    ensures
        (col@, *final(rng)) == spec_walk_column(*old(rng), ny as int, colors@),
        col@.len() >= 1,
        rows_strictly_increasing(col@),
        rows_below(col@, ny as int),
{
    let ghost total = spec_walk_column(*old(rng), ny as int, colors@);
    let j0 = rng.gen_range_u64(0, (ny / 2) as u64);
    let mut col: Vec<(Color, u32)> = Vec::new();
    let mut j: u32 = j0 as u32;
    proof {
        assert(total.0 =~= col@ + spec_walk_rows(*rng, j as int, ny as int, colors@,
            col@.len() as int).0);
    }
    while j < ny && col.len() < colors.len()
        invariant
            2 <= ny,
            colors@.len() >= 1,
            j <= 2 * ny,
            col@.len() <= colors@.len(),
            rows_strictly_increasing(col@),
            rows_below(col@, ny as int),
            col@.len() >= 1 ==> col@.last().1 < j,
            total == spec_walk_column(*old(rng), ny as int, colors@),
            total.0 =~= col@ + spec_walk_rows(*rng, j as int, ny as int, colors@,
                col@.len() as int).0,
            total.1 == spec_walk_rows(*rng, j as int, ny as int, colors@, col@.len() as int).1,
        decreases ny - j,
    {
        let ghost precol = col@;
        col.push((colors[col.len()], j));
        let stride = rng.gen_range_u64(1, ny as u64);
        proof {
            assert(col@ =~= precol.push((colors@[precol.len() as int], j)));
            assert(total.0 =~= col@ + spec_walk_rows(*rng, j + stride, ny as int, colors@,
                col@.len() as int).0);
        }
        let next = j as u64 + stride;
        if next >= ny as u64 {
            proof {
                assert(spec_walk_rows(*rng, j + stride, ny as int, colors@,
                    col@.len() as int).0 =~= Seq::<(Color, u32)>::empty());
            }
            j = ny;
            proof {
                assert(total.0 =~= col@ + spec_walk_rows(*rng, j as int, ny as int, colors@,
                    col@.len() as int).0);
            }
        } else {
            j = next as u32;
        }
    }
    proof {
        assert(total.0 =~= col@);
    }
    col
}

} // verus!
