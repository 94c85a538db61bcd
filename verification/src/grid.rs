//! Grid models: lattices that map integer cell coordinates to exact
//! canvas coordinates.
//!
//! Coordinates are exact rationals kept as integer numerators over a
//! per-grid denominator (`den`): a numerator `n` stands for the
//! canvas coordinate `n / den`. The denominator carries the factors
//! that every derived coordinate needs — half-pitch offsets, jitter
//! radii, and the Bézier corner constant 5523/10000 — so that all of
//! them stay exact integers.
//!
//! Two conventions exist and are chosen explicitly:
//! - the inset convention, `dx = width/(nx+1)`, column `i` at
//!   `dx*(i+1)`, which leaves a half-pitch margin on all four sides;
//! - the centered-cell convention, `dw = width/nw`, column `i` at
//!   `dw/2 + dw*i`, one sample per column.

use vstd::prelude::*;
use crate::arith::{lemma_mul_le, lemma_mul_pos};

verus! {

/// Largest canvas side length the grids accept; keeps every derived
/// numerator within `i64`.
pub const MAX_SIDE: u32 = 100000;

/// Largest cell count per axis; keeps every derived numerator within
/// `i64`.
pub const MAX_CELLS: u32 = 1000;

/// Bound on every coordinate numerator a grid hands out (2^52).
pub const COORD_LIMIT: i64 = 0x10_0000_0000_0000;

/// The product `a * b * k * c` under the grids' factor bounds: the
/// shape of every coordinate numerator.
fn coord_num(a: i64, b: i64, k: i64, c: i64) -> (n: i64)
    requires
        0 < a <= 2001,
        0 < b <= 100000,
        0 < k <= 20000,
        0 < c <= 1001,
    ensures
        n == a * b * k * c,
        0 < n <= COORD_LIMIT,
{
    proof {
        lemma_mul_le(a as int, b as int, 2001, 100000);
        lemma_mul_pos(a as int, b as int);
        lemma_mul_le(a * b, k as int, 200100000, 20000);
        lemma_mul_pos(a * b, k as int);
        lemma_mul_le(a * b * k, c as int, 4002000000000, 1001);
        lemma_mul_pos(a * b * k, c as int);
    }
    a * b * k * c
}

/// A lattice under the inset convention: `dx = width/(nx+1)`,
/// `dy = height/(ny+1)`, column `i` at `dx*(i+1)`, row `j` at
/// `dy*(j+1)`.
#[derive(Clone, Copy, Debug, PartialEq, Eq, Structural)]
pub struct InsetGrid {
    pub width: u32,
    pub height: u32,
    pub nx: u32,
    pub ny: u32,
}

impl InsetGrid {
    /// Dimensions the grid accepts: a positive canvas no larger than
    /// `MAX_SIDE` on a side and between 1 and `MAX_CELLS` cells per
    /// axis.
    pub open spec fn wf(self) -> bool {
        &&& 1 <= self.width <= MAX_SIDE
        &&& 1 <= self.height <= MAX_SIDE
        &&& 1 <= self.nx <= MAX_CELLS
        &&& 1 <= self.ny <= MAX_CELLS
    }

    /// The grid's common denominator: `40*(nx+1)*(ny+1)`.
    pub open spec fn spec_den(self) -> int {
        40 * (self.nx + 1) * (self.ny + 1)
    }

    /// Numerator of column `i`'s x-coordinate `(i+1)*width/(nx+1)`.
    pub open spec fn spec_x_num(self, i: int) -> int {
        (i + 1) * self.width * 40 * (self.ny + 1)
    }

    /// Numerator of row `j`'s y-coordinate `(j+1)*height/(ny+1)`.
    pub open spec fn spec_y_num(self, j: int) -> int {
        (j + 1) * self.height * 40 * (self.nx + 1)
    }

    /// Numerator of the column pitch `dx = width/(nx+1)`.
    pub open spec fn spec_dx_num(self) -> int {
        self.width * 40 * (self.ny + 1)
    }

    /// Numerator of the row pitch `dy = height/(ny+1)`.
    pub open spec fn spec_dy_num(self) -> int {
        self.height * 40 * (self.nx + 1)
    }

    pub fn new(width: u32, height: u32, nx: u32, ny: u32) -> (g: InsetGrid)
        requires
            1 <= width <= MAX_SIDE,
            1 <= height <= MAX_SIDE,
            1 <= nx <= MAX_CELLS,
            1 <= ny <= MAX_CELLS,
        ensures
            g == (InsetGrid { width, height, nx, ny }),
            g.wf(),
    {
        InsetGrid { width, height, nx, ny }
    }

    pub fn nx(&self) -> (n: u32)
        ensures
            n == self.nx,
    {
        self.nx
    }

    pub fn ny(&self) -> (n: u32)
        ensures
            n == self.ny,
    {
        self.ny
    }

    /// The denominator under every numerator this grid hands out.
    pub fn den(&self) -> (d: i64)
        requires
            self.wf(),
        ensures
            d == self.spec_den(),
            0 < d <= COORD_LIMIT,
    {
        proof {
            lemma_mul_le(40 * (self.nx + 1), (self.ny + 1) as int, 40040, 1001);
            lemma_mul_pos(40 * (self.nx + 1), (self.ny + 1) as int);
        }
        40i64 * ((self.nx + 1) as i64) * ((self.ny + 1) as i64)
    }

    /// Numerator of column `i`'s x-coordinate.
    pub fn x_num(&self, i: u32) -> (n: i64)
        requires
            self.wf(),
            i < self.nx,
        ensures
            n == self.spec_x_num(i as int),
            0 < n <= COORD_LIMIT,
    {
        coord_num((i + 1) as i64, self.width as i64, 40, (self.ny + 1) as i64)
    }

    /// Numerator of row `j`'s y-coordinate.
    pub fn y_num(&self, j: u32) -> (n: i64)
        requires
            self.wf(),
            j < self.ny,
        ensures
            n == self.spec_y_num(j as int),
            0 < n <= COORD_LIMIT,
    {
        coord_num((j + 1) as i64, self.height as i64, 40, (self.nx + 1) as i64)
    }

    /// Numerator of the column pitch `dx`.
    pub fn dx_num(&self) -> (n: i64)
        requires
            self.wf(),
        ensures
            n == self.spec_dx_num(),
            0 < n <= COORD_LIMIT,
    {
        coord_num(1, self.width as i64, 40, (self.ny + 1) as i64)
    }

    /// Numerator of the row pitch `dy`. Always even, so that half
    /// pitches stay exact.
    pub fn dy_num(&self) -> (n: i64)
        requires
            self.wf(),
        ensures
            n == self.spec_dy_num(),
            n % 2 == 0,
            0 < n <= COORD_LIMIT,
    {
        let n = coord_num(1, self.height as i64, 40, (self.nx + 1) as i64);
        proof {
            let h = self.height as int;
            let p = (self.nx + 1) as int;
            assert(1 * h * 40 * p == 2 * (h * 20 * p)) by (nonlinear_arith);
            assert(2 * (h * 20 * p) % 2 == 0) by (nonlinear_arith);
        }
        n
    }

    /// Numerator of the half row pitch `dy/2`.
    pub fn dyh_num(&self) -> (n: i64)
        requires
            self.wf(),
        ensures
            n == self.spec_dy_num() / 2,
            0 < n <= COORD_LIMIT,
    {
        self.dy_num() / 2
    }

    /// Numerators of the overlay's vertical lines: one per column.
    pub fn column_nums(&self) -> (v: Vec<i64>)
        requires
            self.wf(),
        ensures
            v@.len() == self.nx,
            forall|k: int| 0 <= k < self.nx ==> v@[k] == self.spec_x_num(k),
    {
        let mut v: Vec<i64> = Vec::new();
        let mut i: u32 = 0;
        while i < self.nx
            invariant
                self.wf(),
                i <= self.nx,
                v@.len() == i,
                forall|k: int| 0 <= k < i ==> v@[k] == self.spec_x_num(k),
            decreases self.nx - i,
        {
            v.push(self.x_num(i));
            i = i + 1;
        }
        v
    }

    /// Numerators of the overlay's horizontal lines: one per row.
    pub fn row_nums(&self) -> (v: Vec<i64>)
        requires
            self.wf(),
        ensures
            v@.len() == self.ny,
            forall|k: int| 0 <= k < self.ny ==> v@[k] == self.spec_y_num(k),
    {
        let mut v: Vec<i64> = Vec::new();
        let mut j: u32 = 0;
        while j < self.ny
            invariant
                self.wf(),
                j <= self.ny,
                v@.len() == j,
                forall|k: int| 0 <= k < j ==> v@[k] == self.spec_y_num(k),
            decreases self.ny - j,
        {
            v.push(self.y_num(j));
            j = j + 1;
        }
        v
    }
}

/// The inset spacing invariant: the pitch times the cell count plus
/// one gives back the exact canvas side, and the first and last
/// column centers are each one pitch from their canvas edge.
pub proof fn lemma_inset_spacing(g: InsetGrid)
    requires
        g.wf(),
    ensures
        g.spec_dx_num() * (g.nx + 1) == g.width * g.spec_den(),
        g.spec_dy_num() * (g.ny + 1) == g.height * g.spec_den(),
        g.spec_x_num(0) == g.spec_dx_num(),
        g.width * g.spec_den() - g.spec_x_num(g.nx - 1) == g.spec_dx_num(),
{
    let w = g.width as int;
    let h = g.height as int;
    let p = (g.nx + 1) as int;
    let q = (g.ny + 1) as int;
    assert((w * 40 * q) * p == w * (40 * p * q)) by (nonlinear_arith);
    assert((h * 40 * p) * q == h * (40 * p * q)) by (nonlinear_arith);
    assert(g.spec_x_num(g.nx - 1) == (g.nx as int) * w * 40 * q);
    assert(w * (40 * p * q) - (g.nx as int) * w * 40 * q == w * 40 * q) by (nonlinear_arith)
        requires p == g.nx + 1;
}

/// Evenness, positivity and bounds of the inset grid's row
/// coordinates: row `j`'s numerator and the pitch are even and
/// positive, and a row coordinate plus one pitch still fits under
/// `COORD_LIMIT`.
pub proof fn lemma_inset_y_props(g: InsetGrid, j: int)
    requires
        g.wf(),
        0 <= j < g.ny,
    ensures
        g.spec_y_num(j) % 2 == 0,
        g.spec_dy_num() % 2 == 0,
        (g.spec_dy_num() / 2) % 2 == 0,
        0 < g.spec_dy_num() / 2 < g.spec_dy_num() <= g.spec_y_num(j),
        g.spec_y_num(j) + g.spec_dy_num() <= COORD_LIMIT,
{
    let h = g.height as int;
    let p = (g.nx + 1) as int;
    let y = g.spec_y_num(j);
    let dy = g.spec_dy_num();
    assert(y == (j + 1) * h * 40 * p && dy == h * 40 * p);
    assert(y == 2 * ((j + 1) * h * 20 * p) && dy == 2 * (h * 20 * p) && dy / 2 == 2 * (h * 10
        * p) && y % 2 == 0 && dy % 2 == 0 && (dy / 2) % 2 == 0) by (nonlinear_arith)
        requires y == (j + 1) * h * 40 * p && dy == h * 40 * p;
    assert(0 < 2 * (h * 10 * p) && dy / 2 < dy && dy <= y) by (nonlinear_arith)
        requires y == (j + 1) * h * 40 * p && dy == h * 40 * p && j >= 0 && 0 < h && 0 < p;
    assert(y + dy <= (1001 * 100000 * 40 * 1001) + (100000 * 40 * 1001)) by (nonlinear_arith)
        requires y == (j + 1) * h * 40 * p && dy == h * 40 * p && 0 < j + 1 <= 1001 && 0 < h
            <= 100000 && 0 < p <= 1001;
}

/// Row coordinates grow linearly with the row index: the gap between
/// rows `a` and `b` is exactly `(b-a)` pitches.
pub proof fn lemma_inset_y_step(g: InsetGrid, a: int, b: int)
    requires
        g.wf(),
        0 <= a <= b,
    ensures
        g.spec_y_num(b) - g.spec_y_num(a) == (b - a) * g.spec_dy_num(),
        g.spec_y_num(b) >= g.spec_y_num(a),
        b - a >= 1 ==> g.spec_y_num(b) - g.spec_y_num(a) >= g.spec_dy_num(),
        b - a >= 2 ==> g.spec_y_num(b) - g.spec_y_num(a) >= 2 * g.spec_dy_num(),
{
    let h = g.height as int;
    let p = (g.nx + 1) as int;
    let dy = g.spec_dy_num();
    assert(dy == h * 40 * p && g.spec_y_num(a) == (a + 1) * h * 40 * p && g.spec_y_num(b) == (b
        + 1) * h * 40 * p);
    assert((b + 1) * h * 40 * p - (a + 1) * h * 40 * p == (b - a) * (h * 40 * p))
        by (nonlinear_arith);
    assert(0 < dy) by (nonlinear_arith)
        requires dy == h * 40 * p && 0 < h && 0 < p;
    assert((b - a) * dy >= 0 && (b - a >= 1 ==> (b - a) * dy >= dy) && (b - a >= 2 ==> (b - a)
        * dy >= 2 * dy)) by (nonlinear_arith)
        requires b - a >= 0 && 0 < dy;
}

/// Every inset column coordinate is at least one pitch and, with
/// one more pitch added, still within the canvas and the coordinate
/// bound.
pub proof fn lemma_inset_x_bound(g: InsetGrid, i: int)
    requires
        g.wf(),
        0 <= i < g.nx,
    ensures
        g.spec_x_num(i) >= g.spec_dx_num(),
        g.spec_x_num(i) + g.spec_dx_num() <= g.width * g.spec_den(),
        g.width * g.spec_den() <= COORD_LIMIT,
{
    let w = g.width as int;
    let q = (g.ny + 1) as int;
    let p = (g.nx + 1) as int;
    assert(g.spec_x_num(i) == (i + 1) * w * 40 * q && g.spec_dx_num() == w * 40 * q);
    assert((i + 1) * w * 40 * q >= w * 40 * q) by (nonlinear_arith)
        requires i >= 0 && w > 0 && q > 0;
    assert((i + 1) * w * 40 * q + w * 40 * q == (i + 2) * (w * 40 * q)) by (nonlinear_arith);
    assert((i + 2) * (w * 40 * q) <= w * (40 * p * q)) by (nonlinear_arith)
        requires i + 2 <= p && w > 0 && q > 0 && p > 0;
    assert(w * (40 * p * q) <= 100000 * (40 * 1001 * 1001)) by (nonlinear_arith)
        requires 0 < w <= 100000 && 0 < p <= 1001 && 0 < q <= 1001;
}

/// A lattice under the centered-cell convention: `dw = width/nw`,
/// `dh = height/nh`, column `i` sampled at `dw/2 + dw*i`, row `j` at
/// `dh/2 + dh*j`.
#[derive(Clone, Copy, Debug, PartialEq, Eq, Structural)]
pub struct CenteredGrid {
    pub width: u32,
    pub height: u32,
    pub nw: u32,
    pub nh: u32,
}

impl CenteredGrid {
    /// Dimensions the grid accepts.
    pub open spec fn wf(self) -> bool {
        &&& 1 <= self.width <= MAX_SIDE
        &&& 1 <= self.height <= MAX_SIDE
        &&& 1 <= self.nw <= MAX_CELLS
        &&& 1 <= self.nh <= MAX_CELLS
    }

    /// The grid's common denominator: `40000*nw*nh`. The factor
    /// 40000 carries the half-pitch division and the corner constant
    /// 5523/10000 exactly.
    pub open spec fn spec_den(self) -> int {
        40000 * self.nw * self.nh
    }

    /// Numerator of column `i`'s sample x-coordinate `dw/2 + dw*i`.
    pub open spec fn spec_x_num(self, i: int) -> int {
        (2 * i + 1) * self.width * 20000 * self.nh
    }

    /// Numerator of row `j`'s sample y-coordinate `dh/2 + dh*j`.
    pub open spec fn spec_y_num(self, j: int) -> int {
        (2 * j + 1) * self.height * 20000 * self.nw
    }

    /// Numerator of the column pitch `dw = width/nw`.
    pub open spec fn spec_dw_num(self) -> int {
        self.width * 40000 * self.nh
    }

    /// Numerator of the row pitch `dh = height/nh`.
    pub open spec fn spec_dh_num(self) -> int {
        self.height * 40000 * self.nw
    }

    pub fn new(width: u32, height: u32, nw: u32, nh: u32) -> (g: CenteredGrid)
        requires
            1 <= width <= MAX_SIDE,
            1 <= height <= MAX_SIDE,
            1 <= nw <= MAX_CELLS,
            1 <= nh <= MAX_CELLS,
        ensures
            g == (CenteredGrid { width, height, nw, nh }),
            g.wf(),
    {
        CenteredGrid { width, height, nw, nh }
    }

    pub fn nw(&self) -> (n: u32)
        ensures
            n == self.nw,
    {
        self.nw
    }

    pub fn nh(&self) -> (n: u32)
        ensures
            n == self.nh,
    {
        self.nh
    }

    /// The denominator under every numerator this grid hands out.
    pub fn den(&self) -> (d: i64)
        requires
            self.wf(),
        ensures
            d == self.spec_den(),
            0 < d <= COORD_LIMIT,
    {
        proof {
            lemma_mul_le(40000 * (self.nw as int), self.nh as int, 40000000, 1000);
            lemma_mul_pos(40000 * (self.nw as int), self.nh as int);
        }
        40000i64 * (self.nw as i64) * (self.nh as i64)
    }

    /// Numerator of column `i`'s sample x-coordinate.
    pub fn x_num(&self, i: u32) -> (n: i64)
        requires
            self.wf(),
            i < self.nw,
        ensures
            n == self.spec_x_num(i as int),
            0 < n <= COORD_LIMIT,
    {
        coord_num((2 * i + 1) as i64, self.width as i64, 20000, self.nh as i64)
    }

    /// Numerator of row `j`'s sample y-coordinate.
    pub fn y_num(&self, j: u32) -> (n: i64)
        requires
            self.wf(),
            j < self.nh,
        ensures
            n == self.spec_y_num(j as int),
            0 < n <= COORD_LIMIT,
    {
        coord_num((2 * j + 1) as i64, self.height as i64, 20000, self.nw as i64)
    }

    /// Numerator of the full canvas width.
    pub fn width_num(&self) -> (n: i64)
        requires
            self.wf(),
        ensures
            n == self.width * self.spec_den(),
            0 < n <= COORD_LIMIT,
    {
        let d = self.den();
        proof {
            lemma_mul_le(40000 * (self.nw as int), self.nh as int, 40000000, 1000);
            lemma_mul_le(self.width as int, d as int, 100000, 40000000000);
            lemma_mul_pos(self.width as int, d as int);
        }
        (self.width as i64) * d
    }

    /// Numerator of the full canvas height.
    pub fn height_num(&self) -> (n: i64)
        requires
            self.wf(),
        ensures
            n == self.height * self.spec_den(),
            0 < n <= COORD_LIMIT,
    {
        let d = self.den();
        proof {
            lemma_mul_le(40000 * (self.nw as int), self.nh as int, 40000000, 1000);
            lemma_mul_le(self.height as int, d as int, 100000, 40000000000);
            lemma_mul_pos(self.height as int, d as int);
        }
        (self.height as i64) * d
    }
}

/// Consecutive centered-grid columns are one pitch apart, a
/// multiple of 40000: the factor that the smoothing forms need.
pub proof fn lemma_centered_x_step(g: CenteredGrid, i: int)
    requires
        g.wf(),
        0 <= i,
    ensures
        g.spec_x_num(i + 1) - g.spec_x_num(i) == 40000 * (g.width * g.nh),
        (g.spec_x_num(i + 1) - g.spec_x_num(i)) % 40000 == 0,
        g.spec_x_num(i + 1) > g.spec_x_num(i),
{
    let w = g.width as int;
    let q = g.nh as int;
    assert(g.spec_x_num(i + 1) == (2 * (i + 1) + 1) * w * 20000 * q && g.spec_x_num(i) == (2 * i
        + 1) * w * 20000 * q);
    assert((2 * (i + 1) + 1) * w * 20000 * q - (2 * i + 1) * w * 20000 * q == 40000 * (w * q))
        by (nonlinear_arith);
    assert(40000 * (w * q) % 40000 == 0 && 40000 * (w * q) > 0) by (nonlinear_arith)
        requires 0 < w && 0 < q;
}

impl CenteredGrid {
    /// Numerators of the overlay's vertical lines: one per column
    /// center.
    pub fn column_nums(&self) -> (v: Vec<i64>)
        requires
            self.wf(),
        ensures
            v@.len() == self.nw,
            forall|k: int| 0 <= k < self.nw ==> v@[k] == self.spec_x_num(k),
    {
        let mut v: Vec<i64> = Vec::new();
        let mut i: u32 = 0;
        while i < self.nw
            invariant
                self.wf(),
                i <= self.nw,
                v@.len() == i,
                forall|k: int| 0 <= k < i ==> v@[k] == self.spec_x_num(k),
            decreases self.nw - i,
        {
            v.push(self.x_num(i));
            i = i + 1;
        }
        v
    }

    /// Numerators of the overlay's horizontal lines: one per row
    /// center.
    pub fn row_nums(&self) -> (v: Vec<i64>)
        requires
            self.wf(),
        ensures
            v@.len() == self.nh,
            forall|k: int| 0 <= k < self.nh ==> v@[k] == self.spec_y_num(k),
    {
        let mut v: Vec<i64> = Vec::new();
        let mut j: u32 = 0;
        while j < self.nh
            invariant
                self.wf(),
                j <= self.nh,
                v@.len() == j,
                forall|k: int| 0 <= k < j ==> v@[k] == self.spec_y_num(k),
            decreases self.nh - j,
        {
            v.push(self.y_num(j));
            j = j + 1;
        }
        v
    }
}

/// The centered spacing invariant: the pitch times the cell count
/// gives back the exact canvas side, and the first sample sits half a
/// pitch from the edge.
pub proof fn lemma_centered_spacing(g: CenteredGrid)
    requires
        g.wf(),
    ensures
        g.spec_dw_num() * g.nw == g.width * g.spec_den(),
        g.spec_dh_num() * g.nh == g.height * g.spec_den(),
        2 * g.spec_x_num(0) == g.spec_dw_num(),
{
    let w = g.width as int;
    let h = g.height as int;
    let p = g.nw as int;
    let q = g.nh as int;
    assert((w * 40000 * q) * p == w * (40000 * p * q)) by (nonlinear_arith);
    assert((h * 40000 * p) * q == h * (40000 * p * q)) by (nonlinear_arith);
    assert(2 * (1 * w * 20000 * q) == w * 40000 * q) by (nonlinear_arith);
}

} // verus!
