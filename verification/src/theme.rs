//! Palette store: a flat binary table of fixed-size records.
//!
//! Each record is five consecutive 32-bit big-endian integers, each
//! one packed `0xRRGGBB` color — 20 bytes per record. The store's
//! record count is its byte length over 20; a byte length that is
//! not a multiple of the record size marks a corrupt store and is
//! rejected at construction. Reading the table is pure; the one-time
//! file read that fills the byte buffer stays with the caller.

use vstd::prelude::*;
use crate::color::Color;
use crate::rng::{SketchRng, spec_next_val, spec_range_map, spec_step};

verus! {

/// Bytes per palette record: five colors of four bytes.
pub const THEME_SIZE: usize = 20;

/// A corrupt palette table: its byte length is not a multiple of
/// the record size.
#[derive(Clone, Copy, Debug, PartialEq, Eq, Structural)]
pub struct PaletteFormatError;

/// The 32-bit big-endian integer at offset `off`.
pub open spec fn spec_read_u32_be(d: Seq<u8>, off: int) -> u32 {
    (d[off] * 0x1000000 + d[off + 1] * 0x10000 + d[off + 2] * 0x100 + d[off + 3]) as u32
}

/// The color stored at byte offset `base`: an opaque color whose
/// red, green and blue channels are the record's low three bytes.
pub open spec fn spec_palette_color(d: Seq<u8>, base: int) -> Color {
    Color { a: 0xff, r: d[base + 1], g: d[base + 2], b: d[base + 3] }
}

/// Unpacking a big-endian composition recovers its bytes.
proof fn lemma_be_unpack(b0: u32, b1: u32, b2: u32, b3: u32)
    requires
        b0 < 256,
        b1 < 256,
        b2 < 256,
        b3 < 256,
    ensures
        (b0 * 0x1000000 + b1 * 0x10000 + b2 * 0x100 + b3) < 0x1_0000_0000,
        ((b0 * 0x1000000 + b1 * 0x10000 + b2 * 0x100 + b3) as u32 >> 24) & 0xff == b0,
        ((b0 * 0x1000000 + b1 * 0x10000 + b2 * 0x100 + b3) as u32 >> 16) & 0xff == b1,
        ((b0 * 0x1000000 + b1 * 0x10000 + b2 * 0x100 + b3) as u32 >> 8) & 0xff == b2,
        (b0 * 0x1000000 + b1 * 0x10000 + b2 * 0x100 + b3) as u32 & 0xff == b3,
{
    let v: u32 = (b0 * 0x1000000 + b1 * 0x10000 + b2 * 0x100 + b3) as u32;
    assert(v == b0 * 0x1000000 + b1 * 0x10000 + b2 * 0x100 + b3 && (v >> 24) & 0xff == b0 && (v
        >> 16) & 0xff == b1 && (v >> 8) & 0xff == b2 && v & 0xff == b3) by (bit_vector)
        requires b0 < 256 && b1 < 256 && b2 < 256 && b3 < 256 && v == ((b0 * 0x1000000 + b1
            * 0x10000 + b2 * 0x100 + b3) as u32);
}

/// Read the 32-bit big-endian integer at offset `off`.
fn read_u32_be(d: &Vec<u8>, off: usize) -> (v: u32)
    requires
        off + 4 <= d@.len(),
    ensures
        v == spec_read_u32_be(d@, off as int),
        (v >> 24) & 0xff == d@[off as int],
        (v >> 16) & 0xff == d@[off as int + 1],
        (v >> 8) & 0xff == d@[off as int + 2],
        v & 0xff == d@[off as int + 3],
{
    let n = d.len();
    let b0 = d[off] as u32;
    let b1 = d[off + 1] as u32;
    let b2 = d[off + 2] as u32;
    let b3 = d[off + 3] as u32;
    proof {
        lemma_be_unpack(b0, b1, b2, b3);
    }
    b0 * 0x1000000 + b1 * 0x10000 + b2 * 0x100 + b3
}

/// An addressable table of palettes over an immutable byte buffer.
#[derive(Clone, Debug)]
pub struct Themes {
    pub data: Vec<u8>,
}

impl Themes {
    /// The store's invariant: whole records only.
    pub open spec fn wf(self) -> bool {
        self.data@.len() % 20 == 0
    }

    /// The number of records.
    pub open spec fn spec_len(self) -> int {
        self.data@.len() as int / 20
    }

    /// Take ownership of a palette table's bytes. A byte length that
    /// is not a whole number of records marks a corrupt store and is
    /// rejected.
    pub fn from_bytes(data: Vec<u8>) -> (r: Result<Themes, PaletteFormatError>)
        ensures
            r is Ok <==> data@.len() % 20 == 0,
            r is Ok ==> r->Ok_0.data@ == data@ && r->Ok_0.wf(),
    {
        if data.len() % THEME_SIZE == 0 {
            Ok(Themes { data })
        } else {
            Err(PaletteFormatError)
        }
    }

    /// The number of records in the store.
    pub fn len(&self) -> (n: usize)
        ensures
            n == self.spec_len(),
    {
        self.data.len() / THEME_SIZE
    }

    /// The palette at record `idx`: five colors, in table order.
    pub fn get(&self, idx: usize) -> (colors: Vec<Color>)
        requires
            self.wf(),
            idx < self.spec_len(),
        ensures
            colors@.len() == 5,
            forall|i: int|
                0 <= i < 5 ==> #[trigger] colors@[i] == spec_palette_color(self.data@, idx * 20
                    + 4 * i),
    {
        let dn = self.data.len();
        proof {
            assert(idx * 20 + 20 <= self.data@.len()) by (nonlinear_arith)
                requires idx < self.data@.len() / 20 && self.data@.len() % 20 == 0 && idx >= 0;
        }
        let off = idx * THEME_SIZE;
        let mut colors: Vec<Color> = Vec::new();
        let mut i: usize = 0;
        while i < 5
            invariant
                self.wf(),
                idx * 20 + 20 <= self.data@.len(),
                dn == self.data@.len(),
                off == idx * 20,
                0 <= i <= 5,
                colors@.len() == i,
                forall|k: int|
                    0 <= k < i ==> #[trigger] colors@[k] == spec_palette_color(self.data@, idx
                        * 20 + 4 * k),
            decreases 5 - i,
        {
            let b = off + i * 4;
            let v = read_u32_be(&self.data, b);
            let c = Color::from_rgb_u32(v);
            colors.push(c);
            i = i + 1;
        }
        colors
    }

    /// Draw a record index uniformly and return it with its palette.
    pub fn pick(&self, rng: &mut SketchRng) -> (r: (usize, Vec<Color>))
        requires
            self.wf(),
            self.spec_len() >= 1,
        ensures
            *final(rng) == spec_step(*old(rng)),
            r.0 == spec_range_map(spec_next_val(*old(rng)), 0, self.spec_len() as u64),
            0 <= r.0 < self.spec_len(),
            r.1@.len() == 5,
            forall|i: int|
                0 <= i < 5 ==> #[trigger] r.1@[i] == spec_palette_color(self.data@, r.0 * 20 + 4
                    * i),
    {
        let n = self.len();
        let ix = rng.gen_range_usize(0, n);
        let colors = self.get(ix);
        (ix, colors)
    }
}

} // verus!
