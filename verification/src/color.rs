//! Color algebra: RGBA samples with 8-bit channels, packed-integer
//! encoding, relative luminance, and brighten/darken scaling.
//!
//! Luminance is kept exact as an integer numerator over the fixed
//! denominator [`LUM_DEN`]: the ITU-R BT.709 weights 0.2126, 0.7152
//! and 0.0722 become 2126, 7152 and 722 over 10000, and each channel
//! is normalized by 256, so `luminance` returns
//! `2126*r + 7152*g + 722*b` and the mathematical luminance is that
//! value divided by `LUM_DEN = 10000 * 256`.

use vstd::prelude::*;

verus! {

/// Denominator of the exact luminance numerator: 10000 * 256.
pub const LUM_DEN: u32 = 2560000;

/// Luminance numerator of the classification threshold 1/2.
pub const LUM_HALF: u32 = 1280000;

/// An RGBA color sample with 8-bit channels.
#[derive(Clone, Copy, Debug, PartialEq, Eq, Structural)]
pub struct Color {
    pub a: u8,
    pub r: u8,
    pub g: u8,
    pub b: u8,
}

/// Exact luminance numerator over `LUM_DEN`.
pub open spec fn spec_luminance(c: Color) -> int {
    2126 * c.r + 7152 * c.g + 722 * c.b
}

/// 7 to the `k`-th power.
pub open spec fn pow7(k: nat) -> int
    decreases k,
{
    if k == 0 {
        1
    } else {
        7 * pow7((k - 1) as nat)
    }
}

/// 10 to the `k`-th power.
pub open spec fn pow10(k: nat) -> int
    decreases k,
{
    if k == 0 {
        1
    } else {
        10 * pow10((k - 1) as nat)
    }
}

/// A darkened channel: one truncating scale by the factor 0.7^k,
/// that is `c * 7^k / 10^k`.
pub open spec fn spec_darken(c: int, k: nat) -> int {
    c * pow7(k) / pow10(k)
}

/// A brightened channel: one truncating scale by the factor
/// (10/7)^k, clamped to the 8-bit gamut.
pub open spec fn spec_brighten(c: int, k: nat) -> int {
    if c * pow10(k) / pow7(k) > 255 {
        255
    } else {
        c * pow10(k) / pow7(k)
    }
}

/// A channel scaled once by `num/den`, truncating, clamped to the
/// 8-bit gamut.
pub open spec fn spec_scale_channel(c: int, num: int, den: int) -> int {
    if c * num / den > 255 {
        255
    } else {
        c * num / den
    }
}

/// Both powers are positive and 7^k never exceeds 10^k.
proof fn lemma_pow_pos(k: nat)
    ensures
        1 <= pow7(k) <= pow10(k),
    decreases k,
{
    if k > 0 {
        lemma_pow_pos((k - 1) as nat);
        assert(7 * pow7((k - 1) as nat) >= 7 && 10 * pow10((k - 1) as nat) >= 10 && 7 * pow7((k
            - 1) as nat) <= 10 * pow10((k - 1) as nat)) by (nonlinear_arith)
            requires 1 <= pow7((k - 1) as nat) <= pow10((k - 1) as nat);
    }
}

/// The exact powers at exponent 15, the largest the executable
/// scaling computes directly.
proof fn lemma_pow_at_15()
    ensures
        pow7(15) == 4747561509943,
        pow10(15) == 1000000000000000,
{
    reveal_with_fuel(pow7, 17);
    reveal_with_fuel(pow10, 17);
}

/// Powers grow with the exponent.
proof fn lemma_pow_mono(a: nat, b: nat)
    requires
        a <= b,
    ensures
        pow7(a) <= pow7(b),
        pow10(a) <= pow10(b),
    decreases b,
{
    if a < b {
        lemma_pow_mono(a, (b - 1) as nat);
        lemma_pow_pos((b - 1) as nat);
        assert(pow7((b - 1) as nat) <= 7 * pow7((b - 1) as nat) && pow10((b - 1) as nat) <= 10
            * pow10((b - 1) as nat)) by (nonlinear_arith)
            requires 1 <= pow7((b - 1) as nat) && 1 <= pow10((b - 1) as nat);
    }
}

/// From exponent 16 on, 10^k outruns 7^k by more than the full
/// 8-bit gamut: darkening truncates every channel to zero and
/// brightening saturates every nonzero channel.
proof fn lemma_pow_ratio_16(k: nat)
    requires
        k >= 16,
    ensures
        256 * pow7(k) <= pow10(k),
    decreases k,
{
    if k == 16 {
        lemma_pow_at_15();
        assert(pow7(16) == 7 * pow7(15));
        assert(pow10(16) == 10 * pow10(15));
    } else {
        lemma_pow_ratio_16((k - 1) as nat);
        lemma_pow_pos((k - 1) as nat);
        assert(256 * (7 * pow7((k - 1) as nat)) <= 10 * pow10((k - 1) as nat))
            by (nonlinear_arith)
            requires 256 * pow7((k - 1) as nat) <= pow10((k - 1) as nat) && 1 <= pow7((k
                - 1) as nat);
    }
}

impl Color {
    /// An opaque color from its three channels.
    pub fn from_rgb(r: u8, g: u8, b: u8) -> (c: Color)
        ensures
            c == (Color { a: 0xff, r, g, b }),
    {
        Color { a: 0xff, r, g, b }
    }

    /// A color from its three channels and an alpha byte.
    pub fn from_rgba(r: u8, g: u8, b: u8, a: u8) -> (c: Color)
        ensures
            c == (Color { a, r, g, b }),
    {
        Color { a, r, g, b }
    }

    /// Decode a packed `0xAARRGGBB` integer.
    pub fn from_rgba_u32(v: u32) -> (c: Color)
        ensures
            c.a == (v >> 24) & 0xff,
            c.r == (v >> 16) & 0xff,
            c.g == (v >> 8) & 0xff,
            c.b == v & 0xff,
    {
        proof {
            assert((v >> 24) & 0xff < 256 && (v >> 16) & 0xff < 256 && (v >> 8) & 0xff < 256
                && v & 0xff < 256) by (bit_vector);
        }
        Color {
            a: ((v >> 24) & 0xff) as u8,
            r: ((v >> 16) & 0xff) as u8,
            g: ((v >> 8) & 0xff) as u8,
            b: (v & 0xff) as u8,
        }
    }

    /// Decode a packed `0xRRGGBB` integer into an opaque color.
    pub fn from_rgb_u32(v: u32) -> (c: Color)
        ensures
            c.a == 0xff,
            c.r == (v >> 16) & 0xff,
            c.g == (v >> 8) & 0xff,
            c.b == v & 0xff,
    {
        proof {
            assert((v >> 16) & 0xff < 256 && (v >> 8) & 0xff < 256 && v & 0xff < 256)
                by (bit_vector);
        }
        Color {
            a: 0xff,
            r: ((v >> 16) & 0xff) as u8,
            g: ((v >> 8) & 0xff) as u8,
            b: (v & 0xff) as u8,
        }
    }

    /// Encode the three channels as a packed `0xRRGGBB` integer.
    pub fn to_rgb_u32(&self) -> (v: u32)
        ensures
            v == spec_pack_rgb(self.r, self.g, self.b),
    {
        ((self.r as u32) << 16) | ((self.g as u32) << 8) | (self.b as u32)
    }

    /// Encode all four channels as a packed `0xAARRGGBB` integer.
    pub fn to_rgba_u32(&self) -> (v: u32)
        ensures
            v == spec_pack_rgba(self.a, self.r, self.g, self.b),
    {
        ((self.a as u32) << 24) | ((self.r as u32) << 16) | ((self.g as u32) << 8)
            | (self.b as u32)
    }

    /// A copy with the alpha byte replaced.
    pub fn with_alpha(&self, a: u8) -> (c: Color)
        ensures
            c == (Color { a, r: self.r, g: self.g, b: self.b }),
    {
        Color { a, r: self.r, g: self.g, b: self.b }
    }

    pub fn r(&self) -> (v: u8)
        ensures
            v == self.r,
    {
        self.r
    }

    pub fn g(&self) -> (v: u8)
        ensures
            v == self.g,
    {
        self.g
    }

    pub fn b(&self) -> (v: u8)
        ensures
            v == self.b,
    {
        self.b
    }

    pub fn alpha(&self) -> (v: u8)
        ensures
            v == self.a,
    {
        self.a
    }

    /// Exact relative luminance, as a numerator over `LUM_DEN`.
    pub fn luminance(&self) -> (l: u32)
        ensures
            l == spec_luminance(*self),
            l <= 2550000,
    {
        2126 * (self.r as u32) + 7152 * (self.g as u32) + 722 * (self.b as u32)
    }

    /// Whether the color classifies as light: luminance above 1/2.
    pub fn is_light(&self) -> (b: bool)
        ensures
            b == (spec_luminance(*self) > LUM_HALF),
    {
        self.luminance() > LUM_HALF
    }

    /// Darken all three channels by the factor 0.7^k, truncating
    /// once at the end.
    pub fn darker(&self, k: u32) -> (c: Color)
        ensures
            c.a == self.a,
            c.r == spec_darken(self.r as int, k as nat),
            c.g == spec_darken(self.g as int, k as nat),
            c.b == spec_darken(self.b as int, k as nat),
    {
        if k >= 16 {
            proof {
                lemma_pow_ratio_16(k as nat);
                lemma_pow_pos(k as nat);
                lemma_darken_vanishes(self.r as int, k as nat);
                lemma_darken_vanishes(self.g as int, k as nat);
                lemma_darken_vanishes(self.b as int, k as nat);
            }
            Color { a: self.a, r: 0, g: 0, b: 0 }
        } else {
            let p7 = pow7_u64(k);
            let p10 = pow10_u64(k);
            proof {
                lemma_pow_pos(k as nat);
            }
            Color {
                a: self.a,
                r: scale_down(self.r, p7, p10),
                g: scale_down(self.g, p7, p10),
                b: scale_down(self.b, p7, p10),
            }
        }
    }

    /// Brighten all three channels by the factor (10/7)^k,
    /// truncating once at the end and clamping each channel at 255.
    pub fn brighter(&self, k: u32) -> (c: Color)
        ensures
            c.a == self.a,
            c.r == spec_brighten(self.r as int, k as nat),
            c.g == spec_brighten(self.g as int, k as nat),
            c.b == spec_brighten(self.b as int, k as nat),
    {
        if k >= 16 {
            proof {
                lemma_pow_ratio_16(k as nat);
                lemma_pow_pos(k as nat);
                lemma_brighten_saturates(self.r as int, k as nat);
                lemma_brighten_saturates(self.g as int, k as nat);
                lemma_brighten_saturates(self.b as int, k as nat);
            }
            Color {
                a: self.a,
                r: if self.r == 0 {
                    0
                } else {
                    255
                },
                g: if self.g == 0 {
                    0
                } else {
                    255
                },
                b: if self.b == 0 {
                    0
                } else {
                    255
                },
            }
        } else {
            let p7 = pow7_u64(k);
            let p10 = pow10_u64(k);
            proof {
                lemma_pow_pos(k as nat);
            }
            Color {
                a: self.a,
                r: scale_up(self.r, p10, p7),
                g: scale_up(self.g, p10, p7),
                b: scale_up(self.b, p10, p7),
            }
        }
    }

    /// Scale all three channels once by `num/den`, truncating and
    /// clamping each channel at 255.
    pub fn scaled(&self, num: u32, den: u32) -> (c: Color)
        requires
            1 <= den,
            num <= 1000000,
            den <= 1000000,
        ensures
            c.a == self.a,
            c.r == spec_scale_channel(self.r as int, num as int, den as int),
            c.g == spec_scale_channel(self.g as int, num as int, den as int),
            c.b == spec_scale_channel(self.b as int, num as int, den as int),
    {
        Color {
            a: self.a,
            r: scale_clamped(self.r, num, den),
            g: scale_clamped(self.g, num, den),
            b: scale_clamped(self.b, num, den),
        }
    }

    /// Opaque white.
    pub fn white() -> (c: Color)
        ensures
            c == (Color { a: 0xff, r: 0xff, g: 0xff, b: 0xff }),
    {
        Color { a: 0xff, r: 0xff, g: 0xff, b: 0xff }
    }

    /// Opaque black.
    pub fn black() -> (c: Color)
        ensures
            c == (Color { a: 0xff, r: 0, g: 0, b: 0 }),
    {
        Color { a: 0xff, r: 0, g: 0, b: 0 }
    }
}

/// Past exponent 15, the darkening quotient of an 8-bit channel is
/// zero.
proof fn lemma_darken_vanishes(c: int, k: nat)
    requires
        0 <= c <= 255,
        k >= 16,
        256 * pow7(k) <= pow10(k),
        1 <= pow7(k) <= pow10(k),
    ensures
        spec_darken(c, k) == 0,
{
    assert(c * pow7(k) <= 255 * pow7(k)) by (nonlinear_arith)
        requires 0 <= c <= 255 && pow7(k) >= 1;
    assert(255 * pow7(k) < 256 * pow7(k)) by (nonlinear_arith)
        requires pow7(k) >= 1;
    assert(c * pow7(k) >= 0) by (nonlinear_arith)
        requires c >= 0 && pow7(k) >= 1;
    assert(c * pow7(k) / pow10(k) == 0) by (nonlinear_arith)
        requires 0 <= c * pow7(k) < pow10(k);
}

/// Past exponent 15, the brightening quotient of a nonzero 8-bit
/// channel exceeds the gamut; a zero channel stays zero.
proof fn lemma_brighten_saturates(c: int, k: nat)
    requires
        0 <= c <= 255,
        k >= 16,
        256 * pow7(k) <= pow10(k),
        1 <= pow7(k) <= pow10(k),
    ensures
        c == 0 ==> spec_brighten(c, k) == 0,
        c >= 1 ==> spec_brighten(c, k) == 255,
{
    if c == 0 {
        assert(0 * pow10(k) == 0) by (nonlinear_arith);
        assert(0int / pow7(k) == 0) by (nonlinear_arith)
            requires pow7(k) >= 1;
    } else {
        assert(c * pow10(k) >= pow10(k)) by (nonlinear_arith)
            requires c >= 1 && pow10(k) >= 1;
        assert(c * pow10(k) / pow7(k) >= 256) by (nonlinear_arith)
            requires c * pow10(k) >= 256 * pow7(k) && pow7(k) >= 1;
    }
}

/// 7^k as a machine word, for the exponents computed directly.
fn pow7_u64(k: u32) -> (p: u64)
    requires
        k <= 15,
    ensures
        p == pow7(k as nat),
        1 <= p <= 4747561509943,
{
    proof {
        lemma_pow_at_15();
    }
    let mut p: u64 = 1;
    let mut i: u32 = 0;
    while i < k
        invariant
            i <= k <= 15,
            p == pow7(i as nat),
            pow7(15) == 4747561509943,
        decreases k - i,
    {
        proof {
            lemma_pow_mono((i + 1) as nat, 15);
            lemma_pow_pos(i as nat);
            assert(7 * pow7(i as nat) == pow7((i + 1) as nat));
        }
        p = p * 7;
        i = i + 1;
    }
    proof {
        lemma_pow_mono(k as nat, 15);
        lemma_pow_pos(k as nat);
    }
    p
}

/// 10^k as a machine word, for the exponents computed directly.
fn pow10_u64(k: u32) -> (p: u64)
    requires
        k <= 15,
    ensures
        p == pow10(k as nat),
        1 <= p <= 1000000000000000,
{
    proof {
        lemma_pow_at_15();
    }
    let mut p: u64 = 1;
    let mut i: u32 = 0;
    while i < k
        invariant
            i <= k <= 15,
            p == pow10(i as nat),
            pow10(15) == 1000000000000000,
        decreases k - i,
    {
        proof {
            lemma_pow_mono((i + 1) as nat, 15);
            lemma_pow_pos(i as nat);
            assert(10 * pow10(i as nat) == pow10((i + 1) as nat));
        }
        p = p * 10;
        i = i + 1;
    }
    proof {
        lemma_pow_mono(k as nat, 15);
        lemma_pow_pos(k as nat);
    }
    p
}

/// One channel scaled down by `p7/p10`, truncating. The quotient
/// never leaves the gamut because `p7 <= p10`.
fn scale_down(ch: u8, p7: u64, p10: u64) -> (d: u8)
    requires
        1 <= p7 <= p10,
        p10 <= 1000000000000000,
    ensures
        d == (ch as int) * (p7 as int) / (p10 as int),
{
    proof {
        assert(0 <= (ch as int) * (p7 as int) <= 255 * (p10 as int)) by (nonlinear_arith)
            requires 0 <= ch <= 255 && 1 <= p7 <= p10;
        assert((ch as int) * (p7 as int) / (p10 as int) <= ch) by (nonlinear_arith)
            requires 0 <= ch && 1 <= p7 <= p10;
    }
    ((ch as u64) * p7 / p10) as u8
}

/// One channel scaled up by `p10/p7`, truncating and clamping.
fn scale_up(ch: u8, p10: u64, p7: u64) -> (d: u8)
    requires
        1 <= p7 <= p10,
        p10 <= 1000000000000000,
    ensures
        d == if (ch as int) * (p10 as int) / (p7 as int) > 255 {
            255
        } else {
            (ch as int) * (p10 as int) / (p7 as int)
        },
{
    proof {
        assert(0 <= (ch as int) * (p10 as int) <= 255 * 1000000000000000) by (nonlinear_arith)
            requires 0 <= ch <= 255 && 1 <= p10 <= 1000000000000000;
        assert((ch as int) * (p10 as int) / (p7 as int) >= 0) by (nonlinear_arith)
            requires 0 <= (ch as int) * (p10 as int) && 1 <= p7;
    }
    let wide: u64 = (ch as u64) * p10 / p7;
    if wide > 255 {
        255
    } else {
        wide as u8
    }
}

/// One channel scaled once by `num/den`, truncating and clamping.
fn scale_clamped(ch: u8, num: u32, den: u32) -> (d: u8)
    requires
        1 <= den,
        num <= 1000000,
    ensures
        d == spec_scale_channel(ch as int, num as int, den as int),
{
    proof {
        assert(0 <= (ch as int) * (num as int) <= 255 * 1000000) by (nonlinear_arith)
            requires 0 <= ch <= 255 && 0 <= num <= 1000000;
        assert((ch as int) * (num as int) / (den as int) >= 0) by (nonlinear_arith)
            requires 0 <= (ch as int) * (num as int) && 1 <= den;
    }
    let wide: u64 = (ch as u64) * (num as u64) / (den as u64);
    if wide > 255 {
        255
    } else {
        wide as u8
    }
}

/// Luminance is within the unit interval: for every 8-bit color the
/// numerator lies in `[0, LUM_DEN]`; black has luminance 0 and white
/// has numerator 2550000, that is 255/256 of full scale.
pub proof fn lemma_luminance_range(c: Color)
    ensures
        0 <= spec_luminance(c) <= LUM_DEN,
        spec_luminance(Color { a: 0xff, r: 0, g: 0, b: 0 }) == 0,
        spec_luminance(Color { a: 0xff, r: 0xff, g: 0xff, b: 0xff }) == 2550000,
{
}


/// Pack three channels as `0xRRGGBB`.
pub open spec fn spec_pack_rgb(r: u8, g: u8, b: u8) -> u32 {
    ((r as u32) << 16) | ((g as u32) << 8) | (b as u32)
}

/// Pack four channels as `0xAARRGGBB`.
pub open spec fn spec_pack_rgba(a: u8, r: u8, g: u8, b: u8) -> u32 {
    ((a as u32) << 24) | ((r as u32) << 16) | ((g as u32) << 8) | (b as u32)
}

/// Packing a color as `0xRRGGBB` and decoding the packed integer
/// recovers the three channels exactly.
pub proof fn lemma_rgb_round_trip(r: u8, g: u8, b: u8)
    ensures
        (spec_pack_rgb(r, g, b) >> 16) & 0xff == r,
        (spec_pack_rgb(r, g, b) >> 8) & 0xff == g,
        spec_pack_rgb(r, g, b) & 0xff == b,
{
    let rw = r as u32;
    let gw = g as u32;
    let bw = b as u32;
    let v = spec_pack_rgb(r, g, b);
    assert(v == (rw << 16) | (gw << 8) | bw);
    assert((v >> 16) & 0xff == rw && (v >> 8) & 0xff == gw && v & 0xff == bw) by (bit_vector)
        requires rw < 256 && gw < 256 && bw < 256 && v == (rw << 16) | (gw << 8) | bw;
}

/// Packing a color as `0xAARRGGBB` and decoding it recovers all four
/// channels exactly, the alpha byte included.
pub proof fn lemma_rgba_round_trip(a: u8, r: u8, g: u8, b: u8)
    ensures
        (spec_pack_rgba(a, r, g, b) >> 24) & 0xff == a,
        (spec_pack_rgba(a, r, g, b) >> 16) & 0xff == r,
        (spec_pack_rgba(a, r, g, b) >> 8) & 0xff == g,
        spec_pack_rgba(a, r, g, b) & 0xff == b,
{
    let aw = a as u32;
    let rw = r as u32;
    let gw = g as u32;
    let bw = b as u32;
    let v = spec_pack_rgba(a, r, g, b);
    assert(v == (aw << 24) | (rw << 16) | (gw << 8) | bw);
    assert((v >> 24) & 0xff == aw && (v >> 16) & 0xff == rw && (v >> 8) & 0xff == gw
        && v & 0xff == bw) by (bit_vector)
        requires
            aw < 256 && rw < 256 && gw < 256 && bw < 256
                && v == (aw << 24) | (rw << 16) | (gw << 8) | bw;
}

} // verus!
