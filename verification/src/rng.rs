//! Deterministic pseudo-random context.
//!
//! A permuted congruential generator with 128-bit state and 64-bit
//! output (the XSL-RR variant), seeded from a single 64-bit value.
//! Every draw is a pure function of the state, so the whole generated
//! sequence — and with it the whole sketch — is a pure function of
//! the seed: each method's contract gives the exact value drawn and
//! the exact successor state.

use vstd::prelude::*;

verus! {

/// Multiplier of the 128-bit linear congruential step.
pub const PCG_MUL: u128 = 0x2360_ED05_1FC6_5DA4_4385_DF64_9FCC_F645;

/// Multiplier of the 64-bit seeding generator.
pub const SEED_MUL: u64 = 6364136223846793005;

/// Increment of the 64-bit seeding generator.
pub const SEED_INC: u64 = 11634580027462260723;

/// A seeded, restartable pseudo-random source. One context per
/// render; all generation consumes it in documented call order.
#[derive(Clone, Copy, Debug, PartialEq, Eq, Structural)]
pub struct SketchRng {
    pub state: u128,
    pub increment: u128,
}

/// Rotate a 64-bit value right by `r` bits, `r < 64`.
pub open spec fn spec_rotr64(x: u64, r: u32) -> u64 {
    if r == 0 {
        x
    } else {
        (x >> r) | (x << ((64 - r) as u32))
    }
}

/// Rotate a 32-bit value right by `r` bits, `r < 32`.
pub open spec fn spec_rotr32(x: u32, r: u32) -> u32 {
    if r == 0 {
        x
    } else {
        (x >> r) | (x << ((32 - r) as u32))
    }
}

/// The congruential state transition: `state * PCG_MUL + increment`,
/// wrapping modulo 2^128.
pub open spec fn spec_step(s: SketchRng) -> SketchRng {
    SketchRng {
        state: s.state.wrapping_mul(PCG_MUL).wrapping_add(s.increment),
        increment: s.increment,
    }
}

/// The XSL-RR output function: xor the state's high and low halves,
/// then rotate right by the state's top six bits.
pub open spec fn spec_xsl_rr(state: u128) -> u64 {
    spec_rotr64((((state >> 64) & 0xffff_ffff_ffff_ffff) as u64) ^ ((state
        & 0xffff_ffff_ffff_ffff) as u64), ((state >> 122) & 0xff) as u32)
}

/// The value drawn by one 64-bit step from state `s`.
pub open spec fn spec_next_val(s: SketchRng) -> u64 {
    spec_xsl_rr(spec_step(s).state)
}

/// One step of the 64-bit seeding generator.
pub open spec fn spec_seed_step(s: u64) -> u64 {
    s.wrapping_mul(SEED_MUL).wrapping_add(SEED_INC)
}

/// The 32-bit output of the seeding generator at state `s`.
pub open spec fn spec_seed_out(s: u64) -> u32 {
    spec_rotr32(((((s >> 18) ^ s) >> 27) & 0xffff_ffff) as u32, ((s >> 59) & 0xff) as u32)
}

/// The `k`-th seeding state after `k` steps from `seed`.
pub open spec fn spec_seed_state(seed: u64, k: nat) -> u64
    decreases k,
{
    if k == 0 {
        seed
    } else {
        spec_seed_step(spec_seed_state(seed, (k - 1) as nat))
    }
}

/// The `k`-th 32-bit word of seeding material (`k` from 1 to 8).
pub open spec fn spec_seed_word(seed: u64, k: nat) -> u32 {
    spec_seed_out(spec_seed_state(seed, k))
}

/// The generator that a 64-bit seed denotes: eight words of seeding
/// material form the raw state and stream; the stream's lowest bit is
/// forced odd; the state is offset by the increment and stepped once.
pub open spec fn spec_seeded(seed: u64) -> SketchRng {
    let raw_state = (spec_seed_word(seed, 1) as u128) | ((spec_seed_word(seed, 2) as u128) << 32)
        | ((spec_seed_word(seed, 3) as u128) << 64) | ((spec_seed_word(seed, 4) as u128) << 96);
    let raw_incr = (spec_seed_word(seed, 5) as u128) | ((spec_seed_word(seed, 6) as u128) << 32)
        | ((spec_seed_word(seed, 7) as u128) << 64) | ((spec_seed_word(seed, 8) as u128) << 96);
    let increment = raw_incr | 1;
    spec_step(SketchRng { state: increment.wrapping_add(raw_state), increment })
}

/// Map a 64-bit draw into `[lo, hi)` by widening multiplication:
/// `lo + v * (hi - lo) / 2^64`.
pub open spec fn spec_range_map(v: u64, lo: u64, hi: u64) -> u64 {
    (lo + (v * (hi - lo)) / 0x1_0000_0000_0000_0000) as u64
}

fn rotr64(x: u64, r: u32) -> (y: u64)
    requires
        r < 64,
    ensures
        y == spec_rotr64(x, r),
{
    if r == 0 {
        x
    } else {
        (x >> r) | (x << (64 - r))
    }
}

fn rotr32(x: u32, r: u32) -> (y: u32)
    requires
        r < 32,
    ensures
        y == spec_rotr32(x, r),
{
    if r == 0 {
        x
    } else {
        (x >> r) | (x << (32 - r))
    }
}

/// One 32-bit word of seeding material, advancing the seeding state.
fn seed_word(s: &mut u64) -> (w: u32)
    ensures
        *final(s) == spec_seed_step(*old(s)),
        w == spec_seed_out(spec_seed_step(*old(s))),
{
    *s = s.wrapping_mul(SEED_MUL).wrapping_add(SEED_INC);
    let cur: u64 = *s;
    let xorshifted: u32 = ((((cur >> 18) ^ cur) >> 27) & 0xffff_ffff) as u32;
    let rot: u32 = ((cur >> 59) & 0xff) as u32;
    proof {
        assert((cur >> 59) & 0xff < 32) by (bit_vector);
    }
    rotr32(xorshifted, rot)
}

impl SketchRng {
    /// The deterministic context that a 64-bit seed denotes.
    #[verifier::rlimit(60)]
    pub fn new(seed: u64) -> (rng: SketchRng)
        ensures
            rng == spec_seeded(seed),
    {
        let mut s: u64 = seed;
        let w1 = seed_word(&mut s);
        let w2 = seed_word(&mut s);
        let w3 = seed_word(&mut s);
        let w4 = seed_word(&mut s);
        let w5 = seed_word(&mut s);
        let w6 = seed_word(&mut s);
        let w7 = seed_word(&mut s);
        let w8 = seed_word(&mut s);
        proof {
            assert(spec_seed_state(seed, 1) == spec_seed_step(spec_seed_state(seed, 0)));
            assert(spec_seed_state(seed, 2) == spec_seed_step(spec_seed_state(seed, 1)));
            assert(spec_seed_state(seed, 3) == spec_seed_step(spec_seed_state(seed, 2)));
            assert(spec_seed_state(seed, 4) == spec_seed_step(spec_seed_state(seed, 3)));
            assert(spec_seed_state(seed, 5) == spec_seed_step(spec_seed_state(seed, 4)));
            assert(spec_seed_state(seed, 6) == spec_seed_step(spec_seed_state(seed, 5)));
            assert(spec_seed_state(seed, 7) == spec_seed_step(spec_seed_state(seed, 6)));
            assert(spec_seed_state(seed, 8) == spec_seed_step(spec_seed_state(seed, 7)));
        }
        let raw_state: u128 = (w1 as u128) | ((w2 as u128) << 32) | ((w3 as u128) << 64) | ((
        w4 as u128) << 96);
        let raw_incr: u128 = (w5 as u128) | ((w6 as u128) << 32) | ((w7 as u128) << 64) | ((
        w8 as u128) << 96);
        let increment: u128 = raw_incr | 1;
        let mut rng = SketchRng { state: increment.wrapping_add(raw_state), increment };
        rng.state = rng.state.wrapping_mul(PCG_MUL).wrapping_add(rng.increment);
        rng
    }

    /// Draw 64 bits: step the state and apply the output function.
    pub fn next_u64(&mut self) -> (v: u64)
        ensures
            *final(self) == spec_step(*old(self)),
            v == spec_next_val(*old(self)),
    {
        self.state = self.state.wrapping_mul(PCG_MUL).wrapping_add(self.increment);
        let st: u128 = self.state;
        let hi: u64 = ((st >> 64) & 0xffff_ffff_ffff_ffff) as u64;
        let lo: u64 = (st & 0xffff_ffff_ffff_ffff) as u64;
        let rot: u32 = ((st >> 122) & 0xff) as u32;
        proof {
            assert((st >> 122) & 0xff < 64) by (bit_vector);
        }
        rotr64(hi ^ lo, rot)
    }

    /// Draw a uniform boolean: the top bit of a 32-bit draw.
    pub fn gen_bool(&mut self) -> (b: bool)
        ensures
            *final(self) == spec_step(*old(self)),
            b == (spec_next_val(*old(self)) % 0x1_0000_0000 >= 0x8000_0000),
    {
        let v = self.next_u64();
        let low: u32 = (v % 0x1_0000_0000) as u32;
        low >= 0x8000_0000
    }

    /// Draw a uniform integer in the half-open range `[lo, hi)`.
    pub fn gen_range_u64(&mut self, lo: u64, hi: u64) -> (r: u64)
        requires
            lo < hi,
        ensures
            *final(self) == spec_step(*old(self)),
            r == spec_range_map(spec_next_val(*old(self)), lo, hi),
            lo <= r < hi,
    {
        let v = self.next_u64();
        let range: u64 = hi - lo;
        proof {
            assert(v * range < 0x1_0000_0000_0000_0000_0000_0000_0000_0000) by (nonlinear_arith)
                requires v < 0x1_0000_0000_0000_0000 && range < 0x1_0000_0000_0000_0000;
        }
        let wide: u128 = (v as u128) * (range as u128);
        let off: u128 = wide / 0x1_0000_0000_0000_0000;
        proof {
            assert(wide < 0x1_0000_0000_0000_0000 * range) by (nonlinear_arith)
                requires wide == v * range && v < 0x1_0000_0000_0000_0000 && range > 0;
            assert(wide / 0x1_0000_0000_0000_0000 < range) by (nonlinear_arith)
                requires wide < 0x1_0000_0000_0000_0000 * range && range > 0;
        }
        lo + (off as u64)
    }

    /// Draw a uniform `usize` in the half-open range `[lo, hi)`.
    pub fn gen_range_usize(&mut self, lo: usize, hi: usize) -> (r: usize)
        requires
            lo < hi,
        ensures
            *final(self) == spec_step(*old(self)),
            r == spec_range_map(spec_next_val(*old(self)), lo as u64, hi as u64),
            lo <= r < hi,
    {
        let r = self.gen_range_u64(lo as u64, hi as u64);
        r as usize
    }

    /// Draw a uniform 53-bit numerator: the draw divided by 2^53 is a
    /// uniform sample of the unit interval.
    pub fn gen_unit53(&mut self) -> (r: u64)
        ensures
            *final(self) == spec_step(*old(self)),
            r == spec_next_val(*old(self)) / 0x800,
            r < 0x20_0000_0000_0000,
    {
        let v = self.next_u64();
        v / 0x800
    }

    /// Draw one of two values by a fair coin flip.
    pub fn pick_i64(&mut self, a: i64, b: i64) -> (r: i64)
        ensures
            *final(self) == spec_step(*old(self)),
            r == if spec_next_val(*old(self)) % 0x1_0000_0000 >= 0x8000_0000 {
                a
            } else {
                b
            },
    {
        if self.gen_bool() {
            a
        } else {
            b
        }
    }
}

} // verus!
