//! Canvas size: a width-height pair parsed from the command
//! boundary.
//!
//! The accepted forms are a decimal number `N` (a square canvas) and
//! `WxH`. Each side is the form signed base-10 integer parsing
//! accepts: one optional `+` or `-` sign, then digits, the value
//! within the signed 32-bit range. A nonpositive side parses here
//! and is rejected later, by the canvas-bounds test that precedes
//! generation.

use vstd::prelude::*;
use vstd::string::StringSliceAdditionalSpecFns;

verus! {

/// A malformed size string.
#[derive(Clone, Copy, Debug, PartialEq, Eq, Structural)]
pub struct SizeParseError;

/// An ASCII decimal digit.
pub open spec fn is_dec_digit(b: u8) -> bool {
    0x30 <= b <= 0x39
}

/// Every byte is a decimal digit.
pub open spec fn all_dec_digits(s: Seq<u8>) -> bool {
    forall|k: int| 0 <= k < s.len() ==> is_dec_digit(#[trigger] s[k])
}

/// The value of a decimal digit string.
pub open spec fn dec_val(s: Seq<u8>) -> int
    decreases s.len(),
{
    if s.len() == 0 {
        0
    } else {
        dec_val(s.drop_last()) * 10 + (s.last() - 0x30)
    }
}

/// Digit-string values are nonnegative and grow along prefixes.
pub proof fn lemma_dec_val_prefix(s: Seq<u8>, k: int)
    requires
        all_dec_digits(s),
        0 <= k <= s.len(),
    ensures
        0 <= dec_val(s.take(k)) <= dec_val(s.take(s.len() as int)),
        s.take(s.len() as int) == s,
    decreases s.len() - k,
{
    assert(s.take(s.len() as int) =~= s);
    if k == s.len() {
        lemma_dec_val_nonneg(s.take(k));
    } else {
        lemma_dec_val_prefix(s, k + 1);
        let a = s.take(k);
        let b = s.take(k + 1);
        assert(b.drop_last() =~= a);
        assert(is_dec_digit(s[k]));
        lemma_dec_val_nonneg(a);
        assert(dec_val(b) == dec_val(a) * 10 + (s[k] - 0x30));
        assert(dec_val(a) * 10 >= dec_val(a)) by (nonlinear_arith)
            requires dec_val(a) >= 0;
    }
}

/// Digit-string values are nonnegative.
proof fn lemma_dec_val_nonneg(s: Seq<u8>)
    requires
        all_dec_digits(s),
    ensures
        dec_val(s) >= 0,
    decreases s.len(),
{
    if s.len() > 0 {
        assert(all_dec_digits(s.drop_last())) by {
            assert forall|k: int| 0 <= k < s.len() - 1 implies is_dec_digit(
                #[trigger] s.drop_last()[k]) by {
                assert(s.drop_last()[k] == s[k]);
            }
        }
        lemma_dec_val_nonneg(s.drop_last());
        assert(is_dec_digit(s.last()));
        assert(dec_val(s.drop_last()) * 10 >= 0) by (nonlinear_arith)
            requires dec_val(s.drop_last()) >= 0;
    }
}

/// The digit run of a signed decimal string: the bytes after one
/// optional leading sign.
pub open spec fn signed_body(s: Seq<u8>) -> Seq<u8> {
    if s.len() >= 1 && (s[0] == 0x2b || s[0] == 0x2d) {
        s.skip(1)
    } else {
        s
    }
}

/// The string begins with a minus sign.
pub open spec fn has_minus(s: Seq<u8>) -> bool {
    s.len() >= 1 && s[0] == 0x2d
}

/// The string is a signed 32-bit decimal number: one optional sign,
/// then at least one digit, the magnitude within the i32 range on
/// that sign.
pub open spec fn signed_i32_ok(s: Seq<u8>) -> bool {
    let body = signed_body(s);
    body.len() >= 1 && all_dec_digits(body) && (if has_minus(s) {
        dec_val(body) <= 0x8000_0000
    } else {
        dec_val(body) <= 0x7fff_ffff
    })
}

/// Its value.
pub open spec fn signed_i32_val(s: Seq<u8>) -> int {
    if has_minus(s) {
        -dec_val(signed_body(s))
    } else {
        dec_val(signed_body(s))
    }
}

/// Parse `bytes[lo..hi]` as a signed 32-bit decimal number: the
/// forms base-10 integer parsing accepts, one optional `+` or `-`
/// and then digits, the value within the i32 range.
fn parse_i32(bytes: &[u8], lo: usize, hi: usize) -> (r: Option<i32>)
    requires
        lo <= hi <= bytes@.len(),
    ensures
        ({
            let part = bytes@.subrange(lo as int, hi as int);
            &&& r is Some <==> signed_i32_ok(part)
            &&& r is Some ==> r->0 == signed_i32_val(part)
        }),
{
    let ghost part = bytes@.subrange(lo as int, hi as int);
    if lo == hi {
        return None;
    }
    let neg = bytes[lo] == 0x2d;
    let start: usize = if neg || bytes[lo] == 0x2b {
        lo + 1
    } else {
        lo
    };
    let ghost body = signed_body(part);
    proof {
        assert(part[0] == bytes@[lo as int]);
        if start == lo + 1 {
            assert(body =~= part.skip(1));
        } else {
            assert(body =~= part);
        }
        assert(body.len() == hi - start);
        assert(forall|k: int| 0 <= k < body.len() ==> body[k] == bytes@[k + start]);
    }
    if start == hi {
        return None;
    }
    let mut acc: u64 = 0;
    let mut i: usize = start;
    proof {
        assert(body.take(0) =~= Seq::<u8>::empty());
    }
    while i < hi
        invariant
            lo <= start <= i <= hi <= bytes@.len(),
            start <= lo + 1,
            part == bytes@.subrange(lo as int, hi as int),
            body == signed_body(part),
            body.len() == hi - start,
            forall|k: int| 0 <= k < body.len() ==> body[k] == bytes@[k + start],
            all_dec_digits(body.take(i - start)),
            acc == dec_val(body.take(i - start)),
            acc <= 0x8000_0000,
        decreases hi - i,
    {
        let b = bytes[i];
        if b < 0x30 || b > 0x39 {
            proof {
                assert(body[i - start] == bytes@[i as int]);
                assert(!all_dec_digits(body));
            }
            return None;
        }
        let next: u64 = acc * 10 + ((b - 0x30) as u64);
        proof {
            assert(body.take(i - start + 1).drop_last() =~= body.take(i - start));
            assert(body.take(i - start + 1).last() == body[i - start] == b);
            assert(all_dec_digits(body.take(i - start + 1))) by {
                assert forall|k: int| 0 <= k < i - start + 1 implies is_dec_digit(
                    #[trigger] body.take(i - start + 1)[k]) by {
                    if k < i - start {
                        assert(body.take(i - start + 1)[k] == body.take(i - start)[k]);
                    } else {
                        assert(body.take(i - start + 1)[k] == b);
                    }
                }
            }
        }
        if next > 0x8000_0000 {
            proof {
                if all_dec_digits(body) {
                    lemma_dec_val_prefix(body, i - start + 1);
                    assert(dec_val(body) >= dec_val(body.take(i - start + 1)));
                }
            }
            return None;
        }
        acc = next;
        i = i + 1;
    }
    proof {
        assert(body.take(hi - start) =~= body);
    }
    if neg {
        let v: i64 = -(acc as i64);
        Some(v as i32)
    } else if acc <= 0x7fff_ffff {
        Some(acc as i32)
    } else {
        None
    }
}

/// A canvas size in whole units.
#[derive(Clone, Copy, Debug, PartialEq, Eq, Structural)]
pub struct Size {
    pub width: i32,
    pub height: i32,
}

/// Position of the first `x` byte, or -1.
pub open spec fn first_x(s: Seq<u8>, k: int) -> int
    decreases s.len() - k,
{
    if k < 0 || k >= s.len() {
        -1
    } else if s[k] == 0x78 {
        k
    } else {
        first_x(s, k + 1)
    }
}

impl Size {
    pub fn new(width: i32, height: i32) -> (s: Size)
        ensures
            s == (Size { width, height }),
    {
        Size { width, height }
    }

    pub fn width(&self) -> (w: i32)
        ensures
            w == self.width,
    {
        self.width
    }

    pub fn height(&self) -> (h: i32)
        ensures
            h == self.height,
    {
        self.height
    }

    /// Parse a size argument: `N` gives a square canvas, `WxH` a
    /// rectangular one. Each side is a signed 32-bit decimal number:
    /// one optional `+` or `-` sign, then digits, the value within
    /// the i32 range — exactly the forms base-10 integer parsing
    /// accepts. Anything else is rejected. A nonpositive side is a
    /// parseable size; the canvas-bounds test ahead of generation
    /// rejects it.
    pub fn from_arg(s: &str) -> (r: Result<Size, SizeParseError>)
        ensures
            ({
                let b = s.spec_bytes();
                let fx = first_x(b, 0);
                &&& (fx == -1 ==> ((r is Ok <==> signed_i32_ok(b)) && (r is Ok ==> r->Ok_0
                    == (Size {
                    width: signed_i32_val(b) as i32,
                    height: signed_i32_val(b) as i32,
                }))))
                &&& (fx >= 0 ==> ((r is Ok <==> signed_i32_ok(b.subrange(0, fx))
                    && signed_i32_ok(b.subrange(fx + 1, b.len() as int))) && (r is Ok ==> r->Ok_0
                    == (Size {
                    width: signed_i32_val(b.subrange(0, fx)) as i32,
                    height: signed_i32_val(b.subrange(fx + 1, b.len() as int)) as i32,
                }))))
            }),
    {
        let bytes = s.as_bytes();
        let n = bytes.len();
        let mut i: usize = 0;
        while i < n && bytes[i] != 0x78
            invariant
                n == bytes@.len(),
                0 <= i <= n,
                first_x(bytes@, 0) == first_x(bytes@, i as int),
                forall|k: int| 0 <= k < i ==> bytes@[k] != 0x78,
            decreases n - i,
        {
            i = i + 1;
        }
        if i == n {
            proof {
                assert(first_x(bytes@, n as int) == -1);
            }
            match parse_i32(bytes, 0, n) {
                Some(v) => {
                    proof {
                        assert(bytes@.subrange(0, n as int) =~= bytes@);
                    }
                    Ok(Size { width: v, height: v })
                },
                None => {
                    proof {
                        assert(bytes@.subrange(0, n as int) =~= bytes@);
                    }
                    Err(SizeParseError)
                },
            }
        } else {
            proof {
                assert(bytes@[i as int] == 0x78);
                assert(first_x(bytes@, i as int) == i);
            }
            let w = parse_i32(bytes, 0, i);
            let h = parse_i32(bytes, i + 1, n);
            match (w, h) {
                (Some(wv), Some(hv)) => Ok(Size { width: wv, height: hv }),
                _ => Err(SizeParseError),
            }
        }
    }
}

} // verus!
