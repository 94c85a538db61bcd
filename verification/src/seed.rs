//! Seeds: the 64-bit value that determines a whole sketch, parsed
//! from and printed as lowercase hexadecimal.

use vstd::prelude::*;
use vstd::string::StringSliceAdditionalSpecFns;

verus! {

/// A malformed seed string.
#[derive(Clone, Copy, Debug, PartialEq, Eq, Structural)]
pub struct SeedParseError;

/// An ASCII hexadecimal digit, either case.
pub open spec fn is_hex_digit(b: u8) -> bool {
    (0x30 <= b <= 0x39) || (0x61 <= b <= 0x66) || (0x41 <= b <= 0x46)
}

/// The value of one hexadecimal digit.
pub open spec fn hex_digit_val(b: u8) -> int {
    if 0x30 <= b <= 0x39 {
        b - 0x30
    } else if 0x61 <= b <= 0x66 {
        b - 0x61 + 10
    } else {
        b - 0x41 + 10
    }
}

/// Every byte is a hexadecimal digit.
pub open spec fn all_hex_digits(s: Seq<u8>) -> bool {
    forall|k: int| 0 <= k < s.len() ==> is_hex_digit(#[trigger] s[k])
}

/// The value of a hexadecimal digit string.
pub open spec fn hex_val(s: Seq<u8>) -> int
    decreases s.len(),
{
    if s.len() == 0 {
        0
    } else {
        hex_val(s.drop_last()) * 16 + hex_digit_val(s.last())
    }
}

/// Hex-string values are nonnegative.
proof fn lemma_hex_val_nonneg(s: Seq<u8>)
    requires
        all_hex_digits(s),
    ensures
        hex_val(s) >= 0,
    decreases s.len(),
{
    if s.len() > 0 {
        assert(all_hex_digits(s.drop_last())) by {
            assert forall|k: int| 0 <= k < s.len() - 1 implies is_hex_digit(
                #[trigger] s.drop_last()[k]) by {
                assert(s.drop_last()[k] == s[k]);
            }
        }
        lemma_hex_val_nonneg(s.drop_last());
        assert(is_hex_digit(s.last()));
        assert(hex_val(s.drop_last()) * 16 >= 0) by (nonlinear_arith)
            requires hex_val(s.drop_last()) >= 0;
    }
}

/// Hex-string values grow along prefixes.
proof fn lemma_hex_val_prefix(s: Seq<u8>, k: int)
    requires
        all_hex_digits(s),
        0 <= k <= s.len(),
    ensures
        0 <= hex_val(s.take(k)) <= hex_val(s.take(s.len() as int)),
        s.take(s.len() as int) == s,
    decreases s.len() - k,
{
    assert(s.take(s.len() as int) =~= s);
    if k == s.len() {
        lemma_hex_val_nonneg(s.take(k));
    } else {
        lemma_hex_val_prefix(s, k + 1);
        let a = s.take(k);
        let b = s.take(k + 1);
        assert(b.drop_last() =~= a);
        assert(is_hex_digit(s[k]));
        assert(all_hex_digits(a)) by {
            assert forall|j: int| 0 <= j < k implies is_hex_digit(#[trigger] a[j]) by {
                assert(a[j] == s[j]);
            }
        }
        lemma_hex_val_nonneg(a);
        assert(hex_val(b) == hex_val(a) * 16 + hex_digit_val(s[k]));
        assert(hex_val(a) * 16 >= hex_val(a)) by (nonlinear_arith)
            requires hex_val(a) >= 0;
    }
}

/// The lowercase hex digits of `v`, most significant first, without
/// leading zeros; empty for zero.
pub open spec fn spec_hex_digits(v: int) -> Seq<u8>
    decreases v,
{
    if v <= 0 {
        Seq::empty()
    } else {
        spec_hex_digits(v / 16).push(spec_hex_byte(v % 16))
    }
}

/// The lowercase digit byte of a value below 16.
pub open spec fn spec_hex_byte(d: int) -> u8 {
    if d < 10 {
        (0x30 + d) as u8
    } else {
        (0x61 + (d - 10)) as u8
    }
}

/// A deterministic 64-bit generator seed.
#[derive(Clone, Copy, Debug, PartialEq, Eq, Structural)]
pub struct Seed {
    pub v: u64,
}

impl Seed {
    pub fn new(v: u64) -> (s: Seed)
        ensures
            s == (Seed { v }),
    {
        Seed { v }
    }

    pub fn value(&self) -> (v: u64)
        ensures
            v == self.v,
    {
        self.v
    }

    /// The digit run of a seed string: the bytes after an optional
    /// leading plus sign.
    pub open spec fn spec_seed_body(b: Seq<u8>) -> Seq<u8> {
        if b.len() >= 1 && b[0] == 0x2b {
            b.skip(1)
        } else {
            b
        }
    }

    /// Parse a seed argument: a hexadecimal number, either case,
    /// optionally preceded by a plus sign, whose value fits 64
    /// bits — the forms that integer parsing in base 16 accepts.
    /// Anything else is rejected.
    pub fn from_arg(s: &str) -> (r: Result<Seed, SeedParseError>)
        ensures
            ({
                let body = Seed::spec_seed_body(s.spec_bytes());
                &&& (r is Ok <==> body.len() >= 1 && all_hex_digits(body) && hex_val(body)
                    <= 0xffff_ffff_ffff_ffff)
                &&& (r is Ok ==> r->Ok_0.v == hex_val(body))
            }),
    {
        let bytes = s.as_bytes();
        let ghost b = bytes@;
        let n = bytes.len();
        let start: usize = if n >= 1 && bytes[0] == 0x2b {
            1
        } else {
            0
        };
        let ghost body = Seed::spec_seed_body(b);
        proof {
            if start == 1 {
                assert(body =~= b.skip(1));
            } else {
                assert(body =~= b);
            }
            assert(body.len() == n - start);
            assert(forall|k: int| 0 <= k < body.len() ==> body[k] == b[k + start]);
        }
        if start == n {
            return Err(SeedParseError);
        }
        let mut acc: u64 = 0;
        let mut i: usize = start;
        proof {
            assert(body.take(0) =~= Seq::<u8>::empty());
        }
        while i < n
            invariant
                n == b.len(),
                b == bytes@,
                b == s.spec_bytes(),
                body == Seed::spec_seed_body(b),
                body.len() == n - start,
                forall|k: int| 0 <= k < body.len() ==> body[k] == b[k + start],
                start <= i <= n,
                start <= 1,
                all_hex_digits(body.take(i - start)),
                acc == hex_val(body.take(i - start)),
            decreases n - i,
        {
            let c = bytes[i];
            let d: u64 = if c >= 0x30 && c <= 0x39 {
                (c - 0x30) as u64
            } else if c >= 0x61 && c <= 0x66 {
                (c - 0x61) as u64 + 10
            } else if c >= 0x41 && c <= 0x46 {
                (c - 0x41) as u64 + 10
            } else {
                proof {
                    assert(body[i - start] == b[i as int] == c);
                    assert(!all_hex_digits(body));
                }
                return Err(SeedParseError);
            };
            proof {
                assert(body.take(i - start + 1).drop_last() =~= body.take(i - start));
                assert(body.take(i - start + 1).last() == body[i - start] == c);
                assert(all_hex_digits(body.take(i - start + 1))) by {
                    assert forall|k: int| 0 <= k < i - start + 1 implies is_hex_digit(
                        #[trigger] body.take(i - start + 1)[k]) by {
                        if k < i - start {
                            assert(body.take(i - start + 1)[k] == body.take(i - start)[k]);
                        } else {
                            assert(body.take(i - start + 1)[k] == c);
                        }
                    }
                }
            }
            if acc > 0x0fff_ffff_ffff_ffff {
                proof {
                    if all_hex_digits(body) {
                        lemma_hex_val_prefix(body, i - start + 1);
                        assert(hex_val(body.take(i - start + 1)) == acc * 16 + hex_digit_val(c));
                        assert(acc * 16 >= 0x1000_0000_0000_0000 * 16) by (nonlinear_arith)
                            requires acc >= 0x1000_0000_0000_0000;
                    }
                }
                return Err(SeedParseError);
            }
            acc = acc * 16 + d;
            i = i + 1;
        }
        proof {
            assert(body.take(n - start) =~= body);
        }
        Ok(Seed { v: acc })
    }

    /// The seed's lowercase hexadecimal digits, most significant
    /// first, zero-padded on the left to at least eight digits.
    pub fn hex_bytes(&self) -> (out: Vec<u8>)
        ensures
            ({
                let raw = spec_hex_digits(self.v as int);
                &&& raw.len() <= 8 ==> out@ == Seq::new((8 - raw.len()) as nat, |i: int| 0x30u8) + raw
                &&& raw.len() > 8 ==> out@ == raw
            }),
    {
        let mut rev: Vec<u8> = Vec::new();
        let mut v: u64 = self.v;
        while v > 0
            invariant
                spec_hex_digits(self.v as int) == spec_hex_digits(v as int) + rev@.reverse(),
            decreases v,
        {
            let d = (v % 16) as u8;
            let c: u8 = if d < 10 {
                0x30 + d
            } else {
                0x61 + (d - 10)
            };
            let ghost prerev = rev@;
            rev.push(c);
            v = v / 16;
            proof {
                assert(c == spec_hex_byte(d as int));
                assert(rev@.reverse() =~= seq![c] + prerev.reverse());
                assert(spec_hex_digits(v as int) + (seq![c] + prerev.reverse())
                    =~= (spec_hex_digits(v as int).push(c)) + prerev.reverse());
            }
        }
        let mut out: Vec<u8> = Vec::new();
        let ghost raw = spec_hex_digits(self.v as int);
        proof {
            assert(spec_hex_digits(0int) =~= Seq::<u8>::empty());
            assert(raw =~= rev@.reverse());
        }
        let rl = rev.len();
        if rl < 8 {
            let mut p: usize = 0;
            while p < 8 - rl
                invariant
                    rl == rev@.len(),
                    rl < 8,
                    0 <= p <= 8 - rl,
                    out@ =~= Seq::new(p as nat, |i: int| 0x30u8),
                decreases 8 - rl - p,
            {
                out.push(0x30);
                proof {
                    assert(out@ =~= Seq::new((p + 1) as nat, |i: int| 0x30u8));
                }
                p = p + 1;
            }
        }
        let ghost padlen = out@.len();
        let mut q: usize = rl;
        while q > 0
            invariant
                rl == rev@.len(),
                0 <= q <= rl,
                out@.len() == padlen + (rl - q),
                out@ =~= out@.take(padlen as int) + rev@.reverse().take(rl - q),
                out@.take(padlen as int) =~= if rl < 8 {
                    Seq::new((8 - rl) as nat, |i: int| 0x30u8)
                } else {
                    Seq::<u8>::empty()
                },
            decreases q,
        {
            let ghost preout = out@;
            out.push(rev[q - 1]);
            proof {
                assert(rev@[q - 1] == rev@.reverse()[rl - q]);
                assert(out@ =~= preout.push(rev@.reverse()[rl - q]));
                assert(rev@.reverse().take(rl - q + 1) =~= rev@.reverse().take(rl - q).push(
                    rev@.reverse()[rl - q]));
                assert(preout.len() >= padlen);
                assert forall|t: int| 0 <= t < padlen implies #[trigger] out@.take(
                    padlen as int)[t] == preout.take(padlen as int)[t] by {
                    assert(out@[t] == preout[t]);
                }
                assert(out@.take(padlen as int) =~= preout.take(padlen as int));
            }
            q = q - 1;
        }
        proof {
            assert(rev@.reverse().take(rl as int) =~= raw);
            if raw.len() <= 8 {
                assert(out@ =~= Seq::new((8 - raw.len()) as nat, |i: int| 0x30u8) + raw);
            } else {
                assert(out@ =~= raw);
            }
        }
        out
    }
}

} // verus!
