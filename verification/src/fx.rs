//! Saturating fixed-point scalars.
//!
//! Machine-precision quantities of the render kernel (pixel offsets, orbit
//! samples, escape statistics) are carried as `Fx`: a signed value scaled by
//! `2^32`, clamped into `[-2^96, 2^96]`. Every operation saturates instead of
//! failing, mirroring the defensive-clamping error model of the engine; the
//! exact result of each operation, truncation and clamping included, is pinned
//! down by the `fx_*_spec` functions, so arithmetic over `Fx` is reasoned
//! about exactly.

use vstd::arithmetic::div_mod::{lemma_div_by_multiple, lemma_div_is_ordered};
use vstd::prelude::*;

verus! {

/// Number of fractional bits of an `Fx` value.
pub const FX_FRAC_BITS: u32 = 32;

/// Scale of an `Fx` value: `raw` counts units of `1 / FX_SCALE`.
pub const FX_SCALE: i128 = 4294967296;

/// Unsigned copy of `FX_SCALE` for magnitude arithmetic.
pub const FX_SCALE_U: u128 = 4294967296;

/// Largest raw magnitude an `Fx` can carry (a value of `2^64`).
pub const FX_MAX_RAW: i128 = 79228162514264337593543950336;

/// Unsigned copy of `FX_MAX_RAW`.
pub const FX_MAX_RAW_U: u128 = 79228162514264337593543950336;

/// A fixed-point scalar: the represented value is `raw / FX_SCALE`.
#[derive(Clone, Copy, Debug, PartialEq, Eq, Structural)]
pub struct Fx {
    pub raw: i128,
}

/// Clamp an unbounded result into the representable raw range.
pub open spec fn fx_clip(v: int) -> int {
    if v > FX_MAX_RAW {
        FX_MAX_RAW as int
    } else if v < -FX_MAX_RAW {
        -FX_MAX_RAW
    } else {
        v
    }
}

/// Division rounding toward zero, for a positive divisor.
pub open spec fn div_toward_zero(a: int, d: int) -> int {
    if a >= 0 {
        a / d
    } else {
        -((-a) / d)
    }
}

/// Saturating fixed-point addition.
pub open spec fn fx_add_spec(a: int, b: int) -> int {
    fx_clip(a + b)
}

/// Saturating fixed-point subtraction.
pub open spec fn fx_sub_spec(a: int, b: int) -> int {
    fx_clip(a - b)
}

/// Saturating fixed-point multiplication: the exact product is rescaled by
/// `FX_SCALE` rounding toward zero, then clamped.
pub open spec fn fx_mul_spec(a: int, b: int) -> int {
    fx_clip(div_toward_zero(a * b, FX_SCALE as int))
}

impl Fx {
    /// The raw range every `Fx` stays within.
    pub open spec fn wf(self) -> bool {
        -FX_MAX_RAW <= self.raw <= FX_MAX_RAW
    }

    /// The zero value.
    pub fn zero() -> (r: Fx)
        ensures
            r.raw == 0,
            r.wf(),
    {
        Fx { raw: 0 }
    }

    /// Build an `Fx` from a whole number.
    pub fn from_i64(v: i64) -> (r: Fx)
        ensures
            r.raw == v * FX_SCALE,
            r.wf(),
    {
        let r = Fx { raw: (v as i128) * FX_SCALE };
        proof {
            assert(-FX_MAX_RAW <= (v as int) * (FX_SCALE as int) <= FX_MAX_RAW)
                by (nonlinear_arith)
                requires
                    -0x8000_0000_0000_0000 <= v as int <= 0x7fff_ffff_ffff_ffff,
            ;
        }
        r
    }

    /// Build an `Fx` directly from a raw count of `1 / FX_SCALE` units,
    /// clamping it into range.
    pub fn from_raw(raw: i128) -> (r: Fx)
        ensures
            r.raw == fx_clip(raw as int),
            r.wf(),
    {
        if raw > FX_MAX_RAW {
            Fx { raw: FX_MAX_RAW }
        } else if raw < -FX_MAX_RAW {
            Fx { raw: -FX_MAX_RAW }
        } else {
            Fx { raw }
        }
    }

    /// Saturating addition.
    pub fn add(self, o: Fx) -> (r: Fx)
        requires
            self.wf(),
            o.wf(),
        ensures
            r.raw == fx_add_spec(self.raw as int, o.raw as int),
            r.wf(),
    {
        Fx::from_raw(self.raw + o.raw)
    }

    /// Saturating subtraction.
    pub fn sub(self, o: Fx) -> (r: Fx)
        requires
            self.wf(),
            o.wf(),
        ensures
            r.raw == fx_sub_spec(self.raw as int, o.raw as int),
            r.wf(),
    {
        Fx::from_raw(self.raw - o.raw)
    }

    /// Exact negation.
    pub fn neg(self) -> (r: Fx)
        requires
            self.wf(),
        ensures
            r.raw == -self.raw,
            r.wf(),
    {
        Fx { raw: -self.raw }
    }

    /// Comparison on the represented values.
    pub fn lt(self, o: Fx) -> (r: bool)
        ensures
            r == (self.raw < o.raw),
    {
        self.raw < o.raw
    }

    /// Comparison on the represented values.
    pub fn le(self, o: Fx) -> (r: bool)
        ensures
            r == (self.raw <= o.raw),
    {
        self.raw <= o.raw
    }

    /// Round down to the nearest whole number.
    pub fn floor(self) -> (r: Fx)
        requires
            self.wf(),
        ensures
            r.raw == fx_floor_spec(self.raw as int),
            r.raw % FX_SCALE == 0,
            r.raw <= self.raw < r.raw + FX_SCALE,
            -FX_MAX_RAW - FX_SCALE <= r.raw <= FX_MAX_RAW,
    {
        proof {
            lemma_floor_form(self.raw as int);
        }
        if self.raw >= 0 {
            Fx { raw: (self.raw / FX_SCALE) * FX_SCALE }
        } else {
            let m = -self.raw;
            let q = (m + FX_SCALE - 1) / FX_SCALE;
            Fx { raw: -(q * FX_SCALE) }
        }
    }

    /// Round up to the nearest whole number.
    pub fn ceil(self) -> (r: Fx)
        requires
            self.wf(),
        ensures
            r.raw == fx_ceil_spec(self.raw as int),
            r.raw % FX_SCALE == 0,
            r.raw - FX_SCALE < self.raw <= r.raw,
            -FX_MAX_RAW - FX_SCALE <= r.raw <= FX_MAX_RAW + FX_SCALE,
    {
        proof {
            lemma_floor_form(self.raw as int);
            lemma_floor_form(-(self.raw as int));
        }
        if self.raw >= 0 {
            let q = (self.raw + FX_SCALE - 1) / FX_SCALE;
            Fx { raw: q * FX_SCALE }
        } else {
            let m = -self.raw;
            Fx { raw: -((m / FX_SCALE) * FX_SCALE) }
        }
    }

    /// Magnitude.
    pub fn abs(self) -> (r: Fx)
        requires
            self.wf(),
        ensures
            r.raw == iabs(self.raw as int),
            r.wf(),
    {
        if self.raw < 0 {
            Fx { raw: -self.raw }
        } else {
            self
        }
    }

    /// Whether the value is negative.
    pub fn is_neg(self) -> (r: bool)
        ensures
            r == (self.raw < 0),
    {
        self.raw < 0
    }

    /// Saturating multiplication.
    pub fn mul(self, o: Fx) -> (r: Fx)
        requires
            self.wf(),
            o.wf(),
        ensures
            r.raw == fx_mul_spec(self.raw as int, o.raw as int),
            r.wf(),
    {
        let neg = (self.raw < 0) != (o.raw < 0);
        let am: u128 = if self.raw < 0 {
            (-self.raw) as u128
        } else {
            self.raw as u128
        };
        let bm: u128 = if o.raw < 0 {
            (-o.raw) as u128
        } else {
            o.raw as u128
        };
        proof {
            let a = self.raw as int;
            let b = o.raw as int;
            assert(a * b == if (a < 0) != (b < 0) {
                -((iabs(a) * iabs(b)))
            } else {
                iabs(a) * iabs(b)
            }) by (nonlinear_arith);
        }
        match am.checked_mul(bm) {
            Some(p) => {
                let q = p / FX_SCALE_U;
                let qc: u128 = if q > FX_MAX_RAW_U {
                    FX_MAX_RAW_U
                } else {
                    q
                };
                if neg {
                    Fx { raw: -(qc as i128) }
                } else {
                    Fx { raw: qc as i128 }
                }
            },
            None => {
                proof {
                    let m = (am as int) * (bm as int);
                    assert(m > u128::MAX ==> m / (FX_SCALE as int) >= FX_MAX_RAW) by {
                        if m > u128::MAX {
                            lemma_div_is_ordered(u128::MAX as int + 1, m, FX_SCALE as int);
                            lemma_div_by_multiple(FX_MAX_RAW as int, FX_SCALE as int);
                            assert(FX_MAX_RAW * FX_SCALE == u128::MAX + 1);
                        }
                    }
                }
                if neg {
                    Fx { raw: -FX_MAX_RAW }
                } else {
                    Fx { raw: FX_MAX_RAW }
                }
            },
        }
    }

    /// Saturating division; truncates toward zero.
    pub fn div(self, o: Fx) -> (r: Fx)
        requires
            -FX_MAX_RAW < self.raw < FX_MAX_RAW,
            o.wf(),
            o.raw != 0,
        ensures
            r.raw == fx_div_spec(self.raw as int, o.raw as int),
            r.wf(),
    {
        let neg = (self.raw < 0) != (o.raw < 0);
        let am: u128 = if self.raw < 0 {
            (-self.raw) as u128
        } else {
            self.raw as u128
        };
        let bm: u128 = if o.raw < 0 {
            (-o.raw) as u128
        } else {
            o.raw as u128
        };
        proof {
            assert((am as int) * (FX_SCALE as int) <= u128::MAX) by (nonlinear_arith)
                requires
                    am < FX_MAX_RAW_U,
            ;
        }
        let q = (am * FX_SCALE_U) / bm;
        let qc: u128 = if q > FX_MAX_RAW_U {
            FX_MAX_RAW_U
        } else {
            q
        };
        if neg {
            Fx { raw: -(qc as i128) }
        } else {
            Fx { raw: qc as i128 }
        }
    }

    /// Saturating square root; negative inputs give zero.
    pub fn sqrt(self) -> (r: Fx)
        requires
            self.wf(),
        ensures
            r.raw == fx_sqrt_spec(self.raw as int),
            0 <= r.raw <= 18446744073709551616,
            r.wf(),
    {
        if self.raw <= 0 {
            Fx { raw: 0 }
        } else if self.raw == FX_MAX_RAW {
            proof {
                assert(18446744073709551616int * 18446744073709551616int == FX_MAX_RAW
                    * FX_SCALE);
                assert(18446744073709551617int * 18446744073709551617int > FX_MAX_RAW
                    * FX_SCALE);
                assert(is_sqrt(18446744073709551616, (FX_MAX_RAW * FX_SCALE) as nat));
                lemma_sqrt_nat_is((FX_MAX_RAW * FX_SCALE) as nat, 18446744073709551616);
            }
            Fx { raw: 18446744073709551616 }
        } else {
            proof {
                assert((self.raw as int) * (FX_SCALE as int) <= u128::MAX) by (nonlinear_arith)
                    requires
                        0 < self.raw < FX_MAX_RAW,
                ;
            }
            let n = (self.raw as u128) * FX_SCALE_U;
            let s = isqrt_u128(n);
            proof {
                lemma_sqrt_nat_is(n as nat, s as nat);
                assert(s <= 18446744073709551616) by (nonlinear_arith)
                    requires
                        (s as int) * (s as int) <= n <= u128::MAX,
                ;
            }
            Fx { raw: s as i128 }
        }
    }
}

/// The largest multiple of the scale at or below `raw` (the whole-number
/// floor on the fixed-point grid).
pub open spec fn fx_floor_spec(raw: int) -> int {
    raw - (raw % (FX_SCALE as int))
}

/// The smallest multiple of the scale at or above `raw`.
pub open spec fn fx_ceil_spec(raw: int) -> int {
    -fx_floor_spec(-raw)
}

/// The floor on the grid is the unique scale multiple bracketing the value.
proof fn lemma_floor_form(raw: int)
    ensures
        fx_floor_spec(raw) % (FX_SCALE as int) == 0,
        fx_floor_spec(raw) <= raw < fx_floor_spec(raw) + FX_SCALE,
{
    vstd::arithmetic::div_mod::lemma_fundamental_div_mod(raw, FX_SCALE as int);
    vstd::arithmetic::div_mod::lemma_mod_bound(raw, FX_SCALE as int);
    let f = fx_floor_spec(raw);
    assert(f == (FX_SCALE as int) * (raw / (FX_SCALE as int)));
    vstd::arithmetic::div_mod::lemma_mod_multiples_basic(raw / (FX_SCALE as int), FX_SCALE as int);
}

/// Magnitude of an integer.
pub open spec fn iabs(a: int) -> int {
    if a < 0 {
        -a
    } else {
        a
    }
}

/// Saturating fixed-point division, truncating toward zero.
pub open spec fn fx_div_spec(a: int, b: int) -> int
    recommends
        b != 0,
{
    let q = (iabs(a) * FX_SCALE) / iabs(b);
    if (a < 0) != (b < 0) {
        fx_clip(-q)
    } else {
        fx_clip(q)
    }
}

/// `r` is the integer square root of `n`.
pub open spec fn is_sqrt(r: nat, n: nat) -> bool {
    r * r <= n < (r + 1) * (r + 1)
}

/// The integer square root.
pub open spec fn sqrt_nat(n: nat) -> nat {
    choose|r: nat| is_sqrt(r, n)
}

/// Saturating fixed-point square root: the exact root of the value, rounded
/// down to the fixed-point grid; negative inputs give zero.
pub open spec fn fx_sqrt_spec(a: int) -> int {
    if a <= 0 {
        0
    } else {
        sqrt_nat((a * FX_SCALE) as nat) as int
    }
}

/// Integer square roots are unique.
proof fn lemma_sqrt_unique(n: nat, r1: nat, r2: nat)
    by (nonlinear_arith)
    requires
        is_sqrt(r1, n),
        is_sqrt(r2, n),
    ensures
        r1 == r2,
{
}

/// Every natural number has an integer square root, so `sqrt_nat` satisfies
/// its defining property.
pub proof fn lemma_sqrt_exists(n: nat)
    ensures
        is_sqrt(sqrt_nat(n), n),
    decreases n,
{
    if n == 0 {
        assert(0nat * 0nat == 0 && 1nat * 1nat == 1) by (nonlinear_arith);
        assert(is_sqrt(0, 0));
        lemma_sqrt_nat_is(0, 0);
    } else {
        lemma_sqrt_exists((n - 1) as nat);
        let r = sqrt_nat((n - 1) as nat);
        if n < (r + 1) * (r + 1) {
            assert(is_sqrt(r, n));
            lemma_sqrt_nat_is(n, r);
        } else {
            assert(n == (r + 1) * (r + 1));
            assert((r + 1) * (r + 1) < (r + 2) * (r + 2)) by (nonlinear_arith);
            assert(is_sqrt(r + 1, n));
            lemma_sqrt_nat_is(n, r + 1);
        }
    }
}

/// A witness for `is_sqrt` pins down `sqrt_nat`.
proof fn lemma_sqrt_nat_is(n: nat, r: nat)
    requires
        is_sqrt(r, n),
    ensures
        sqrt_nat(n) == r,
{
    assert(exists|x: nat| is_sqrt(x, n));
    lemma_sqrt_unique(n, sqrt_nat(n), r);
}

/// Integer square root of a `u128`, by binary search.
pub fn isqrt_u128(n: u128) -> (r: u128)
    ensures
        is_sqrt(r as nat, n as nat),
        r <= 18446744073709551616,
{
    let mut lo: u128 = 0;
    let mut hi: u128 = 18446744073709551616;
    proof {
        assert((hi as int) * (hi as int) == u128::MAX as int + 1);
    }
    while lo + 1 < hi
        invariant
            lo < hi <= 18446744073709551616,
            (lo as int) * (lo as int) <= n,
            (hi as int) * (hi as int) > n,
        decreases hi - lo,
    {
        let mid = lo + (hi - lo) / 2;
        proof {
            assert((mid as int) * (mid as int) <= u128::MAX) by (nonlinear_arith)
                requires
                    mid < 18446744073709551616,
            ;
        }
        if mid * mid <= n {
            lo = mid;
        } else {
            hi = mid;
        }
    }
    lo
}

} // verus!
