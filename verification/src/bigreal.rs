//! Arbitrary-precision reals.
//!
//! A `BigReal` is a signed fixed-point number `num / 2^frac` with an
//! arbitrary-precision magnitude and a caller-controlled number of fractional
//! bits. It carries the deep-zoom camera translate and the reference-orbit
//! iteration, where machine precision runs out. All operations have exact
//! contracts over the mathematical numerator `num`; rounding (`with_precision`,
//! `div`) is stated exactly as truncation toward zero.

use crate::bigint::{
    mag_add, mag_div, mag_from_u128, mag_lt, mag_mul, mag_shl, mag_shr, mag_sub, mag_to_u128_sat,
    mag_val,
};
use crate::fx::{div_toward_zero, fx_clip, Fx, FX_FRAC_BITS, FX_MAX_RAW, FX_MAX_RAW_U};
use vstd::arithmetic::power2::{lemma2_to64, lemma_pow2_pos, pow2};
use vstd::prelude::*;

verus! {

/// Most fractional bits a `BigReal` may carry.
pub const FRAC_CAP: u32 = 65536;

/// An arbitrary-precision real: the represented value is
/// `(if neg { -1 } else { 1 }) * mag / 2^frac`.
#[derive(Clone, Debug)]
pub struct BigReal {
    pub neg: bool,
    pub mag: Vec<u8>,
    pub frac: u32,
}

impl BigReal {
    /// The signed numerator: the represented value times `2^frac`.
    pub open spec fn num(self) -> int {
        if self.neg {
            -(mag_val(self.mag@) as int)
        } else {
            mag_val(self.mag@) as int
        }
    }

    /// Fractional bits stay within the cap, so shift amounts fit a `usize`.
    pub open spec fn wf(self) -> bool {
        self.frac <= FRAC_CAP
    }

    /// The numerator rescaled to `f` fractional bits (`f` at least `frac`).
    pub open spec fn scaled(self, f: int) -> int
        recommends
            self.frac <= f,
    {
        self.num() * pow2((f - self.frac) as nat) as int
    }

    /// Value order between two `BigReal`s, stated at a common scale.
    pub open spec fn big_lt_spec(a: BigReal, b: BigReal) -> bool {
        let m = if a.frac >= b.frac {
            a.frac as int
        } else {
            b.frac as int
        };
        a.scaled(m) < b.scaled(m)
    }

    /// The zero value at a given precision.
    pub fn zero(frac: u32) -> (r: BigReal)
        requires
            frac <= FRAC_CAP,
        ensures
            r.num() == 0,
            r.frac == frac,
            r.wf(),
    {
        BigReal { neg: false, mag: Vec::new(), frac }
    }

    /// Exact conversion from a fixed-point scalar.
    pub fn from_fx(v: Fx) -> (r: BigReal)
        requires
            v.wf(),
        ensures
            r.num() == v.raw,
            r.frac == FX_FRAC_BITS,
            r.wf(),
    {
        if v.raw < 0 {
            BigReal { neg: true, mag: mag_from_u128((-v.raw) as u128), frac: FX_FRAC_BITS }
        } else {
            BigReal { neg: false, mag: mag_from_u128(v.raw as u128), frac: FX_FRAC_BITS }
        }
    }

    /// Exact negation.
    pub fn neg_val(&self) -> (r: BigReal)
        ensures
            r.num() == -self.num(),
            r.frac == self.frac,
            r.wf() == self.wf(),
    {
        BigReal { neg: !self.neg, mag: self.mag.clone(), frac: self.frac }
    }

    /// Exact rescale to at least the current number of fractional bits.
    pub fn align(&self, f: u32) -> (r: BigReal)
        requires
            self.frac <= f,
            f <= FRAC_CAP,
        ensures
            r.num() == self.scaled(f as int),
            r.frac == f,
            r.wf(),
    {
        let d = (f - self.frac) as usize;
        let mag = mag_shl(&self.mag, d);
        let r = BigReal { neg: self.neg, mag, frac: f };
        proof {
            let m = mag_val(self.mag@) as int;
            let p = pow2(d as nat) as int;
            assert((-m) * p == -(m * p)) by (nonlinear_arith);
        }
        r
    }

    /// Exact addition; the result carries the finer of the two precisions.
    pub fn add(&self, o: &BigReal) -> (r: BigReal)
        requires
            self.wf(),
            o.wf(),
        ensures
            r.frac == if self.frac >= o.frac { self.frac } else { o.frac },
            r.num() == self.scaled(r.frac as int) + o.scaled(r.frac as int),
            r.wf(),
    {
        let f = if self.frac >= o.frac {
            self.frac
        } else {
            o.frac
        };
        let a = self.align(f);
        let b = o.align(f);
        if a.neg == b.neg {
            BigReal { neg: a.neg, mag: mag_add(&a.mag, &b.mag), frac: f }
        } else if mag_lt(&a.mag, &b.mag) {
            BigReal { neg: b.neg, mag: mag_sub(&b.mag, &a.mag), frac: f }
        } else {
            BigReal { neg: a.neg, mag: mag_sub(&a.mag, &b.mag), frac: f }
        }
    }

    /// Exact subtraction; the result carries the finer of the two precisions.
    pub fn sub(&self, o: &BigReal) -> (r: BigReal)
        requires
            self.wf(),
            o.wf(),
        ensures
            r.frac == if self.frac >= o.frac { self.frac } else { o.frac },
            r.num() == self.scaled(r.frac as int) - o.scaled(r.frac as int),
            r.wf(),
    {
        let r = self.add(&o.neg_val());
        proof {
            let p = pow2((r.frac - o.frac) as nat) as int;
            let n = o.num();
            assert((-n) * p == -(n * p)) by (nonlinear_arith);
        }
        r
    }

    /// Rescaling to the value's own precision is the identity.
    pub proof fn lemma_scaled_id(self)
        ensures
            self.scaled(self.frac as int) == self.num(),
    {
        lemma2_to64();
        assert(pow2(0) == 1);
        assert(self.num() * 1 == self.num()) by (nonlinear_arith);
    }

    /// An exact copy (the derived `Clone` carries no contract).
    pub fn copy_val(&self) -> (r: BigReal)
        ensures
            r.num() == self.num(),
            r.frac == self.frac,
            r.neg == self.neg,
            r.mag@ == self.mag@,
            r.wf() == self.wf(),
    {
        BigReal { neg: self.neg, mag: self.mag.clone(), frac: self.frac }
    }

    /// Exact multiplication; the fractional bits add up.
    pub fn mul(&self, o: &BigReal) -> (r: BigReal)
        requires
            self.wf(),
            o.wf(),
            self.frac + o.frac <= FRAC_CAP,
        ensures
            r.frac == self.frac + o.frac,
            r.num() == self.num() * o.num(),
            r.wf(),
    {
        let r = BigReal {
            neg: self.neg != o.neg,
            mag: mag_mul(&self.mag, &o.mag),
            frac: self.frac + o.frac,
        };
        proof {
            let ma = mag_val(self.mag@) as int;
            let mb = mag_val(o.mag@) as int;
            assert((-ma) * mb == -(ma * mb) && ma * (-mb) == -(ma * mb) && (-ma) * (-mb) == ma
                * mb) by (nonlinear_arith);
        }
        r
    }

    /// Rescale to exactly `f` fractional bits; coarsening truncates toward
    /// zero.
    pub fn with_precision(&self, f: u32) -> (r: BigReal)
        requires
            self.wf(),
            f <= FRAC_CAP,
        ensures
            r.frac == f,
            self.frac <= f ==> r.num() == self.scaled(f as int),
            self.frac > f ==> r.num() == div_toward_zero(
                self.num(),
                pow2((self.frac - f) as nat) as int,
            ),
            r.wf(),
    {
        if self.frac <= f {
            self.align(f)
        } else {
            let d = (self.frac - f) as usize;
            let mag = mag_shr(&self.mag, d);
            let r = BigReal { neg: self.neg, mag, frac: f };
            proof {
                lemma_pow2_pos(d as nat);
            }
            r
        }
    }

    /// Truncating division: the result has exactly `f` fractional bits and is
    /// the true quotient rounded toward zero.
    pub fn div(&self, o: &BigReal, f: u32) -> (r: BigReal)
        requires
            self.wf(),
            o.wf(),
            f <= FRAC_CAP,
            o.num() != 0,
        ensures
            r.frac == f,
            r.num() == BigReal::div_spec(*self, *o, f as int),
            r.wf(),
    {
        let na = mag_shl(&self.mag, (o.frac + f) as usize);
        let nb = mag_shl(&o.mag, self.frac as usize);
        proof {
            lemma_pow2_pos((self.frac as nat));
            let mb = mag_val(o.mag@) as int;
            let p = pow2(self.frac as nat) as int;
            assert(mb > 0 && p > 0 ==> mb * p > 0) by (nonlinear_arith);
        }
        let q = mag_div(&na, &nb);
        BigReal { neg: self.neg != o.neg, mag: q, frac: f }
    }

    /// The exact result of `div`: the quotient of the two values, rescaled to
    /// `f` fractional bits and truncated toward zero.
    pub open spec fn div_spec(a: BigReal, b: BigReal, f: int) -> int {
        let n = mag_val(a.mag@) * pow2((b.frac + f) as nat);
        let d = mag_val(b.mag@) * pow2(a.frac as nat);
        if a.neg == b.neg {
            (n / d) as int
        } else {
            -((n / d) as int)
        }
    }

    /// Value comparison.
    pub fn lt(&self, o: &BigReal) -> (r: bool)
        requires
            self.wf(),
            o.wf(),
        ensures
            r == BigReal::big_lt_spec(*self, *o),
            self.frac == o.frac ==> r == (self.num() < o.num()),
    {
        proof {
            self.lemma_scaled_id();
            o.lemma_scaled_id();
        }
        let d = self.sub(o);
        let zero: Vec<u8> = Vec::new();
        let nonzero = mag_lt(&zero, &d.mag);
        proof {
            assert(mag_val(Seq::<u8>::empty()) == 0);
            assert(zero@ =~= Seq::<u8>::empty());
        }
        d.neg && nonzero
    }

    /// Whether the value is exactly zero.
    pub fn is_zero(&self) -> (r: bool)
        ensures
            r == (self.num() == 0),
    {
        let zero: Vec<u8> = Vec::new();
        let nonzero = mag_lt(&zero, &self.mag);
        proof {
            assert(mag_val(Seq::<u8>::empty()) == 0);
            assert(zero@ =~= Seq::<u8>::empty());
        }
        !nonzero
    }

    /// The exact result of `to_fx`: the value rescaled to the fixed-point
    /// scale, truncated toward zero and clamped into the representable range.
    pub open spec fn to_fx_spec(self) -> int {
        if self.frac >= FX_FRAC_BITS {
            fx_clip(div_toward_zero(self.num(), pow2((self.frac - FX_FRAC_BITS) as nat) as int))
        } else {
            fx_clip(self.num() * pow2((FX_FRAC_BITS - self.frac) as nat) as int)
        }
    }

    /// The downcast depends only on the numerator and the precision.
    pub proof fn lemma_to_fx_val(self)
        ensures
            self.to_fx_spec() == num_to_fx_val(self.num(), self.frac as nat),
    {
    }

    /// Saturating downcast to a fixed-point scalar.
    pub fn to_fx(&self) -> (r: Fx)
        requires
            self.wf(),
        ensures
            r.raw == self.to_fx_spec(),
            r.wf(),
    {
        let t = self.with_precision(FX_FRAC_BITS);
        let u = mag_to_u128_sat(&t.mag);
        let mag_clamped: u128 = if u > FX_MAX_RAW_U {
            FX_MAX_RAW_U
        } else {
            u
        };
        proof {
            lemma2_to64();
            assert(pow2(0) == 1);
            let qv = t.num();
            if self.frac == FX_FRAC_BITS {
                assert(qv == self.num() * (pow2(0) as nat) as int);
                assert(self.num() * 1 == self.num()) by (nonlinear_arith);
                assert(div_toward_zero(self.num(), 1) == self.num());
            }
            assert(self.to_fx_spec() == fx_clip(qv));
            let mv = mag_val(t.mag@) as int;
            if mv <= u128::MAX {
                assert(u == mv);
            } else {
                assert(u == u128::MAX && mag_clamped == FX_MAX_RAW_U);
            }
            assert(mag_clamped as int == if mv > FX_MAX_RAW { FX_MAX_RAW as int } else { mv });
        }
        if t.neg {
            Fx { raw: -(mag_clamped as i128) }
        } else {
            Fx { raw: mag_clamped as i128 }
        }
    }
}

/// The fixed-point downcast of a numerator at `frac` fractional bits:
/// rescaled to the fixed-point scale, truncated toward zero, clamped.
pub open spec fn num_to_fx_val(num: int, frac: nat) -> int {
    if frac >= FX_FRAC_BITS {
        fx_clip(div_toward_zero(num, pow2((frac - FX_FRAC_BITS) as nat) as int))
    } else {
        fx_clip(num * pow2((FX_FRAC_BITS - frac) as nat) as int)
    }
}

} // verus!
