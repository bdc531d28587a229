//! Complex numbers and 2-vectors at both precisions.
//!
//! `FxComplex` is the machine-precision pair the render kernel iterates on;
//! every operation mirrors a `c_*_spec` function exactly, truncation and
//! saturation included. `BigVec2` and `Complex` are the arbitrary-precision
//! pairs carrying camera translates and the reference orbit; their operations
//! are exact over the numerators of their components.

use crate::bigreal::BigReal;
use crate::fx::{fx_add_spec, fx_mul_spec, fx_sub_spec, fx_sqrt_spec, Fx};
use vstd::prelude::*;

verus! {

/// A machine-precision complex number (also used as a plain 2-vector).
#[derive(Clone, Copy, Debug, PartialEq, Eq, Structural)]
pub struct FxComplex {
    pub x: Fx,
    pub y: Fx,
}

/// Exact mirror of `FxComplex` addition.
pub open spec fn c_add_spec(a: (int, int), b: (int, int)) -> (int, int) {
    (fx_add_spec(a.0, b.0), fx_add_spec(a.1, b.1))
}

/// Exact mirror of `FxComplex` subtraction.
pub open spec fn c_sub_spec(a: (int, int), b: (int, int)) -> (int, int) {
    (fx_sub_spec(a.0, b.0), fx_sub_spec(a.1, b.1))
}

/// Exact mirror of complex multiplication.
pub open spec fn c_mul_spec(a: (int, int), b: (int, int)) -> (int, int) {
    (
        fx_sub_spec(fx_mul_spec(a.0, b.0), fx_mul_spec(a.1, b.1)),
        fx_add_spec(fx_mul_spec(a.0, b.1), fx_mul_spec(a.1, b.0)),
    )
}

/// Exact mirror of complex squaring: `(x^2 - y^2, 2xy)`, the doubling done as
/// an addition.
pub open spec fn c_square_spec(a: (int, int)) -> (int, int) {
    (
        fx_sub_spec(fx_mul_spec(a.0, a.0), fx_mul_spec(a.1, a.1)),
        fx_add_spec(fx_mul_spec(a.0, a.1), fx_mul_spec(a.0, a.1)),
    )
}

/// Exact mirror of doubling.
pub open spec fn c_double_spec(a: (int, int)) -> (int, int) {
    (fx_add_spec(a.0, a.0), fx_add_spec(a.1, a.1))
}

/// Exact mirror of the squared norm `x^2 + y^2`.
pub open spec fn c_norm_sq_spec(a: (int, int)) -> int {
    fx_add_spec(fx_mul_spec(a.0, a.0), fx_mul_spec(a.1, a.1))
}

/// Exact mirror of the distance `sqrt(|a - b|^2)`.
pub open spec fn c_distance_spec(a: (int, int), b: (int, int)) -> int {
    fx_sqrt_spec(c_norm_sq_spec(c_sub_spec(a, b)))
}

impl FxComplex {
    /// The raw pair this value stands for.
    pub open spec fn rep(self) -> (int, int) {
        (self.x.raw as int, self.y.raw as int)
    }

    /// Both components are in range.
    pub open spec fn wf(self) -> bool {
        self.x.wf() && self.y.wf()
    }

    /// The origin.
    pub fn zero() -> (r: FxComplex)
        ensures
            r.rep() == (0int, 0int),
            r.wf(),
    {
        FxComplex { x: Fx { raw: 0 }, y: Fx { raw: 0 } }
    }

    /// Build from components.
    pub fn new(x: Fx, y: Fx) -> (r: FxComplex)
        ensures
            r.x == x,
            r.y == y,
    {
        FxComplex { x, y }
    }

    /// Component-wise saturating addition.
    pub fn add(self, o: FxComplex) -> (r: FxComplex)
        requires
            self.wf(),
            o.wf(),
        ensures
            r.rep() == c_add_spec(self.rep(), o.rep()),
            r.wf(),
    {
        FxComplex { x: self.x.add(o.x), y: self.y.add(o.y) }
    }

    /// Component-wise saturating subtraction.
    pub fn sub(self, o: FxComplex) -> (r: FxComplex)
        requires
            self.wf(),
            o.wf(),
        ensures
            r.rep() == c_sub_spec(self.rep(), o.rep()),
            r.wf(),
    {
        FxComplex { x: self.x.sub(o.x), y: self.y.sub(o.y) }
    }

    /// Complex multiplication.
    pub fn cmul(self, o: FxComplex) -> (r: FxComplex)
        requires
            self.wf(),
            o.wf(),
        ensures
            r.rep() == c_mul_spec(self.rep(), o.rep()),
            r.wf(),
    {
        FxComplex {
            x: self.x.mul(o.x).sub(self.y.mul(o.y)),
            y: self.x.mul(o.y).add(self.y.mul(o.x)),
        }
    }

    /// Complex squaring via the `(x^2 - y^2, 2xy)` shortcut.
    pub fn square(self) -> (r: FxComplex)
        requires
            self.wf(),
        ensures
            r.rep() == c_square_spec(self.rep()),
            r.wf(),
    {
        let xy = self.x.mul(self.y);
        FxComplex { x: self.x.mul(self.x).sub(self.y.mul(self.y)), y: xy.add(xy) }
    }

    /// Doubling.
    pub fn double(self) -> (r: FxComplex)
        requires
            self.wf(),
        ensures
            r.rep() == c_double_spec(self.rep()),
            r.wf(),
    {
        self.add(self)
    }

    /// The squared norm.
    pub fn norm_squared(self) -> (r: Fx)
        requires
            self.wf(),
        ensures
            r.raw == c_norm_sq_spec(self.rep()),
            r.wf(),
    {
        self.x.mul(self.x).add(self.y.mul(self.y))
    }

    /// The norm.
    pub fn norm(self) -> (r: Fx)
        requires
            self.wf(),
        ensures
            r.raw == fx_sqrt_spec(c_norm_sq_spec(self.rep())),
            0 <= r.raw <= 18446744073709551616,
            r.wf(),
    {
        self.norm_squared().sqrt()
    }

    /// The distance to another point.
    pub fn distance(self, o: FxComplex) -> (r: Fx)
        requires
            self.wf(),
            o.wf(),
        ensures
            r.raw == c_distance_spec(self.rep(), o.rep()),
            0 <= r.raw <= 18446744073709551616,
            r.wf(),
    {
        self.sub(o).norm()
    }
}

/// An arbitrary-precision 2-vector.
#[derive(Clone, Debug)]
pub struct BigVec2 {
    pub x: BigReal,
    pub y: BigReal,
}

impl BigVec2 {
    /// Components share a precision and are well formed.
    pub open spec fn wf(self) -> bool {
        self.x.wf() && self.y.wf() && self.x.frac == self.y.frac
    }

    /// The shared number of fractional bits.
    pub open spec fn frac(self) -> u32 {
        self.x.frac
    }

    /// The pair of numerators.
    pub open spec fn nums(self) -> (int, int) {
        (self.x.num(), self.y.num())
    }

    /// Build from components.
    pub fn new(x: BigReal, y: BigReal) -> (r: BigVec2)
        ensures
            r.x == x,
            r.y == y,
    {
        BigVec2 { x, y }
    }

    /// The shared precision of the two components.
    pub fn precision(&self) -> (r: u32)
        ensures
            r == self.frac(),
    {
        self.x.frac
    }

    /// Rescale both components to exactly `f` fractional bits.
    pub fn with_precision(&self, f: u32) -> (r: BigVec2)
        requires
            self.wf(),
            f <= crate::bigreal::FRAC_CAP,
        ensures
            r.frac() == f,
            r.wf(),
            self.frac() <= f ==> r.nums() == (self.x.scaled(f as int), self.y.scaled(f as int)),
            self.frac() > f ==> r.nums() == (
                crate::fx::div_toward_zero(
                    self.x.num(),
                    vstd::arithmetic::power2::pow2((self.frac() - f) as nat) as int,
                ),
                crate::fx::div_toward_zero(
                    self.y.num(),
                    vstd::arithmetic::power2::pow2((self.frac() - f) as nat) as int,
                ),
            ),
    {
        BigVec2 { x: self.x.with_precision(f), y: self.y.with_precision(f) }
    }

    /// An exact copy.
    pub fn copy_val(&self) -> (r: BigVec2)
        ensures
            r.nums() == self.nums(),
            r.frac() == self.frac(),
            r.wf() == self.wf(),
    {
        BigVec2 { x: self.x.copy_val(), y: self.y.copy_val() }
    }

    /// Exact component-wise addition.
    pub fn add(&self, o: &BigVec2) -> (r: BigVec2)
        requires
            self.wf(),
            o.wf(),
        ensures
            r.frac() == if self.frac() >= o.frac() { self.frac() } else { o.frac() },
            r.nums() == (
                self.x.scaled(r.frac() as int) + o.x.scaled(r.frac() as int),
                self.y.scaled(r.frac() as int) + o.y.scaled(r.frac() as int),
            ),
            r.wf(),
    {
        BigVec2 { x: self.x.add(&o.x), y: self.y.add(&o.y) }
    }

    /// Exact component-wise subtraction.
    pub fn sub(&self, o: &BigVec2) -> (r: BigVec2)
        requires
            self.wf(),
            o.wf(),
        ensures
            r.frac() == if self.frac() >= o.frac() { self.frac() } else { o.frac() },
            r.nums() == (
                self.x.scaled(r.frac() as int) - o.x.scaled(r.frac() as int),
                self.y.scaled(r.frac() as int) - o.y.scaled(r.frac() as int),
            ),
            r.wf(),
    {
        BigVec2 { x: self.x.sub(&o.x), y: self.y.sub(&o.y) }
    }

    /// Exact conversion from a machine-precision pair.
    pub fn from_fx2(v: FxComplex) -> (r: BigVec2)
        requires
            v.wf(),
        ensures
            r.nums() == v.rep(),
            r.frac() == crate::fx::FX_FRAC_BITS,
            r.wf(),
    {
        BigVec2 { x: BigReal::from_fx(v.x), y: BigReal::from_fx(v.y) }
    }

    /// Saturating downcast to a machine-precision pair.
    pub fn as_fx2(&self) -> (r: FxComplex)
        requires
            self.wf(),
        ensures
            r.rep() == (self.x.to_fx_spec(), self.y.to_fx_spec()),
            r.wf(),
    {
        FxComplex { x: self.x.to_fx(), y: self.y.to_fx() }
    }
}

/// An arbitrary-precision complex number over a `BigVec2`.
#[derive(Clone, Debug)]
pub struct Complex {
    pub v: BigVec2,
}

impl Complex {
    /// Components share a precision and are well formed.
    pub open spec fn wf(self) -> bool {
        self.v.wf()
    }

    /// The shared number of fractional bits.
    pub open spec fn frac(self) -> u32 {
        self.v.frac()
    }

    /// The pair of numerators.
    pub open spec fn nums(self) -> (int, int) {
        self.v.nums()
    }

    /// Build from components.
    pub fn new(x: BigReal, y: BigReal) -> (r: Complex)
        ensures
            r.v.x == x,
            r.v.y == y,
    {
        Complex { v: BigVec2 { x, y } }
    }

    /// The zero value at a given precision.
    pub fn zero(frac: u32) -> (r: Complex)
        requires
            frac <= crate::bigreal::FRAC_CAP,
        ensures
            r.nums() == (0int, 0int),
            r.frac() == frac,
            r.wf(),
    {
        Complex { v: BigVec2 { x: BigReal::zero(frac), y: BigReal::zero(frac) } }
    }

    /// Wrap a vector as a complex number.
    pub fn from_vec2(v: BigVec2) -> (r: Complex)
        ensures
            r.v == v,
    {
        Complex { v }
    }

    /// An exact copy.
    pub fn copy_val(&self) -> (r: Complex)
        ensures
            r.nums() == self.nums(),
            r.frac() == self.frac(),
            r.wf() == self.wf(),
    {
        Complex { v: self.v.copy_val() }
    }

    /// Exact addition.
    pub fn add(&self, o: &Complex) -> (r: Complex)
        requires
            self.wf(),
            o.wf(),
        ensures
            r.frac() == if self.frac() >= o.frac() { self.frac() } else { o.frac() },
            r.nums() == (
                self.v.x.scaled(r.frac() as int) + o.v.x.scaled(r.frac() as int),
                self.v.y.scaled(r.frac() as int) + o.v.y.scaled(r.frac() as int),
            ),
            r.wf(),
    {
        Complex { v: self.v.add(&o.v) }
    }

    /// Exact subtraction.
    pub fn sub(&self, o: &Complex) -> (r: Complex)
        requires
            self.wf(),
            o.wf(),
        ensures
            r.frac() == if self.frac() >= o.frac() { self.frac() } else { o.frac() },
            r.nums() == (
                self.v.x.scaled(r.frac() as int) - o.v.x.scaled(r.frac() as int),
                self.v.y.scaled(r.frac() as int) - o.v.y.scaled(r.frac() as int),
            ),
            r.wf(),
    {
        Complex { v: self.v.sub(&o.v) }
    }

    /// Exact complex squaring: `(x^2 - y^2, 2xy)`.
    pub fn square(&self) -> (r: Complex)
        requires
            self.wf(),
            2 * self.frac() <= crate::bigreal::FRAC_CAP,
        ensures
            r.frac() == 2 * self.frac(),
            r.nums() == (
                self.v.x.num() * self.v.x.num() - self.v.y.num() * self.v.y.num(),
                2 * (self.v.x.num() * self.v.y.num()),
            ),
            r.wf(),
    {
        let xx = self.v.x.mul(&self.v.x);
        let yy = self.v.y.mul(&self.v.y);
        let xy = self.v.x.mul(&self.v.y);
        let r = Complex { v: BigVec2 { x: xx.sub(&yy), y: xy.add(&xy) } };
        proof {
            xx.lemma_scaled_id();
            yy.lemma_scaled_id();
            xy.lemma_scaled_id();
        }
        r
    }

    /// The exact squared norm `x^2 + y^2`.
    pub fn norm_squared(&self) -> (r: BigReal)
        requires
            self.wf(),
            2 * self.frac() <= crate::bigreal::FRAC_CAP,
        ensures
            r.frac == 2 * self.frac(),
            r.num() == self.v.x.num() * self.v.x.num() + self.v.y.num() * self.v.y.num(),
            r.wf(),
    {
        let xx = self.v.x.mul(&self.v.x);
        let yy = self.v.y.mul(&self.v.y);
        let r = xx.add(&yy);
        proof {
            xx.lemma_scaled_id();
            yy.lemma_scaled_id();
        }
        r
    }

    /// Rescale both components to exactly `f` fractional bits.
    pub fn with_precision(&self, f: u32) -> (r: Complex)
        requires
            self.wf(),
            f <= crate::bigreal::FRAC_CAP,
        ensures
            r.frac() == f,
            r.wf(),
            self.frac() <= f ==> r.nums() == (
                self.v.x.scaled(f as int),
                self.v.y.scaled(f as int),
            ),
            self.frac() > f ==> r.nums() == (
                crate::fx::div_toward_zero(
                    self.v.x.num(),
                    vstd::arithmetic::power2::pow2((self.frac() - f) as nat) as int,
                ),
                crate::fx::div_toward_zero(
                    self.v.y.num(),
                    vstd::arithmetic::power2::pow2((self.frac() - f) as nat) as int,
                ),
            ),
    {
        Complex { v: self.v.with_precision(f) }
    }

    /// Saturating downcast to a machine-precision pair.
    pub fn as_fx2(&self) -> (r: FxComplex)
        requires
            self.wf(),
        ensures
            r.rep() == (self.v.x.to_fx_spec(), self.v.y.to_fx_spec()),
            r.wf(),
    {
        self.v.as_fx2()
    }
}

} // verus!
