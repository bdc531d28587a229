//! Interpolation and escape proximity.
//!
//! The fractional "proximity" value interpolates between two consecutive
//! squared-norm samples around the escape threshold, giving the 0..1 factor
//! used for smooth coloring across integer iteration boundaries. All results
//! are pinned down exactly over the fixed-point grid, and
//! `lemma_proximity_recovers_threshold` states the defining law: interpolating
//! the two samples quadratically by the proximity factor recovers the
//! threshold, up to the grid's truncation granularity.

use crate::fx::{
    fx_add_spec, fx_clip, fx_div_spec, fx_mul_spec, fx_sqrt_spec, fx_sub_spec, iabs, is_sqrt,
    lemma_sqrt_exists, sqrt_nat, Fx, FX_MAX_RAW, FX_SCALE,
};
use vstd::arithmetic::div_mod::{
    lemma_div_by_multiple, lemma_div_is_ordered, lemma_fundamental_div_mod,
};
use vstd::prelude::*;

verus! {

/// Raw magnitude below which fixed-point differences cannot saturate.
pub const FX_SAFE_RAW: i128 = 39614081257132168796771975168;

/// Linear interpolation `x*(1-a) + y*a` on the fixed-point grid.
pub open spec fn fx_lerp_spec(x: int, y: int, a: int) -> int {
    fx_add_spec(fx_mul_spec(x, FX_SCALE - a), fx_mul_spec(y, a))
}

/// Linear interpolation between `x` and `y` by the factor `a`.
pub fn lerp(x: Fx, y: Fx, a: Fx) -> (r: Fx)
    requires
        x.wf(),
        y.wf(),
        a.wf(),
        iabs(a.raw as int) <= FX_SCALE,
    ensures
        r.raw == fx_lerp_spec(x.raw as int, y.raw as int, a.raw as int),
        r.wf(),
{
    let one = Fx { raw: FX_SCALE };
    x.mul(one.sub(a)).add(y.mul(a))
}

/// The clamped interpolation parameter of `smoothstep`. Coinciding edges are
/// resolved as a step at the edge.
pub open spec fn fx_smoothstep_t(e0: int, e1: int, x: int) -> int {
    if e0 == e1 {
        if x < e0 {
            0
        } else {
            FX_SCALE as int
        }
    } else {
        let q = fx_div_spec(x - e0, e1 - e0);
        if q < 0 {
            0
        } else if q > FX_SCALE {
            FX_SCALE as int
        } else {
            q
        }
    }
}

/// The cubic Hermite smoothstep on the fixed-point grid.
pub open spec fn fx_smoothstep_spec(e0: int, e1: int, x: int) -> int {
    let t = fx_smoothstep_t(e0, e1, x);
    fx_mul_spec(fx_mul_spec(t, t), 3 * FX_SCALE - 2 * t)
}

/// Scale, bias and saturate `x` into the `e0..e1` range, then evaluate the
/// cubic `t*t*(3 - 2*t)`.
pub fn smoothstep(edge0: Fx, edge1: Fx, x: Fx) -> (r: Fx)
    requires
        iabs(edge0.raw as int) < FX_SAFE_RAW,
        iabs(edge1.raw as int) < FX_SAFE_RAW,
        iabs(x.raw as int) < FX_SAFE_RAW,
    ensures
        r.raw == fx_smoothstep_spec(edge0.raw as int, edge1.raw as int, x.raw as int),
        0 <= r.raw <= FX_SCALE,
        r.wf(),
{
    let d1 = x.sub(edge0);
    let d2 = edge1.sub(edge0);
    let t: Fx = if d2.raw == 0 {
        if x.raw < edge0.raw {
            Fx { raw: 0 }
        } else {
            Fx { raw: FX_SCALE }
        }
    } else {
        let q = d1.div(d2);
        if q.raw < 0 {
            Fx { raw: 0 }
        } else if q.raw > FX_SCALE {
            Fx { raw: FX_SCALE }
        } else {
            q
        }
    };
    let c = Fx { raw: 3 * FX_SCALE - 2 * t.raw };
    let tt = t.mul(t);
    let r = tt.mul(c);
    proof {
        let ti = t.raw as int;
        let ci = c.raw as int;
        let s = FX_SCALE as int;
        assert(0 <= ti <= s);
        assert(ti * ti <= s * s) by (nonlinear_arith)
            requires
                0 <= ti <= s,
        ;
        lemma_fundamental_div_mod(ti * ti, s);
        let tti = tt.raw as int;
        assert(tti == (ti * ti) / s);
        assert(0 <= tti && tti * s <= ti * ti) by (nonlinear_arith)
            requires
                tti == (ti * ti) / s,
                ti * ti == s * tti + (ti * ti) % s,
                0 <= (ti * ti) % s < s,
                s > 0,
        ;
        assert(s * s * s - ti * ti * ci == (s - ti) * (s - ti) * (s + 2 * ti))
            by (nonlinear_arith)
            requires
                ci == 3 * s - 2 * ti,
        ;
        assert(ti * ti * ci <= s * s * s) by (nonlinear_arith)
            requires
                s * s * s - ti * ti * ci == (s - ti) * (s - ti) * (s + 2 * ti),
                0 <= ti <= s,
        ;
        assert(tti * ci <= s * s) by (nonlinear_arith)
            requires
                tti * s <= ti * ti,
                ti * ti * ci <= s * s * s,
                0 <= ci,
                0 <= tti,
                s > 0,
        ;
        assert(0 <= tti * ci) by (nonlinear_arith)
            requires
                0 <= tti,
                0 <= ci,
        ;
        lemma_div_is_ordered(tti * ci, s * s, s);
        lemma_div_by_multiple(s, s);
        assert(0 <= (tti * ci) / s) by (nonlinear_arith)
            requires
                0 <= tti * ci,
                s > 0,
        ;
    }
    r
}

/// The exact value `get_proximity` returns, degenerate clamping included.
pub open spec fn proximity_spec(x: int, y: int, e: int) -> int {
    if e <= x {
        0
    } else if e > y {
        FX_SCALE as int
    } else if e - x >= y - x {
        FX_SCALE as int
    } else if e - x >= FX_MAX_RAW {
        FX_SCALE as int
    } else {
        fx_sqrt_spec(fx_div_spec(e - x, fx_clip(y - x)))
    }
}

/// The inverse-lerp-then-sqrt proximity: for samples `x < e <= y` around the
/// threshold `e`, the square root of `(e - x) / (y - x)`, a value in `[0, 1]`.
/// Degenerate sample pairs are clamped defensively: a threshold at or below
/// `x` gives `0`, one above `y` gives `1`.
pub fn get_proximity(x: Fx, y: Fx, e: Fx) -> (r: Fx)
    requires
        x.wf(),
        y.wf(),
        e.wf(),
    ensures
        r.raw == proximity_spec(x.raw as int, y.raw as int, e.raw as int),
        x.raw < e.raw <= y.raw && y.raw - x.raw < FX_MAX_RAW ==> r.raw == fx_sqrt_spec(
            fx_div_spec(e.raw - x.raw, y.raw - x.raw),
        ),
        0 <= r.raw <= FX_SCALE,
        r.wf(),
{
    if e.raw <= x.raw {
        return Fx { raw: 0 };
    }
    if e.raw > y.raw {
        return Fx { raw: FX_SCALE };
    }
    if e.raw - x.raw >= y.raw - x.raw {
        proof {
            if y.raw - x.raw < FX_MAX_RAW {
                let di = y.raw - x.raw;
                lemma_div_by_multiple(FX_SCALE as int, di);
                assert(di * FX_SCALE == FX_SCALE * di);
                assert(fx_div_spec(di, di) == FX_SCALE);
                let n = (FX_SCALE * FX_SCALE) as nat;
                lemma_sqrt_exists(n);
                assert((FX_SCALE + 1) * (FX_SCALE + 1) > FX_SCALE * FX_SCALE)
                    by (nonlinear_arith);
                assert(is_sqrt(FX_SCALE as nat, n));
                assert(sqrt_nat(n) * sqrt_nat(n) <= n < (sqrt_nat(n) + 1) * (sqrt_nat(n)
                    + 1));
                assert(sqrt_nat(n) == FX_SCALE) by (nonlinear_arith)
                    requires
                        sqrt_nat(n) * sqrt_nat(n) <= n < (sqrt_nat(n) + 1) * (sqrt_nat(n) + 1),
                        (FX_SCALE as nat) * (FX_SCALE as nat) <= n < ((FX_SCALE as nat) + 1) * (
                        (FX_SCALE as nat) + 1),
                ;
            }
        }
        return Fx { raw: FX_SCALE };
    }
    if e.raw - x.raw >= FX_MAX_RAW {
        return Fx { raw: FX_SCALE };
    }
    let t = e.sub(x);
    let d = y.sub(x);
    let q = t.div(d);
    proof {
        let ti = t.raw as int;
        let di = d.raw as int;
        lemma_div_is_ordered(ti * FX_SCALE, di * FX_SCALE, di);
        assert(ti * FX_SCALE <= di * FX_SCALE) by (nonlinear_arith)
            requires
                0 < ti <= di,
        ;
        lemma_div_by_multiple(FX_SCALE as int, di);
        assert(di * FX_SCALE == FX_SCALE * di);
        assert(0 <= (ti * FX_SCALE) / di) by (nonlinear_arith)
            requires
                ti > 0,
                di > 0,
        ;
        if y.raw - x.raw < FX_MAX_RAW {
            assert(q.raw == fx_div_spec(e.raw - x.raw, y.raw - x.raw));
        }
    }
    let r = q.sqrt();
    proof {
        let qi = q.raw as int;
        if qi > 0 {
            let n = (qi * FX_SCALE) as nat;
            let s = sqrt_nat(n) as int;
            lemma_sqrt_exists(n);
            assert(s <= FX_SCALE) by (nonlinear_arith)
                requires
                    s * s <= n,
                    n <= FX_SCALE * FX_SCALE,
                    s >= 0,
            ;
        }
    }
    r
}

/// Law: the proximity factor is the inverse interpolation of the threshold.
/// Quadratically interpolating the two samples `x..y` by the returned factor
/// `r / FX_SCALE` recovers the threshold `e` exactly up to one truncation step
/// of the fixed-point grid: writing `d = y - x` and `t = e - x`, the square of
/// the factor brackets `t / d` from below within `1/FX_SCALE`.
pub proof fn lemma_proximity_recovers_threshold(x: int, y: int, e: int, r: int)
    requires
        x < e <= y,
        y - x < FX_MAX_RAW,
        r == fx_sqrt_spec(fx_div_spec(e - x, y - x)),
    ensures
        (y - x) * (r * r) <= (e - x) * (FX_SCALE * FX_SCALE),
        (e - x) * (FX_SCALE * FX_SCALE) < (y - x) * ((r + 1) * (r + 1)) + (y - x) * FX_SCALE,
{
    let t = e - x;
    let d = y - x;
    let q = (t * FX_SCALE) / d;
    lemma_fundamental_div_mod(t * FX_SCALE, d);
    assert(t * FX_SCALE > 0) by (nonlinear_arith)
        requires
            t > 0,
    ;
    assert(0 <= q) by {
        assert(d * q + (t * FX_SCALE) % d == t * FX_SCALE);
        assert(q >= 0) by (nonlinear_arith)
            requires
                d * q + (t * FX_SCALE) % d == t * FX_SCALE,
                0 <= (t * FX_SCALE) % d < d,
                t * FX_SCALE > 0,
                d > 0,
        ;
    }
    assert(q <= FX_SCALE) by {
        lemma_div_is_ordered(t * FX_SCALE, d * FX_SCALE, d);
        assert(t * FX_SCALE <= d * FX_SCALE) by (nonlinear_arith)
            requires
                0 < t <= d,
        ;
        lemma_div_by_multiple(FX_SCALE as int, d);
        assert(d * FX_SCALE == FX_SCALE * d);
    }
    assert(fx_div_spec(t, d) == q);
    if q == 0 {
        assert(r == 0);
        assert(d * (0 * 0) <= t * (FX_SCALE * FX_SCALE)) by (nonlinear_arith)
            requires
                t > 0,
                d > 0,
        ;
        assert(t * FX_SCALE < d * q + d) by {
            assert(d * q + (t * FX_SCALE) % d == t * FX_SCALE);
        }
        assert(t * (FX_SCALE * FX_SCALE) < d * ((r + 1) * (r + 1)) + d * FX_SCALE)
            by (nonlinear_arith)
            requires
                r == 0,
                t * FX_SCALE < d * q + d,
                q == 0,
                d > 0,
        ;
    } else {
        let n = (q * FX_SCALE) as nat;
        assert(r == sqrt_nat(n) as int);
        lemma_sqrt_exists(n);
        assert(r * r <= q * FX_SCALE < (r + 1) * (r + 1));
        assert(d * q <= t * FX_SCALE) by {
            assert(d * q + (t * FX_SCALE) % d == t * FX_SCALE);
        }
        assert(t * FX_SCALE < d * q + d) by {
            assert(d * q + (t * FX_SCALE) % d == t * FX_SCALE);
        }
        assert(d * (r * r) <= t * (FX_SCALE * FX_SCALE)) by (nonlinear_arith)
            requires
                r * r <= q * FX_SCALE,
                d * q <= t * FX_SCALE,
                d > 0,
                FX_SCALE > 0,
        ;
        assert(t * (FX_SCALE * FX_SCALE) < d * ((r + 1) * (r + 1)) + d * FX_SCALE)
            by (nonlinear_arith)
            requires
                q * FX_SCALE < (r + 1) * (r + 1),
                t * FX_SCALE < d * q + d,
                d > 0,
                FX_SCALE > 0,
        ;
    }
}

} // verus!
