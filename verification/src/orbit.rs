//! The reference-orbit computer.
//!
//! Iterates the primary camera's center at arbitrary precision, recording
//! each iterate downcast to machine precision. The downcast samples are the
//! single source of truth the perturbation kernel works against. The orbit is
//! rebuilt in full whenever the center, the iteration budget, the exponent or
//! the escape radius changes; it is never patched incrementally.

use crate::bigreal::{BigReal, FRAC_CAP};
use crate::complex::{Complex, FxComplex};
use crate::fx::{div_toward_zero, fx_clip, Fx, FX_FRAC_BITS};
use vstd::arithmetic::power2::pow2;
use vstd::prelude::*;

verus! {

/// One arbitrary-precision iteration step on numerators at scale `2^prec`:
/// square, add the center, and round back to `prec` fractional bits.
pub open spec fn ref_step_num(z: (int, int), c: (int, int), prec: nat) -> (int, int) {
    let sx = z.0 * z.0 - z.1 * z.1 + c.0 * pow2(prec);
    let sy = 2 * (z.0 * z.1) + c.1 * pow2(prec);
    (div_toward_zero(sx, pow2(prec) as int), div_toward_zero(sy, pow2(prec) as int))
}

/// Numerators of the `n`-th reference iterate at scale `2^prec`, seeded at
/// zero.
pub open spec fn ref_orbit_nums(c: (int, int), prec: nat, n: nat) -> (int, int)
    decreases n,
{
    if n == 0 {
        (0int, 0int)
    } else {
        ref_step_num(ref_orbit_nums(c, prec, (n - 1) as nat), c, prec)
    }
}

/// Whether a reference iterate has escaped: its squared norm (at scale
/// `2^(2*prec)`) reaches the squared escape radius (at scale `2^64`).
pub open spec fn ref_escaped(znum: (int, int), prec: nat, er_sq_num: int) -> bool
    recommends
        prec >= FX_FRAC_BITS,
{
    znum.0 * znum.0 + znum.1 * znum.1 >= er_sq_num * pow2((2 * prec - 64) as nat)
}

/// The number of reference iterations actually produced: the first index at
/// which the orbit escapes, capped by the iteration budget.
pub open spec fn ref_escape_count(c: (int, int), prec: nat, er_sq_num: int, fuel: nat, n: nat)
    -> nat
    decreases fuel,
{
    if fuel == 0 {
        n
    } else if ref_escaped(ref_orbit_nums(c, prec, n), prec, er_sq_num) {
        n
    } else {
        ref_escape_count(c, prec, er_sq_num, (fuel - 1) as nat, n + 1)
    }
}

/// The machine-precision downcast of a numerator at scale `2^prec`.
pub open spec fn num_to_fx(num: int, prec: nat) -> int
    recommends
        prec >= FX_FRAC_BITS,
{
    fx_clip(div_toward_zero(num, pow2((prec - FX_FRAC_BITS) as nat) as int))
}

/// A computed reference orbit: the downcast samples (one more than the count,
/// the final escaping sample included) and the iteration count.
pub struct ReferenceOrbit {
    pub points: Vec<FxComplex>,
    pub num_ref_iterations: u32,
}

impl ReferenceOrbit {
    /// Samples are in range and there is one more sample than the count.
    pub open spec fn wf(self) -> bool {
        &&& self.points@.len() == self.num_ref_iterations + 1
        &&& forall|k: int| 0 <= k < self.points@.len() ==> (#[trigger] self.points@[k]).wf()
    }
}

/// Iterate the center `c` at arbitrary precision until escape or the
/// iteration budget runs out, downcasting every iterate (the escaping one
/// included) to machine precision.
#[verifier::loop_isolation(false)]
pub fn compute_reference_orbit(c: &Complex, escape_radius: Fx, num_iters: u32, prec: u32) -> (r:
    ReferenceOrbit)
    requires
        c.wf(),
        c.frac() == prec,
        escape_radius.wf(),
        FX_FRAC_BITS <= prec,
        2 * prec <= FRAC_CAP,
    ensures
        ({
            let cn = c.nums();
            let er_sq = (escape_radius.raw as int) * (escape_radius.raw as int);
            &&& r.num_ref_iterations == ref_escape_count(
                cn,
                prec as nat,
                er_sq,
                num_iters as nat,
                0,
            )
            &&& r.points@.len() == r.num_ref_iterations + 1
            &&& forall|k: int|
                0 <= k < r.points@.len() ==> (#[trigger] r.points@[k]).rep() == (
                    num_to_fx(ref_orbit_nums(cn, prec as nat, k as nat).0, prec as nat),
                    num_to_fx(ref_orbit_nums(cn, prec as nat, k as nat).1, prec as nat),
                )
            &&& r.wf()
        }),
{
    let ghost cn = c.nums();
    let ghost pn = prec as nat;
    let er_b = BigReal::from_fx(escape_radius);
    let er_sq_b = er_b.mul(&er_b);
    let ghost er_sq = er_sq_b.num();
    let mut points: Vec<FxComplex> = Vec::new();
    let mut z = Complex::zero(prec);
    let mut i: u32 = 0;
    let mut escaped = {
        let nsq = z.norm_squared();
        !nsq.lt(&er_sq_b)
    };
    proof {
        z.v.x.lemma_scaled_id();
        z.v.y.lemma_scaled_id();
        lemma_norm_vs_er(z.nums(), pn, er_sq_b, escaped);
    }
    while !escaped && i < num_iters
        invariant
            i <= num_iters,
            z.wf(),
            z.frac() == prec,
            z.nums() == ref_orbit_nums(cn, pn, i as nat),
            points@.len() == i,
            forall|k: int|
                0 <= k < i ==> (#[trigger] points@[k]).rep() == (
                    num_to_fx(ref_orbit_nums(cn, pn, k as nat).0, pn),
                    num_to_fx(ref_orbit_nums(cn, pn, k as nat).1, pn),
                ),
            forall|k: int| 0 <= k < i ==> (#[trigger] points@[k]).wf(),
            escaped == ref_escaped(ref_orbit_nums(cn, pn, i as nat), pn, er_sq),
            ref_escape_count(cn, pn, er_sq, num_iters as nat, 0) == ref_escape_count(
                cn,
                pn,
                er_sq,
                (num_iters - i) as nat,
                i as nat,
            ),
        decreases num_iters - i,
    {
        points.push(z.as_fx2());
        proof {
            lemma_downcast(z, pn);
        }
        i = i + 1;
        let zsq = z.square();
        let zc = zsq.add(c);
        proof {
            zsq.v.x.lemma_scaled_id();
            zsq.v.y.lemma_scaled_id();
        }
        z = zc.with_precision(prec);
        escaped = {
            let nsq = z.norm_squared();
            !nsq.lt(&er_sq_b)
        };
        proof {
            z.v.x.lemma_scaled_id();
            z.v.y.lemma_scaled_id();
            lemma_norm_vs_er(z.nums(), pn, er_sq_b, escaped);
        }
    }
    points.push(z.as_fx2());
    proof {
        lemma_downcast(z, pn);
        assert(ref_escape_count(cn, pn, er_sq, (num_iters - i) as nat, i as nat) == i);
    }
    ReferenceOrbit { points, num_ref_iterations: i }
}

/// The comparison against the squared escape radius matches `ref_escaped`.
proof fn lemma_norm_vs_er(znum: (int, int), prec: nat, er_sq_b: BigReal, escaped: bool)
    requires
        er_sq_b.frac == 64,
        prec >= FX_FRAC_BITS,
        escaped == !({
            let m = if 2 * prec >= 64 {
                2 * prec
            } else {
                64nat
            };
            (znum.0 * znum.0 + znum.1 * znum.1) * pow2((m - 2 * prec) as nat) < er_sq_b.num()
                * pow2((m - 64) as nat)
        }),
    ensures
        escaped == ref_escaped(znum, prec, er_sq_b.num()),
{
    let n = znum.0 * znum.0 + znum.1 * znum.1;
    vstd::arithmetic::power2::lemma2_to64();
    assert(pow2(0) == 1);
    assert(n * 1 == n) by (nonlinear_arith);
}

/// Downcasting both components of a complex at precision `prec` gives the
/// `num_to_fx` values.
proof fn lemma_downcast(z: Complex, prec: nat)
    requires
        z.wf(),
        z.frac() == prec,
        prec >= FX_FRAC_BITS,
    ensures
        (z.v.x.to_fx_spec(), z.v.y.to_fx_spec()) == (
            num_to_fx(z.nums().0, prec),
            num_to_fx(z.nums().1, prec),
        ),
{
}

} // verus!
