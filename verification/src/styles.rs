//! Escape-statistic reductions.
//!
//! Each render style folds the stream of iterates into a pair
//! `(value before the last step, value at the last step)`; downstream
//! coloring interpolates the pair by the proximity-derived smoothing factor.
//! The folds and the fixed-point `atan2` approximation are mirrored exactly
//! by spec functions, so every cached cell value is pinned down.

use crate::complex::{c_distance_spec, c_norm_sq_spec, FxComplex};
use crate::fx::{fx_add_spec, fx_div_spec, iabs, Fx, FX_SCALE};
use crate::kernel::IterationTrace;
use crate::params::{
    smoothing_spec, suppressed_spec, FragmentConstants, RenderParameters, RenderStyle,
};
use vstd::prelude::*;

verus! {

/// `pi` in raw fixed-point units.
pub const PI_RAW: i128 = 13493037705;

/// `pi / 2` in raw fixed-point units.
pub const HALF_PI_RAW: i128 = 6746518852;

/// `pi / 4` in raw fixed-point units.
pub const QUARTER_PI_RAW: i128 = 3373259426;

/// The correction coefficient (about `0.273`) of the arctangent
/// approximation, in raw fixed-point units.
pub const ATAN_K_RAW: i128 = 1172526041;

/// The arctangent approximation on `[0, 1]`:
/// `t*(pi/4) + 0.273*t*(1 - t)`.
pub open spec fn atan01_spec(t: int) -> int {
    fx_add_spec(
        crate::fx::fx_mul_spec(QUARTER_PI_RAW as int, t),
        crate::fx::fx_mul_spec(crate::fx::fx_mul_spec(ATAN_K_RAW as int, t), FX_SCALE - t),
    )
}

/// The fixed-point two-argument arctangent, by octant reduction over the
/// `[0, 1]` approximation; zero at the origin.
pub open spec fn atan2_spec(y: int, x: int) -> int {
    if x == 0 && y == 0 {
        0
    } else {
        let ax = iabs(x);
        let ay = iabs(y);
        let base = if ax >= ay {
            if ax == ay {
                atan01_spec(FX_SCALE as int)
            } else {
                atan01_spec(fx_div_spec(ay, ax))
            }
        } else {
            HALF_PI_RAW - atan01_spec(fx_div_spec(ax, ay))
        };
        let swung = if x < 0 {
            PI_RAW - base
        } else {
            base
        };
        if y < 0 {
            -swung
        } else {
            swung
        }
    }
}

/// Multiplying a value in `[0, 1]` against a nonnegative factor stays within
/// the factor.
proof fn lemma_mul_frac_le(a: int, b: int)
    requires
        0 <= a,
        0 <= b <= FX_SCALE,
    ensures
        0 <= crate::fx::fx_mul_spec(a, b) <= a,
{
    assert(0 <= a * b <= a * FX_SCALE) by (nonlinear_arith)
        requires
            0 <= a,
            0 <= b <= FX_SCALE,
    ;
    vstd::arithmetic::div_mod::lemma_div_is_ordered(a * b, a * FX_SCALE, FX_SCALE as int);
    vstd::arithmetic::div_mod::lemma_div_by_multiple(a, FX_SCALE as int);
    assert(0 <= (a * b) / (FX_SCALE as int)) by (nonlinear_arith)
        requires
            0 <= a * b,
            FX_SCALE > 0,
    ;
}

/// The `[0, 1]` arctangent approximation.
fn atan01(t: Fx) -> (r: Fx)
    requires
        0 <= t.raw <= FX_SCALE,
    ensures
        r.raw == atan01_spec(t.raw as int),
        0 <= r.raw <= HALF_PI_RAW,
        r.wf(),
{
    let a = Fx { raw: QUARTER_PI_RAW }.mul(t);
    let b = Fx { raw: ATAN_K_RAW }.mul(t).mul(Fx { raw: FX_SCALE }.sub(t));
    proof {
        lemma_mul_frac_le(QUARTER_PI_RAW as int, t.raw as int);
        lemma_mul_frac_le(ATAN_K_RAW as int, t.raw as int);
        lemma_mul_frac_le(
            crate::fx::fx_mul_spec(ATAN_K_RAW as int, t.raw as int),
            FX_SCALE - t.raw,
        );
    }
    a.add(b)
}

/// The fixed-point two-argument arctangent; the result is in `[-pi, pi]`.
pub fn atan2_fx(y: Fx, x: Fx) -> (r: Fx)
    requires
        x.wf(),
        y.wf(),
    ensures
        r.raw == atan2_spec(y.raw as int, x.raw as int),
        -PI_RAW <= r.raw <= PI_RAW,
        r.wf(),
{
    if x.raw == 0 && y.raw == 0 {
        return Fx { raw: 0 };
    }
    let ax = x.abs();
    let ay = y.abs();
    let base: Fx = if ax.raw >= ay.raw {
        if ax.raw == ay.raw {
            atan01(Fx { raw: FX_SCALE })
        } else {
            let t = ay.div(ax);
            proof {
                lemma_ratio_le_one(ay.raw as int, ax.raw as int);
            }
            atan01(t)
        }
    } else {
        let t = ax.div(ay);
        proof {
            lemma_ratio_le_one(ax.raw as int, ay.raw as int);
        }
        Fx { raw: HALF_PI_RAW }.sub(atan01(t))
    };
    let swung: Fx = if x.raw < 0 {
        Fx { raw: PI_RAW }.sub(base)
    } else {
        base
    };
    if y.raw < 0 {
        swung.neg()
    } else {
        swung
    }
}

/// A quotient of a smaller by a larger magnitude is a fraction in `[0, 1]`.
proof fn lemma_ratio_le_one(a: int, b: int)
    requires
        0 <= a < b,
    ensures
        0 <= fx_div_spec(a, b) <= FX_SCALE,
{
    assert(0 <= a * FX_SCALE <= b * FX_SCALE) by (nonlinear_arith)
        requires
            0 <= a <= b,
    ;
    vstd::arithmetic::div_mod::lemma_div_is_ordered(a * FX_SCALE, b * FX_SCALE, b);
    vstd::arithmetic::div_mod::lemma_div_by_multiple(FX_SCALE as int, b);
    assert(b * FX_SCALE == FX_SCALE * b);
    assert(0 <= (a * FX_SCALE) / b) by (nonlinear_arith)
        requires
            0 <= a * FX_SCALE,
            b > 0,
    ;
}

impl FxComplex {
    /// The argument (phase angle) of the complex number.
    pub fn arg(self) -> (r: Fx)
        requires
            self.wf(),
        ensures
            r.raw == atan2_spec(self.y.raw as int, self.x.raw as int),
            -PI_RAW <= r.raw <= PI_RAW,
            r.wf(),
    {
        atan2_fx(self.y, self.x)
    }
}

/// The iterate stream with its seed: index `0` is `z0`, index `j >= 1` is the
/// `j`-th produced iterate, and negative indices are the zero padding the
/// window-based reductions start from.
pub open spec fn stream_at(z0: (int, int), zs: Seq<(int, int)>, j: int) -> (int, int) {
    if j < 0 {
        (0int, 0int)
    } else if j == 0 {
        z0
    } else {
        zs[j - 1]
    }
}

/// The running distance sum after `k` iterates (the walk starts at the
/// origin, as the reduction seeds its previous point with zero).
pub open spec fn dist_sum_spec(zs: Seq<(int, int)>, k: nat) -> int
    decreases k,
{
    if k == 0 {
        0
    } else {
        let prev = if k == 1 {
            (0int, 0int)
        } else {
            zs[k - 2]
        };
        fx_add_spec(dist_sum_spec(zs, (k - 1) as nat), c_distance_spec(prev, zs[k - 1]))
    }
}

/// The running norm sum after `k` iterates.
pub open spec fn norm_sum_spec(zs: Seq<(int, int)>, k: nat) -> int
    decreases k,
{
    if k == 0 {
        0
    } else {
        fx_add_spec(
            norm_sum_spec(zs, (k - 1) as nat),
            crate::fx::fx_sqrt_spec(c_norm_sq_spec(zs[k - 1])),
        )
    }
}

/// The running sum of absolute arguments after `k` iterates.
pub open spec fn angle_sum_spec(zs: Seq<(int, int)>, k: nat) -> int
    decreases k,
{
    if k == 0 {
        0
    } else {
        fx_add_spec(
            angle_sum_spec(zs, (k - 1) as nat),
            iabs(atan2_spec(zs[k - 1].1, zs[k - 1].0)),
        )
    }
}

/// The `(x0, x1)` pair a render style reduces the stream to.
pub open spec fn style_values_spec(
    style: RenderStyle,
    z0: (int, int),
    zs: Seq<(int, int)>,
    n: nat,
) -> (int, int) {
    match style {
        RenderStyle::Iterations => (
            (n as int) * (FX_SCALE as int),
            (n as int + 1) * (FX_SCALE as int),
        ),
        RenderStyle::FinalAngle => (
            iabs(atan2_spec(stream_at(z0, zs, n - 1).1, stream_at(z0, zs, n - 1).0)),
            iabs(atan2_spec(stream_at(z0, zs, n as int).1, stream_at(z0, zs, n as int).0)),
        ),
        RenderStyle::FinalDistance => (
            c_distance_spec(stream_at(z0, zs, n - 2), stream_at(z0, zs, n - 1)),
            c_distance_spec(stream_at(z0, zs, n - 1), stream_at(z0, zs, n as int)),
        ),
        RenderStyle::DistanceSum => (
            dist_sum_spec(zs, if n == 0 { 0 } else { (n - 1) as nat }),
            dist_sum_spec(zs, n),
        ),
        RenderStyle::NormSum => (
            norm_sum_spec(zs, if n == 0 { 0 } else { (n - 1) as nat }),
            norm_sum_spec(zs, n),
        ),
        RenderStyle::FinalNorm => (
            crate::fx::fx_sqrt_spec(c_norm_sq_spec(stream_at(z0, zs, n - 1))),
            crate::fx::fx_sqrt_spec(c_norm_sq_spec(stream_at(z0, zs, n as int))),
        ),
        RenderStyle::AngleSum => (
            angle_sum_spec(zs, if n == 0 { 0 } else { (n - 1) as nat }),
            angle_sum_spec(zs, n),
        ),
    }
}

/// The cell a pixel's trace reduces to under the selected style.
pub open spec fn cell_spec(
    cts: FragmentConstants,
    z0: (int, int),
    zs: Seq<(int, int)>,
    n: nat,
    inside: bool,
    prox: int,
) -> RenderParameters {
    let vals = style_values_spec(cts.render_style, z0, zs, n);
    RenderParameters {
        i: if suppressed_spec(cts, inside) {
            u32::MAX
        } else {
            n as u32
        },
        x: Fx { raw: crate::proximity::fx_lerp_spec(
            vals.0,
            vals.1,
            smoothing_spec(cts, inside, prox),
        ) as i128 },
    }
}

/// Reduce a finished trace to its cached render-parameter cell under the
/// frame's selected style.
#[verifier::loop_isolation(false)]
pub fn get_render_parameters(cts: &FragmentConstants, z0: FxComplex, trace: &IterationTrace) -> (r:
    RenderParameters)
    requires
        cts.wf(),
        z0.wf(),
        trace.wf(),
    ensures
        r == cell_spec(
            *cts,
            z0.rep(),
            crate::kernel::seq_reps(trace.zs@),
            trace.count as nat,
            trace.inside,
            trace.prox.raw as int,
        ),
{
    let ghost zsr = crate::kernel::seq_reps(trace.zs@);
    let ghost n = trace.count as nat;
    let n_exec = trace.count;
    let x0: Fx;
    let x1: Fx;
    match cts.render_style {
        RenderStyle::Iterations => {
            x0 = Fx::from_i64(n_exec as i64);
            x1 = Fx::from_i64(n_exec as i64 + 1);
        },
        RenderStyle::FinalAngle => {
            let a = stream_elem(z0, &trace.zs, n_exec, 1);
            let b = stream_elem(z0, &trace.zs, n_exec, 0);
            x0 = a.arg().abs();
            x1 = b.arg().abs();
        },
        RenderStyle::FinalDistance => {
            let a = stream_elem(z0, &trace.zs, n_exec, 2);
            let b = stream_elem(z0, &trace.zs, n_exec, 1);
            let c = stream_elem(z0, &trace.zs, n_exec, 0);
            x0 = a.distance(b);
            x1 = b.distance(c);
        },
        RenderStyle::FinalNorm => {
            let a = stream_elem(z0, &trace.zs, n_exec, 1);
            let b = stream_elem(z0, &trace.zs, n_exec, 0);
            x0 = a.norm();
            x1 = b.norm();
        },
        RenderStyle::DistanceSum => {
            let mut sum = Fx { raw: 0 };
            let mut prev_sum = Fx { raw: 0 };
            let mut prev_z = FxComplex::zero();
            let mut k: usize = 0;
            while k < trace.zs.len()
                invariant
                    k <= trace.zs@.len(),
                    sum.raw == dist_sum_spec(zsr, k as nat),
                    prev_sum.raw == dist_sum_spec(
                        zsr,
                        if k == 0 {
                            0nat
                        } else {
                            (k - 1) as nat
                        },
                    ),
                    prev_z.wf(),
                    prev_z.rep() == if k == 0 {
                        (0int, 0int)
                    } else {
                        zsr[k - 1]
                    },
                    sum.wf(),
                    prev_sum.wf(),
                decreases trace.zs@.len() - k,
            {
                let z = trace.zs[k];
                prev_sum = sum;
                sum = sum.add(prev_z.distance(z));
                prev_z = z;
                k = k + 1;
            }
            x0 = prev_sum;
            x1 = sum;
        },
        RenderStyle::NormSum => {
            let mut sum = Fx { raw: 0 };
            let mut prev_sum = Fx { raw: 0 };
            let mut k: usize = 0;
            while k < trace.zs.len()
                invariant
                    k <= trace.zs@.len(),
                    sum.raw == norm_sum_spec(zsr, k as nat),
                    prev_sum.raw == norm_sum_spec(
                        zsr,
                        if k == 0 {
                            0nat
                        } else {
                            (k - 1) as nat
                        },
                    ),
                    sum.wf(),
                    prev_sum.wf(),
                decreases trace.zs@.len() - k,
            {
                let z = trace.zs[k];
                prev_sum = sum;
                sum = sum.add(z.norm());
                k = k + 1;
            }
            x0 = prev_sum;
            x1 = sum;
        },
        RenderStyle::AngleSum => {
            let mut sum = Fx { raw: 0 };
            let mut prev_sum = Fx { raw: 0 };
            let mut k: usize = 0;
            while k < trace.zs.len()
                invariant
                    k <= trace.zs@.len(),
                    sum.raw == angle_sum_spec(zsr, k as nat),
                    prev_sum.raw == angle_sum_spec(
                        zsr,
                        if k == 0 {
                            0nat
                        } else {
                            (k - 1) as nat
                        },
                    ),
                    sum.wf(),
                    prev_sum.wf(),
                decreases trace.zs@.len() - k,
            {
                let z = trace.zs[k];
                prev_sum = sum;
                sum = sum.add(z.arg().abs());
                k = k + 1;
            }
            x0 = prev_sum;
            x1 = sum;
        },
    }
    RenderParameters::new(cts, trace.inside, n_exec, trace.prox, x0, x1)
}

/// The stream element `back` steps before the final iterate: reads the
/// recorded iterates, falling back to the seed and then to zero padding.
fn stream_elem(z0: FxComplex, zs: &Vec<FxComplex>, n: u32, back: u32) -> (r: FxComplex)
    requires
        z0.wf(),
        zs@.len() == n,
        forall|k: int| 0 <= k < zs@.len() ==> (#[trigger] zs@[k]).wf(),
    ensures
        r.rep() == stream_at(z0.rep(), crate::kernel::seq_reps(zs@), n - back),
        r.wf(),
{
    if back > n {
        FxComplex::zero()
    } else if back == n {
        z0
    } else {
        zs[(n - back - 1) as usize]
    }
}

} // verus!
