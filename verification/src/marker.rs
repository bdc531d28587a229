//! The marker orbit iterator.
//!
//! For one tracked plane point, iterates the escape-time recurrence at
//! machine precision, recording every intermediate point for overlay
//! rendering together with accumulated trajectory statistics. The folds are
//! mirrored exactly by spec functions over the direct-orbit recurrence.

use crate::complex::{c_distance_spec, c_norm_sq_spec, c_sub_spec, FxComplex};
use crate::fx::{fx_add_spec, fx_mul_spec, fx_sqrt_spec, fx_sub_spec, Fx, FX_SCALE};
use crate::kernel::reg_orbit_spec;
use crate::proximity::{get_proximity, proximity_spec};
use crate::styles::atan2_spec;
use vstd::prelude::*;

verus! {

/// Norm at which the overlay extension past the escape point stops.
pub const TAIL_NORM_RAW: i128 = 42949672960000;

/// Accumulated trajectory statistics of one tracked point.
#[derive(Clone, Copy, Debug)]
pub struct MarkerIterationStats {
    pub final_norm: Fx,
    pub final_distance: Fx,
    pub final_angle: Fx,
    pub angle_sum: Fx,
    pub distance_sum: Fx,
    pub norm_sum: Fx,
    pub proximity: Fx,
    pub count: u32,
}

/// The exterior angle turned at `b` when walking `a -> b -> c`.
pub open spec fn turn_angle_spec(a: (int, int), b: (int, int), c: (int, int)) -> int {
    let ab = c_sub_spec(b, a);
    let bc = c_sub_spec(c, b);
    let cross = fx_sub_spec(fx_mul_spec(ab.0, bc.1), fx_mul_spec(ab.1, bc.0));
    let dot = fx_add_spec(fx_mul_spec(ab.0, bc.0), fx_mul_spec(ab.1, bc.1));
    atan2_spec(cross, dot)
}

/// The signed angle at `b` between the segments `a->b` and `b->c`.
pub fn angle_between_three_points(a: FxComplex, b: FxComplex, c: FxComplex) -> (r: Fx)
    requires
        a.wf(),
        b.wf(),
        c.wf(),
    ensures
        r.raw == turn_angle_spec(a.rep(), b.rep(), c.rep()),
        r.wf(),
{
    let ab = b.sub(a);
    let bc = c.sub(b);
    let cross = ab.x.mul(bc.y).sub(ab.y.mul(bc.x));
    let dot = ab.x.mul(bc.x).add(ab.y.mul(bc.y));
    crate::styles::atan2_fx(cross, dot)
}

/// The marker-orbit point walked through at step `j`: the orbit sample for
/// `j >= 0`, seeded with the sentinel `(-1, 0)` one step before the start.
pub open spec fn m_point(c: (int, int), p: nat, j: int) -> (int, int) {
    if j < 0 {
        (-(FX_SCALE as int), 0int)
    } else {
        reg_orbit_spec((0int, 0int), c, p, j as nat)
    }
}

/// The running distance sum after `k` marker steps.
pub open spec fn m_dist_sum(c: (int, int), p: nat, k: nat) -> int
    decreases k,
{
    if k == 0 {
        0
    } else {
        fx_add_spec(
            m_dist_sum(c, p, (k - 1) as nat),
            c_distance_spec(m_point(c, p, k - 1), m_point(c, p, k as int)),
        )
    }
}

/// The running norm sum after `k` marker steps.
pub open spec fn m_norm_sum(c: (int, int), p: nat, k: nat) -> int
    decreases k,
{
    if k == 0 {
        0
    } else {
        fx_add_spec(
            m_norm_sum(c, p, (k - 1) as nat),
            fx_sqrt_spec(c_norm_sq_spec(m_point(c, p, k as int))),
        )
    }
}

/// The running turn-angle sum after `k` marker steps.
pub open spec fn m_angle_sum(c: (int, int), p: nat, k: nat) -> int
    decreases k,
{
    if k == 0 {
        0
    } else {
        fx_add_spec(
            m_angle_sum(c, p, (k - 1) as nat),
            turn_angle_spec(m_point(c, p, k - 2), m_point(c, p, k - 1), m_point(c, p, k as int)),
        )
    }
}

/// Whether the marker orbit has escaped at step `n`: its norm (not its
/// square) reaches the escape radius.
pub open spec fn m_escaped(c: (int, int), p: nat, er: int, n: nat) -> bool {
    fx_sqrt_spec(c_norm_sq_spec(reg_orbit_spec((0int, 0int), c, p, n))) >= er
}

/// The step at which the marker iteration stops: the first escaped step, or
/// the cap.
pub open spec fn m_count(c: (int, int), p: nat, er: int, fuel: nat, n: nat) -> nat
    decreases fuel,
{
    if fuel == 0 {
        n
    } else if m_escaped(c, p, er, n) {
        n
    } else {
        m_count(c, p, er, (fuel - 1) as nat, n + 1)
    }
}

/// Iterate the marker point, recording every intermediate point and the
/// accumulated statistics. Past the escape point, recording continues until
/// the orbit leaves the overlay region, so the displayed trajectory does not
/// stop abruptly at the escape circle.
#[verifier::loop_isolation(false)]
pub fn compute_marker_orbit(c: FxComplex, num_iters: u32, exponent: u32, escape_radius: Fx) -> (r:
    (Vec<FxComplex>, MarkerIterationStats))
    requires
        c.wf(),
        escape_radius.wf(),
        0 < escape_radius.raw,
        1 <= exponent,
    ensures
        ({
            let cr = c.rep();
            let p = exponent as nat;
            let er = escape_radius.raw as int;
            let n = m_count(cr, p, er, num_iters as nat, 0);
            &&& 1 <= r.0@.len() <= num_iters + 1
            &&& forall|k: int|
                0 <= k < r.0@.len() ==> (#[trigger] r.0@[k]).rep() == reg_orbit_spec(
                    (0int, 0int),
                    cr,
                    p,
                    k as nat,
                )
            &&& r.1.count == n
            &&& r.1.distance_sum.raw == m_dist_sum(cr, p, n)
            &&& r.1.norm_sum.raw == m_norm_sum(cr, p, n)
            &&& r.1.angle_sum.raw == m_angle_sum(cr, p, n)
            &&& r.1.final_norm.raw == fx_sqrt_spec(
                c_norm_sq_spec(reg_orbit_spec((0int, 0int), cr, p, n)),
            )
            &&& n >= 1 ==> r.1.final_distance.raw == c_distance_spec(
                reg_orbit_spec((0int, 0int), cr, p, (n - 1) as nat),
                reg_orbit_spec((0int, 0int), cr, p, n),
            )
            &&& n >= 1 ==> r.1.final_angle.raw == atan2_spec(
                reg_orbit_spec((0int, 0int), cr, p, n).1,
                reg_orbit_spec((0int, 0int), cr, p, n).0,
            )
            &&& r.1.proximity.raw == proximity_spec(
                fx_sqrt_spec(
                    c_norm_sq_spec(
                        reg_orbit_spec(
                            (0int, 0int),
                            cr,
                            p,
                            if n == 0 {
                                0nat
                            } else {
                                (n - 1) as nat
                            },
                        ),
                    ),
                ),
                fx_sqrt_spec(c_norm_sq_spec(reg_orbit_spec((0int, 0int), cr, p, n))),
                er,
            )
        }),
{
    let ghost cr = c.rep();
    let ghost p = exponent as nat;
    let ghost er = escape_radius.raw as int;
    let mut points: Vec<FxComplex> = Vec::new();
    let mut z = FxComplex::zero();
    points.push(z);
    let mut prev_prev_z = FxComplex::new(Fx { raw: -FX_SCALE }, Fx { raw: 0 });
    let mut prev_z = FxComplex::new(Fx { raw: -FX_SCALE }, Fx { raw: 0 });
    let mut stats = MarkerIterationStats {
        final_norm: Fx { raw: 0 },
        final_distance: Fx { raw: 0 },
        final_angle: Fx { raw: 0 },
        angle_sum: Fx { raw: 0 },
        distance_sum: Fx { raw: 0 },
        norm_sum: Fx { raw: 0 },
        proximity: Fx { raw: 0 },
        count: 0,
    };
    let mut prev_norm = Fx { raw: 0 };
    let mut norm = z.norm_squared().sqrt();
    let mut i: u32 = 0;
    proof {
        assert(c_norm_sq_spec((0int, 0int)) == 0);
        assert(fx_sqrt_spec(0) == 0);
    }
    while norm.raw < escape_radius.raw && i < num_iters
        invariant
            i <= num_iters,
            z.wf(),
            z.rep() == reg_orbit_spec((0int, 0int), cr, p, i as nat),
            prev_z.wf(),
            prev_z.rep() == m_point(cr, p, i - 1),
            prev_prev_z.wf(),
            prev_prev_z.rep() == m_point(cr, p, i - 2),
            points@.len() == i + 1,
            forall|k: int|
                0 <= k < points@.len() ==> (#[trigger] points@[k]).rep() == reg_orbit_spec(
                    (0int, 0int),
                    cr,
                    p,
                    k as nat,
                ),
            norm.wf(),
            norm.raw == fx_sqrt_spec(c_norm_sq_spec(z.rep())),
            prev_norm.wf(),
            prev_norm.raw == fx_sqrt_spec(
                c_norm_sq_spec(
                    reg_orbit_spec(
                        (0int, 0int),
                        cr,
                        p,
                        if i == 0 {
                            0nat
                        } else {
                            (i - 1) as nat
                        },
                    ),
                ),
            ),
            stats.distance_sum.wf(),
            stats.distance_sum.raw == m_dist_sum(cr, p, i as nat),
            stats.norm_sum.wf(),
            stats.norm_sum.raw == m_norm_sum(cr, p, i as nat),
            stats.angle_sum.wf(),
            stats.angle_sum.raw == m_angle_sum(cr, p, i as nat),
            m_count(cr, p, er, num_iters as nat, 0) == m_count(
                cr,
                p,
                er,
                (num_iters - i) as nat,
                i as nat,
            ),
        decreases num_iters - i,
    {
        prev_prev_z = prev_z;
        prev_z = z;
        z = z.step(c, exponent);
        i = i + 1;
        stats.angle_sum = stats.angle_sum.add(
            angle_between_three_points(prev_prev_z, prev_z, z),
        );
        stats.distance_sum = stats.distance_sum.add(prev_z.distance(z));
        prev_norm = norm;
        norm = z.norm_squared().sqrt();
        stats.norm_sum = stats.norm_sum.add(norm);
        points.push(z);
    }
    proof {
        assert(m_count(cr, p, er, (num_iters - i) as nat, i as nat) == i);
    }
    stats.final_distance = prev_z.distance(z);
    stats.final_angle = z.arg();
    stats.count = i;
    stats.final_norm = norm;
    stats.proximity = get_proximity(prev_norm, norm, escape_radius);
    let tail_bound: Fx = if escape_radius.raw >= TAIL_NORM_RAW {
        escape_radius
    } else {
        Fx { raw: TAIL_NORM_RAW }
    };
    while norm.raw < tail_bound.raw && i < num_iters
        invariant
            i <= num_iters,
            z.wf(),
            z.rep() == reg_orbit_spec((0int, 0int), cr, p, i as nat),
            points@.len() == i + 1,
            forall|k: int|
                0 <= k < points@.len() ==> (#[trigger] points@[k]).rep() == reg_orbit_spec(
                    (0int, 0int),
                    cr,
                    p,
                    k as nat,
                ),
            norm.wf(),
            norm.raw == fx_sqrt_spec(c_norm_sq_spec(z.rep())),
        decreases num_iters - i,
    {
        z = z.step(c, exponent);
        norm = z.norm_squared().sqrt();
        points.push(z);
        i = i + 1;
    }
    (points, stats)
}

} // verus!
