//! The escape-time iteration kernels.
//!
//! `iterate_regular` runs the direct recurrence `z <- z^p + c` at machine
//! precision; `iterate_perturbed` runs the perturbation recurrence around a
//! reference orbit, rebasing whenever the delta dominates or the orbit is
//! exhausted. Both produce an `IterationTrace`: every iterate (the stream the
//! statistic reductions fold over), the escape count, the inside flag and the
//! escape proximity — each pinned down exactly by the spec-level recurrences
//! in this module.

use crate::complex::{
    c_add_spec, c_double_spec, c_mul_spec, c_norm_sq_spec, c_square_spec, FxComplex,
};
use crate::fx::{fx_mul_spec, fx_sqrt_spec, iabs, Fx, FX_MAX_RAW, FX_SCALE};
use crate::params::{fx_floor_u32, FragmentConstants};
use crate::proximity::{get_proximity, proximity_spec};
use vstd::prelude::*;

verus! {

/// `z^p` on the fixed-point grid, folded as repeated multiplication from the
/// left; exponents below 2 leave `z` unchanged.
pub open spec fn c_pow_spec(z: (int, int), p: nat) -> (int, int)
    decreases p,
{
    if p <= 1 {
        z
    } else {
        c_mul_spec(c_pow_spec(z, (p - 1) as nat), z)
    }
}

/// One iteration step `z^p + c`.
pub open spec fn step_spec(z: (int, int), c: (int, int), p: nat) -> (int, int) {
    c_add_spec(c_pow_spec(z, p), c)
}

/// The `n`-th iterate of the direct recurrence starting at `z0`.
pub open spec fn reg_orbit_spec(z0: (int, int), c: (int, int), p: nat, n: nat) -> (int, int)
    decreases n,
{
    if n == 0 {
        z0
    } else {
        step_spec(reg_orbit_spec(z0, c, p, (n - 1) as nat), c, p)
    }
}

/// Number of steps the direct iteration takes from `z0`: it stops as soon as
/// the squared norm reaches `er_sq` or the cap runs out.
pub open spec fn reg_escape_count(z0: (int, int), c: (int, int), p: nat, er_sq: int, cap: nat)
    -> nat
    decreases cap,
{
    if cap == 0 {
        0
    } else if c_norm_sq_spec(z0) >= er_sq {
        0
    } else {
        1 + reg_escape_count(step_spec(z0, c, p), c, p, er_sq, (cap - 1) as nat)
    }
}

/// The squaring shortcut agrees with the general product.
pub proof fn lemma_square_is_mul(z: (int, int))
    ensures
        c_square_spec(z) == c_mul_spec(z, z),
{
    assert(z.0 * z.1 == z.1 * z.0) by (nonlinear_arith);
}

/// What one full run of a kernel produces for one pixel: the stream of
/// iterates, whether the pixel is inside, the iteration count and the escape
/// proximity.
pub struct IterationTrace {
    pub zs: Vec<FxComplex>,
    pub inside: bool,
    pub count: u32,
    pub prox: Fx,
}

impl IterationTrace {
    /// Every iterate is in range.
    pub open spec fn wf(self) -> bool {
        &&& forall|k: int| 0 <= k < self.zs@.len() ==> (#[trigger] self.zs@[k]).wf()
        &&& self.prox.wf()
        &&& 0 <= self.prox.raw <= FX_SCALE
        &&& self.zs@.len() == self.count
    }
}

/// The squared norms of the last two iterates after `n` steps from `z0`: the
/// pre-step norm (zero when no step ran) and the final norm.
pub open spec fn last_norms_spec(z0: (int, int), c: (int, int), p: nat, n: nat) -> (int, int) {
    (
        if n == 0 {
            0
        } else {
            c_norm_sq_spec(reg_orbit_spec(z0, c, p, (n - 1) as nat))
        },
        c_norm_sq_spec(reg_orbit_spec(z0, c, p, n)),
    )
}

/// The escape proximity of a finished direct iteration.
pub open spec fn reg_prox_spec(z0: (int, int), c: (int, int), p: nat, er: int, er_sq: int, cap: nat)
    -> int {
    let n = reg_escape_count(z0, c, p, er_sq, cap);
    let norms = last_norms_spec(z0, c, p, n);
    proximity_spec(fx_sqrt_spec(norms.0), fx_sqrt_spec(norms.1), er)
}

/// Whether a finished direct iteration counts as inside: it ran to the cap
/// and either never escaped, or its proximity overshoots the fractional part
/// of the iteration budget.
pub open spec fn reg_inside_spec(
    z0: (int, int),
    c: (int, int),
    p: nat,
    er: int,
    er_sq: int,
    cap: nat,
    fract: int,
) -> bool {
    let n = reg_escape_count(z0, c, p, er_sq, cap);
    let norms = last_norms_spec(z0, c, p, n);
    n == cap && (norms.1 < er_sq || reg_prox_spec(z0, c, p, er, er_sq, cap) > fract)
}

impl FxComplex {
    /// `self^p` by repeated multiplication.
    pub fn cpow(self, p: u32) -> (r: FxComplex)
        requires
            self.wf(),
            1 <= p,
        ensures
            r.rep() == c_pow_spec(self.rep(), p as nat),
            r.wf(),
    {
        let mut w = self;
        let mut k: u32 = 1;
        while k < p
            invariant
                1 <= k <= p,
                w.wf(),
                self.wf(),
                w.rep() == c_pow_spec(self.rep(), k as nat),
            decreases p - k,
        {
            w = w.cmul(self);
            k = k + 1;
        }
        w
    }

    /// One kernel step `self^p + c`, using the squaring shortcut for the
    /// default exponent.
    pub fn step(self, c: FxComplex, p: u32) -> (r: FxComplex)
        requires
            self.wf(),
            c.wf(),
            1 <= p,
        ensures
            r.rep() == step_spec(self.rep(), c.rep(), p as nat),
            r.wf(),
    {
        let w = if p == 2 {
            proof {
                lemma_square_is_mul(self.rep());
                assert(c_pow_spec(self.rep(), 1) == self.rep());
                assert(c_pow_spec(self.rep(), 2) == c_mul_spec(c_pow_spec(self.rep(), 1), self.rep()));
            }
            self.square()
        } else {
            self.cpow(p)
        };
        w.add(c)
    }
}

/// Run the direct escape-time iteration from `z0` with constant `c`,
/// recording every iterate.
#[verifier::loop_isolation(false)]
pub fn iterate_regular(z0: FxComplex, c: FxComplex, cts: &FragmentConstants) -> (t: IterationTrace)
    requires
        z0.wf(),
        c.wf(),
        cts.wf(),
    ensures
        ({
            let p = cts.exponent as nat;
            let er = cts.escape_radius.raw as int;
            let er_sq = fx_mul_spec(er, er);
            let cap = fx_floor_u32(cts.num_iterations.raw as int) as nat;
            let fract = (cts.num_iterations.raw as int) % (FX_SCALE as int);
            &&& t.count == reg_escape_count(z0.rep(), c.rep(), p, er_sq, cap)
            &&& t.zs@.len() == t.count
            &&& forall|k: int|
                0 <= k < t.count ==> (#[trigger] t.zs@[k]).rep() == reg_orbit_spec(
                    z0.rep(),
                    c.rep(),
                    p,
                    (k + 1) as nat,
                )
            &&& t.prox.raw == reg_prox_spec(z0.rep(), c.rep(), p, er, er_sq, cap)
            &&& t.inside == reg_inside_spec(z0.rep(), c.rep(), p, er, er_sq, cap, fract)
            &&& t.wf()
        }),
{
    let ghost z0r = z0.rep();
    let ghost cr = c.rep();
    let ghost p_g = cts.exponent as nat;
    let cap = cts.num_iterations_whole();
    let er_sq = cts.escape_radius_sq();
    let mut zs: Vec<FxComplex> = Vec::new();
    let mut z = z0;
    let mut i: u32 = 0;
    let mut prev_norm_sq = Fx { raw: 0 };
    let mut norm_sq = z0.norm_squared();
    while norm_sq.raw < er_sq.raw && i < cap
        invariant
            i <= cap,
            z.wf(),
            z.rep() == reg_orbit_spec(z0r, cr, p_g, i as nat),
            zs@.len() == i,
            forall|k: int|
                0 <= k < i ==> (#[trigger] zs@[k]).rep() == reg_orbit_spec(
                    z0r,
                    cr,
                    p_g,
                    (k + 1) as nat,
                ),
            forall|k: int| 0 <= k < i ==> (#[trigger] zs@[k]).wf(),
            norm_sq.wf(),
            norm_sq.raw == c_norm_sq_spec(z.rep()),
            prev_norm_sq.wf(),
            prev_norm_sq.raw == last_norms_spec(z0r, cr, p_g, i as nat).0,
            reg_escape_count(z0r, cr, p_g, er_sq.raw as int, cap as nat) == i + reg_escape_count(
                z.rep(),
                cr,
                p_g,
                er_sq.raw as int,
                (cap - i) as nat,
            ),
        decreases cap - i,
    {
        z = z.step(c, cts.exponent);
        prev_norm_sq = norm_sq;
        norm_sq = z.norm_squared();
        i = i + 1;
        zs.push(z);
    }
    proof {
        assert(reg_escape_count(z.rep(), cr, p_g, er_sq.raw as int, (cap - i) as nat) == 0);
    }
    let prox = get_proximity(prev_norm_sq.sqrt(), norm_sq.sqrt(), cts.escape_radius);
    let fract = cts.num_iterations_fract();
    let inside = i == cap && (norm_sq.raw < er_sq.raw || prox.raw > fract.raw);
    IterationTrace { zs, inside, count: i, prox }
}

/// One perturbation step of the delta: `2*zref*dz + dz^2 + dc`.
pub open spec fn pert_step_dz(dz: (int, int), zref: (int, int), dc: (int, int)) -> (int, int) {
    c_add_spec(c_add_spec(c_mul_spec(c_double_spec(zref), dz), c_mul_spec(dz, dz)), dc)
}

/// The kernel state after `n` perturbation iterations: the tracked delta and
/// the reference index. Rebasing resets the delta to the full value and the
/// index to zero whenever the delta dominates the value or the reference
/// orbit is exhausted.
pub open spec fn pert_state_spec(orbit: Seq<(int, int)>, dc: (int, int), num_ref: nat, n: nat) -> (
    (int, int),
    nat,
)
    decreases n,
{
    if n == 0 {
        ((0int, 0int), 0nat)
    } else {
        let prev = pert_state_spec(orbit, dc, num_ref, (n - 1) as nat);
        let dz1 = pert_step_dz(prev.0, orbit[prev.1 as int], dc);
        let ref1 = prev.1 + 1;
        let z = c_add_spec(orbit[ref1 as int], dz1);
        if c_norm_sq_spec(z) < c_norm_sq_spec(dz1) || ref1 >= num_ref {
            (z, 0nat)
        } else {
            (dz1, ref1)
        }
    }
}

/// The `n`-th iterate the perturbation kernel reconstructs (`n >= 1`):
/// reference sample plus delta, before any rebase of that step.
pub open spec fn pert_z_spec(orbit: Seq<(int, int)>, dc: (int, int), num_ref: nat, n: nat) -> (
    int,
    int,
) {
    let prev = pert_state_spec(orbit, dc, num_ref, (n - 1) as nat);
    let dz1 = pert_step_dz(prev.0, orbit[prev.1 as int], dc);
    c_add_spec(orbit[(prev.1 + 1) as int], dz1)
}

/// The `n`-th iterate including the zero seed.
pub open spec fn pert_iter_spec(orbit: Seq<(int, int)>, dc: (int, int), num_ref: nat, n: nat) -> (
    int,
    int,
) {
    if n == 0 {
        (0int, 0int)
    } else {
        pert_z_spec(orbit, dc, num_ref, n)
    }
}

/// The iterate index at which the perturbation kernel stops, starting from
/// iterate `n` with `fuel` steps of budget left.
pub open spec fn pert_escape_count(
    orbit: Seq<(int, int)>,
    dc: (int, int),
    num_ref: nat,
    er_sq: int,
    fuel: nat,
    n: nat,
) -> nat
    decreases fuel,
{
    if fuel == 0 {
        n
    } else if c_norm_sq_spec(pert_iter_spec(orbit, dc, num_ref, n)) >= er_sq {
        n
    } else {
        pert_escape_count(orbit, dc, num_ref, er_sq, (fuel - 1) as nat, n + 1)
    }
}

/// The escape proximity of a finished perturbation iteration.
pub open spec fn pert_prox_spec(
    orbit: Seq<(int, int)>,
    dc: (int, int),
    num_ref: nat,
    er: int,
    er_sq: int,
    cap: nat,
) -> int {
    let n = pert_escape_count(orbit, dc, num_ref, er_sq, cap, 0);
    let prev = if n == 0 {
        0
    } else {
        c_norm_sq_spec(pert_iter_spec(orbit, dc, num_ref, (n - 1) as nat))
    };
    let fin = c_norm_sq_spec(pert_iter_spec(orbit, dc, num_ref, n));
    proximity_spec(fx_sqrt_spec(prev), fx_sqrt_spec(fin), er)
}

/// Whether a finished perturbation iteration counts as inside.
pub open spec fn pert_inside_spec(
    orbit: Seq<(int, int)>,
    dc: (int, int),
    num_ref: nat,
    er: int,
    er_sq: int,
    cap: nat,
    fract: int,
) -> bool {
    let n = pert_escape_count(orbit, dc, num_ref, er_sq, cap, 0);
    let fin = c_norm_sq_spec(pert_iter_spec(orbit, dc, num_ref, n));
    n == cap && (fin < er_sq || pert_prox_spec(orbit, dc, num_ref, er, er_sq, cap) > fract)
}

/// The raw pairs of a sequence of fixed-point complex numbers.
pub open spec fn seq_reps(v: Seq<FxComplex>) -> Seq<(int, int)> {
    v.map_values(|z: FxComplex| z.rep())
}

/// Run the perturbation kernel for the pixel at offset `dc` from the
/// reference center, against the recorded reference orbit.
#[verifier::loop_isolation(false)]
pub fn iterate_perturbed(
    dc: FxComplex,
    orbit: &Vec<FxComplex>,
    num_ref: u32,
    cts: &FragmentConstants,
) -> (t: IterationTrace)
    requires
        dc.wf(),
        cts.wf(),
        1 <= num_ref,
        num_ref < orbit@.len(),
        forall|k: int| 0 <= k < orbit@.len() ==> (#[trigger] orbit@[k]).wf(),
    ensures
        ({
            let orbit_r = seq_reps(orbit@);
            let er = cts.escape_radius.raw as int;
            let er_sq = fx_mul_spec(er, er);
            let cap = fx_floor_u32(cts.num_iterations.raw as int) as nat;
            let fract = (cts.num_iterations.raw as int) % (FX_SCALE as int);
            &&& t.count == pert_escape_count(orbit_r, dc.rep(), num_ref as nat, er_sq, cap, 0)
            &&& t.zs@.len() == t.count
            &&& forall|k: int|
                0 <= k < t.count ==> (#[trigger] t.zs@[k]).rep() == pert_z_spec(
                    orbit_r,
                    dc.rep(),
                    num_ref as nat,
                    (k + 1) as nat,
                )
            &&& t.prox.raw == pert_prox_spec(orbit_r, dc.rep(), num_ref as nat, er, er_sq, cap)
            &&& t.inside == pert_inside_spec(
                orbit_r,
                dc.rep(),
                num_ref as nat,
                er,
                er_sq,
                cap,
                fract,
            )
            &&& t.wf()
        }),
{
    let ghost orbit_r = seq_reps(orbit@);
    let ghost dcr = dc.rep();
    let ghost nr = num_ref as nat;
    let cap = cts.num_iterations_whole();
    let er_sq = cts.escape_radius_sq();
    let mut zs: Vec<FxComplex> = Vec::new();
    let mut dz = FxComplex::zero();
    let mut ref_i: u32 = 0;
    let mut i: u32 = 0;
    let mut prev_norm_sq = Fx { raw: 0 };
    let mut norm_sq = Fx { raw: 0 };
    proof {
        assert(c_norm_sq_spec((0int, 0int)) == 0);
    }
    while norm_sq.raw < er_sq.raw && i < cap
        invariant
            i <= cap,
            ref_i < num_ref,
            dz.wf(),
            (dz.rep(), ref_i as nat) == pert_state_spec(orbit_r, dcr, nr, i as nat),
            zs@.len() == i,
            forall|k: int|
                0 <= k < i ==> (#[trigger] zs@[k]).rep() == pert_z_spec(
                    orbit_r,
                    dcr,
                    nr,
                    (k + 1) as nat,
                ),
            forall|k: int| 0 <= k < i ==> (#[trigger] zs@[k]).wf(),
            norm_sq.wf(),
            norm_sq.raw == c_norm_sq_spec(pert_iter_spec(orbit_r, dcr, nr, i as nat)),
            prev_norm_sq.wf(),
            prev_norm_sq.raw == if i == 0 {
                0int
            } else {
                c_norm_sq_spec(pert_iter_spec(orbit_r, dcr, nr, (i - 1) as nat))
            },
            pert_escape_count(orbit_r, dcr, nr, er_sq.raw as int, cap as nat, 0) ==
            pert_escape_count(orbit_r, dcr, nr, er_sq.raw as int, (cap - i) as nat, i as nat),
        decreases cap - i,
    {
        let zref = orbit[ref_i as usize];
        let dz1 = zref.double().cmul(dz).add(dz.cmul(dz)).add(dc);
        ref_i = ref_i + 1;
        let z = orbit[ref_i as usize].add(dz1);
        prev_norm_sq = norm_sq;
        norm_sq = z.norm_squared();
        i = i + 1;
        zs.push(z);
        proof {
            assert(orbit_r[ref_i - 1] == orbit@[ref_i - 1].rep());
            assert(orbit_r[ref_i as int] == orbit@[ref_i as int].rep());
            assert(dz1.rep() == pert_step_dz(
                pert_state_spec(orbit_r, dcr, nr, (i - 1) as nat).0,
                orbit_r[pert_state_spec(orbit_r, dcr, nr, (i - 1) as nat).1 as int],
                dcr,
            ));
            assert(z.rep() == pert_z_spec(orbit_r, dcr, nr, i as nat));
        }
        let dz1_norm = dz1.norm_squared();
        if norm_sq.raw < dz1_norm.raw || ref_i >= num_ref {
            dz = z;
            ref_i = 0;
        } else {
            dz = dz1;
        }
    }
    proof {
        assert(pert_escape_count(orbit_r, dcr, nr, er_sq.raw as int, (cap - i) as nat, i as nat)
            == i);
    }
    let prox = get_proximity(prev_norm_sq.sqrt(), norm_sq.sqrt(), cts.escape_radius);
    let fract = cts.num_iterations_fract();
    let inside = i == cap && (norm_sq.raw < er_sq.raw || prox.raw > fract.raw);
    IterationTrace { zs, inside, count: i, prox }
}

/// Squared norms are never negative.
pub proof fn lemma_norm_sq_nonneg(a: (int, int))
    ensures
        c_norm_sq_spec(a) >= 0,
{
    assert(a.0 * a.0 >= 0 && a.1 * a.1 >= 0) by (nonlinear_arith);
    assert(fx_mul_spec(a.0, a.0) >= 0);
    assert(fx_mul_spec(a.1, a.1) >= 0);
}

/// Law: when the pixel coincides with the reference center (`dc = 0`), the
/// perturbation kernel's delta stays exactly zero and its reconstructed
/// iterates equal the reference orbit samples, for every iteration up to the
/// orbit's recorded length.
pub proof fn lemma_perturbation_zero_offset(orbit: Seq<(int, int)>, num_ref: nat, n: nat)
    requires
        1 <= num_ref < orbit.len(),
        forall|k: int|
            0 <= k <= num_ref ==> iabs((#[trigger] orbit[k]).0) <= FX_MAX_RAW && iabs(
                orbit[k].1,
            ) <= FX_MAX_RAW,
        1 <= n <= num_ref,
    ensures
        n < num_ref ==> pert_state_spec(orbit, (0int, 0int), num_ref, n) == ((0int, 0int), n),
        pert_z_spec(orbit, (0int, 0int), num_ref, n) == orbit[n as int],
    decreases n,
{
    let dc = (0int, 0int);
    if n > 1 {
        lemma_perturbation_zero_offset(orbit, num_ref, (n - 1) as nat);
    }
    let prev = pert_state_spec(orbit, dc, num_ref, (n - 1) as nat);
    assert(prev == ((0int, 0int), (n - 1) as nat));
    let zr = orbit[prev.1 as int];
    let dz1 = pert_step_dz(prev.0, zr, dc);
    assert forall|a: int| #[trigger] fx_mul_spec(a, 0) == 0 by {
        assert(a * 0 == 0);
    }
    assert(dz1 == (0int, 0int));
    let z = c_add_spec(orbit[n as int], dz1);
    assert(z == orbit[n as int]);
    lemma_norm_sq_nonneg(z);
    assert(c_norm_sq_spec((0int, 0int)) == 0);
}

/// Escape counts agree step by step between the perturbation kernel at zero
/// offset and the direct iteration, while the reference orbit covers the
/// remaining budget.
proof fn lemma_escape_agree_from(
    orbit: Seq<(int, int)>,
    c: (int, int),
    er_sq: int,
    num_ref: nat,
    fuel: nat,
    j: nat,
)
    requires
        1 <= num_ref < orbit.len(),
        j + fuel <= num_ref,
        forall|k: int|
            0 <= k <= num_ref ==> #[trigger] orbit[k] == reg_orbit_spec((0int, 0int), c, 2, k as nat),
    ensures
        pert_escape_count(orbit, (0int, 0int), num_ref, er_sq, fuel, j) == j + reg_escape_count(
            reg_orbit_spec((0int, 0int), c, 2, j),
            c,
            2,
            er_sq,
            fuel,
        ),
    decreases fuel,
{
    let dc = (0int, 0int);
    assert forall|k: int| 0 <= k <= num_ref implies iabs((#[trigger] orbit[k]).0) <= FX_MAX_RAW
        && iabs(orbit[k].1) <= FX_MAX_RAW by {
        if k == 0 {
            assert(orbit[k] == reg_orbit_spec((0int, 0int), c, 2, 0));
        } else {
            assert(orbit[k] == reg_orbit_spec((0int, 0int), c, 2, k as nat));
            assert(reg_orbit_spec((0int, 0int), c, 2, k as nat) == step_spec(
                reg_orbit_spec((0int, 0int), c, 2, (k - 1) as nat),
                c,
                2,
            ));
        }
    }
    let zj = reg_orbit_spec((0int, 0int), c, 2, j);
    assert(pert_iter_spec(orbit, dc, num_ref, j) == zj) by {
        if j == 0 {
        } else {
            lemma_perturbation_zero_offset(orbit, num_ref, j);
        }
    }
    if fuel == 0 {
    } else if c_norm_sq_spec(zj) >= er_sq {
    } else {
        assert(reg_orbit_spec((0int, 0int), c, 2, j + 1) == step_spec(zj, c, 2));
        lemma_escape_agree_from(orbit, c, er_sq, num_ref, (fuel - 1) as nat, j + 1);
    }
}

/// Law: with the reference orbit centered on the sample point itself
/// (`dc = 0`), the escape iteration found by the perturbation kernel equals
/// the escape iteration of the direct same-precision iteration, whenever the
/// orbit covers the iteration budget.
pub proof fn lemma_escape_time_agreement(
    orbit: Seq<(int, int)>,
    c: (int, int),
    er_sq: int,
    num_ref: nat,
    cap: nat,
)
    requires
        1 <= num_ref < orbit.len(),
        cap <= num_ref,
        forall|k: int|
            0 <= k <= num_ref ==> #[trigger] orbit[k] == reg_orbit_spec((0int, 0int), c, 2, k as nat),
    ensures
        pert_escape_count(orbit, (0int, 0int), num_ref, er_sq, cap, 0) == reg_escape_count(
            (0int, 0int),
            c,
            2,
            er_sq,
            cap,
        ),
{
    lemma_escape_agree_from(orbit, c, er_sq, num_ref, cap, 0);
}

} // verus!
