//! The iteration-count model.
//!
//! The iteration budget is either a fixed count or a count of additional
//! iterations on top of a zoom-dependent baseline, so that zooming deeper
//! automatically iterates further. The baseline grows with the binary
//! logarithm of the zoom, computed here over the arbitrary-precision zoom
//! with an exact floor contract.

use crate::bigreal::BigReal;
use crate::fx::{Fx, FX_SCALE};
use vstd::arithmetic::power2::pow2;
use vstd::prelude::*;

verus! {

/// Hard cap on recorded iteration samples.
pub const MAX_ITER_POINTS: u32 = 1307;

/// Cap on the additional-iterations budget.
pub const MAX_ADDITIONAL_ITERS: u32 = 200;

/// Growth rate of the baseline budget per doubling of the zoom.
pub const ITER_GROWTH: i64 = 9;

/// Exact doubling.
fn double_big(p: &BigReal) -> (r: BigReal)
    requires
        p.wf(),
    ensures
        r.num() == 2 * p.num(),
        r.frac == p.frac,
        r.wf(),
{
    let r = p.add(p);
    proof {
        p.lemma_scaled_id();
    }
    r
}

/// `k` is the floor of the binary logarithm of `num / 2^frac`.
pub open spec fn is_log2_floor(num: int, frac: nat, k: nat) -> bool {
    pow2((k + frac) as nat) <= num < pow2((k + 1 + frac) as nat)
}

/// The floor of the binary logarithm of a numerator at `frac` fractional
/// bits.
pub open spec fn log2_floor_spec(num: int, frac: nat) -> nat {
    choose|k: nat| is_log2_floor(num, frac, k)
}

/// Binary-logarithm floors are unique.
proof fn lemma_log2_floor_unique(num: int, frac: nat, k1: nat, k2: nat)
    requires
        is_log2_floor(num, frac, k1),
        is_log2_floor(num, frac, k2),
    ensures
        k1 == k2,
{
    if k1 < k2 {
        vstd::arithmetic::power2::lemma_pow2_strictly_increases((k1 + 1 + frac) as nat, (k2
            + frac) as nat);
    }
    if k2 < k1 {
        vstd::arithmetic::power2::lemma_pow2_strictly_increases((k2 + 1 + frac) as nat, (k1
            + frac) as nat);
    }
}

/// A witness pins down `log2_floor_spec`.
pub proof fn lemma_log2_floor_is(num: int, frac: nat, k: nat)
    requires
        is_log2_floor(num, frac, k),
    ensures
        log2_floor_spec(num, frac) == k,
{
    assert(exists|x: nat| is_log2_floor(num, frac, x));
    lemma_log2_floor_unique(num, frac, log2_floor_spec(num, frac), k);
}

/// The floor of the binary logarithm of a `BigReal` of at least one.
#[verifier::loop_isolation(false)]
pub fn log2_floor(b: &BigReal) -> (r: u32)
    requires
        b.wf(),
        b.frac >= crate::fx::FX_FRAC_BITS,
        b.num() >= pow2(b.frac as nat),
        b.num() < pow2((b.frac + 1024) as nat),
    ensures
        r as nat == log2_floor_spec(b.num(), b.frac as nat),
        pow2((r + b.frac) as nat) <= b.num() < pow2((r + 1 + b.frac) as nat),
        r < 1024,
{
    let one = BigReal::from_fx(Fx { raw: FX_SCALE }).align(b.frac);
    proof {
        vstd::arithmetic::power2::lemma2_to64();
        vstd::arithmetic::power2::lemma_pow2_adds(
            crate::fx::FX_FRAC_BITS as nat,
            (b.frac - crate::fx::FX_FRAC_BITS) as nat,
        );
        assert(one.num() == pow2(b.frac as nat));
    }
    let mut k: u32 = 0;
    let mut p = one;
    let mut p2 = double_big(&p);
    while !b.lt(&p2) && k < 1023
        invariant
            k < 1024,
            p.wf(),
            p.frac == b.frac,
            p.num() == pow2((k + b.frac) as nat),
            p2.wf(),
            p2.frac == b.frac,
            p2.num() == 2 * pow2((k + b.frac) as nat),
            b.num() >= pow2((k + b.frac) as nat),
        decreases 1023 - k,
    {
        proof {
            vstd::arithmetic::power2::lemma_pow2_unfold((k + 1 + b.frac) as nat);
        }
        k = k + 1;
        p = p2;
        p2 = double_big(&p);
    }
    proof {
        vstd::arithmetic::power2::lemma_pow2_unfold((k + 1 + b.frac) as nat);
        if !(k < 1023) {
            assert((k + 1 + b.frac) as nat == (b.frac + 1024) as nat);
        }
        lemma_log2_floor_is(b.num(), b.frac as nat, k as nat);
    }
    k
}

/// How the iteration budget is interpreted.
#[derive(Clone, Copy, Debug, PartialEq, Eq, Structural)]
pub enum NumIterationsMode {
    Additional,
    Fixed,
}

/// The user-controlled iteration budget.
pub struct NumIterations {
    pub n: Fx,
    pub mode: NumIterationsMode,
}

impl NumIterations {
    /// The budget stays in fixed-point range.
    pub open spec fn wf(self) -> bool {
        self.n.wf()
    }

    /// The zoom-dependent baseline: `ITER_GROWTH` whole iterations per
    /// doubling of the zoom (the zoom's floored binary logarithm, grown by
    /// one so shallow zooms keep a baseline).
    pub fn calculate_additional_iterations(&self, zoom: &BigReal) -> (r: Fx)
        requires
            zoom.wf(),
            zoom.frac >= crate::fx::FX_FRAC_BITS,
            zoom.num() >= pow2(zoom.frac as nat),
            zoom.num() < pow2((zoom.frac + 1024) as nat),
        ensures
            r.raw == additional_iters_spec(zoom.num(), zoom.frac as nat),
            0 <= r.raw <= 9216 * FX_SCALE,
            r.raw % FX_SCALE == 0,
            r.wf(),
    {
        let k = log2_floor(zoom);
        let r = Fx::from_i64(((k + 1) as i64) * ITER_GROWTH);
        proof {
            assert(((k + 1) as int) * (ITER_GROWTH as int) * (FX_SCALE as int) <= 9216 * (
            FX_SCALE as int) && ((k + 1) as int) * (ITER_GROWTH as int) * (FX_SCALE as int) % (
            FX_SCALE as int) == 0 && 0 <= ((k + 1) as int) * (ITER_GROWTH as int) * (
            FX_SCALE as int)) by (nonlinear_arith)
                requires
                    0 <= (k as int) < 1024,
                    ITER_GROWTH == 9,
                    FX_SCALE > 0,
            ;
        }
        r
    }

    /// The effective iteration budget for a frame: the baseline plus the
    /// user offset in additional mode (at least one), or the fixed count.
    pub fn calculate_num_iterations(&self, zoom: &BigReal) -> (r: Fx)
        requires
            self.wf(),
            zoom.wf(),
            zoom.frac >= crate::fx::FX_FRAC_BITS,
            zoom.num() >= pow2(zoom.frac as nat),
            zoom.num() < pow2((zoom.frac + 1024) as nat),
        ensures
            r.raw == budget_spec(*self, zoom.num(), zoom.frac as nat),
            r.wf(),
            matches!(self.mode, NumIterationsMode::Fixed) ==> r == self.n,
            matches!(self.mode, NumIterationsMode::Additional) ==> r.raw >= FX_SCALE,
    {
        match self.mode {
            NumIterationsMode::Additional => {
                let base = self.calculate_additional_iterations(zoom);
                let sum = base.add(self.n);
                let one = Fx { raw: FX_SCALE };
                if sum.raw < one.raw {
                    one
                } else {
                    sum
                }
            },
            NumIterationsMode::Fixed => self.n,
        }
    }

    /// Switch between fixed and additional mode, keeping the effective
    /// budget unchanged at the current zoom (clamped at one whole iteration
    /// when leaving additional mode).
    pub fn toggle_mode(&mut self, zoom: &BigReal)
        requires
            old(self).wf(),
            zoom.wf(),
            zoom.frac >= crate::fx::FX_FRAC_BITS,
            zoom.num() >= pow2(zoom.frac as nat),
            zoom.num() < pow2((zoom.frac + 1024) as nat),
        ensures
            final(self).wf(),
            matches!(old(self).mode, NumIterationsMode::Additional) ==> final(self).mode
                == NumIterationsMode::Fixed && final(self).n.raw == budget_spec(
                *old(self),
                zoom.num(),
                zoom.frac as nat,
            ),
            matches!(old(self).mode, NumIterationsMode::Fixed) ==> final(self).mode
                == NumIterationsMode::Additional && final(self).n.raw == crate::fx::fx_sub_spec(
                old(self).n.raw as int,
                additional_iters_spec(zoom.num(), zoom.frac as nat),
            ),
    {
        match self.mode {
            NumIterationsMode::Additional => {
                self.n = self.calculate_num_iterations(zoom);
                self.mode = NumIterationsMode::Fixed;
            },
            NumIterationsMode::Fixed => {
                let base = self.calculate_additional_iterations(zoom);
                self.n = self.n.sub(base);
                self.mode = NumIterationsMode::Additional;
            },
        }
    }

    /// The slider range for the current mode.
    pub fn slider_range(&self, zoom: &BigReal) -> (r: (Fx, Fx))
        requires
            self.wf(),
            zoom.wf(),
            zoom.frac >= crate::fx::FX_FRAC_BITS,
            zoom.num() >= pow2(zoom.frac as nat),
            zoom.num() < pow2((zoom.frac + 1024) as nat),
        ensures
            r.0.wf(),
            r.1.wf(),
            r.0.raw <= r.1.raw,
    {
        match self.mode {
            NumIterationsMode::Additional => {
                let base = self.calculate_additional_iterations(zoom);
                (base.neg(), Fx::from_i64(MAX_ADDITIONAL_ITERS as i64))
            },
            NumIterationsMode::Fixed => (
                Fx { raw: 0 },
                Fx::from_i64((MAX_ITER_POINTS - 1) as i64),
            ),
        }
    }

    /// Step the budget down to the previous whole effective iteration.
    pub fn prev_whole_iteration(&mut self, zoom: &BigReal)
        requires
            old(self).wf(),
            zoom.wf(),
            zoom.frac >= crate::fx::FX_FRAC_BITS,
            zoom.num() >= pow2(zoom.frac as nat),
            zoom.num() < pow2((zoom.frac + 1024) as nat),
        ensures
            final(self).wf(),
            final(self).mode == old(self).mode,
            final(self).n.raw == ({
                let base = additional_iters_spec(zoom.num(), zoom.frac as nat);
                match old(self).mode {
                    NumIterationsMode::Additional => crate::fx::fx_sub_spec(
                        crate::fx::fx_clip(
                            crate::fx::fx_ceil_spec(
                                crate::fx::fx_add_spec(base, old(self).n.raw as int),
                            ) - FX_SCALE,
                        ),
                        base,
                    ),
                    NumIterationsMode::Fixed => crate::fx::fx_clip(
                        crate::fx::fx_ceil_spec(old(self).n.raw as int) - FX_SCALE,
                    ),
                }
            }),
    {
        match self.mode {
            NumIterationsMode::Additional => {
                let base = self.calculate_additional_iterations(zoom);
                let stepped = base.add(self.n).ceil();
                self.n = Fx::from_raw(stepped.raw - FX_SCALE).sub(base);
            },
            NumIterationsMode::Fixed => {
                let stepped = self.n.ceil();
                self.n = Fx::from_raw(stepped.raw - FX_SCALE);
            },
        }
    }

    /// Step the budget up to the next whole effective iteration.
    pub fn next_whole_iteration(&mut self, zoom: &BigReal)
        requires
            old(self).wf(),
            zoom.wf(),
            zoom.frac >= crate::fx::FX_FRAC_BITS,
            zoom.num() >= pow2(zoom.frac as nat),
            zoom.num() < pow2((zoom.frac + 1024) as nat),
        ensures
            final(self).wf(),
            final(self).mode == old(self).mode,
            final(self).n.raw == ({
                let base = additional_iters_spec(zoom.num(), zoom.frac as nat);
                match old(self).mode {
                    NumIterationsMode::Additional => crate::fx::fx_sub_spec(
                        crate::fx::fx_clip(
                            crate::fx::fx_floor_spec(
                                crate::fx::fx_add_spec(base, old(self).n.raw as int),
                            ) + FX_SCALE,
                        ),
                        base,
                    ),
                    NumIterationsMode::Fixed => crate::fx::fx_clip(
                        crate::fx::fx_floor_spec(old(self).n.raw as int) + FX_SCALE,
                    ),
                }
            }),
    {
        match self.mode {
            NumIterationsMode::Additional => {
                let base = self.calculate_additional_iterations(zoom);
                let stepped = base.add(self.n).floor();
                self.n = Fx::from_raw(stepped.raw + FX_SCALE).sub(base);
            },
            NumIterationsMode::Fixed => {
                let stepped = self.n.floor();
                self.n = Fx::from_raw(stepped.raw + FX_SCALE);
            },
        }
    }
}

/// The additional-iterations baseline as a raw fixed-point value:
/// `ITER_GROWTH * (floor(log2(zoom)) + 1)` whole iterations.
pub open spec fn additional_iters_spec(zoom_num: int, zoom_frac: nat) -> int {
    (ITER_GROWTH as int) * (log2_floor_spec(zoom_num, zoom_frac) + 1) * (FX_SCALE as int)
}

/// The effective iteration budget: the fixed count, or the baseline plus the
/// offset clamped at one whole iteration.
pub open spec fn budget_spec(ni: NumIterations, zoom_num: int, zoom_frac: nat) -> int {
    match ni.mode {
        NumIterationsMode::Additional => {
            let s = crate::fx::fx_add_spec(
                additional_iters_spec(zoom_num, zoom_frac),
                ni.n.raw as int,
            );
            if s < FX_SCALE {
                FX_SCALE as int
            } else {
                s
            }
        },
        NumIterationsMode::Fixed => ni.n.raw as int,
    }
}

/// Law: the configured iteration caps cover the deepest configured zoom.
/// For any zoom whose numerator stays below `2^(frac + 121)` (the deep-zoom
/// ceiling of ten to the thirty-sixth is below `2^120`), the additional-mode
/// budget with the offset at its cap stays within the sample buffer.
pub proof fn lemma_iteration_caps_cover_max_zoom(ni: NumIterations, zoom_num: int, zoom_frac: nat)
    requires
        matches!(ni.mode, NumIterationsMode::Additional),
        ni.n.raw <= (MAX_ADDITIONAL_ITERS as int) * FX_SCALE,
        pow2(zoom_frac) <= zoom_num,
        zoom_num < pow2((zoom_frac + 121) as nat),
    ensures
        budget_spec(ni, zoom_num, zoom_frac) <= (MAX_ITER_POINTS as int) * FX_SCALE,
{
    let k = log2_floor_spec(zoom_num, zoom_frac);
    assert(is_log2_floor(zoom_num, zoom_frac, k)) by {
        lemma_log2_exists(zoom_num, zoom_frac, 121);
    }
    assert(k <= 120) by {
        if k >= 121 {
            vstd::arithmetic::power2::lemma_pow2_strictly_increases(
                (zoom_frac + 121) as nat,
                (k + zoom_frac) as nat,
            );
        }
    }
    assert((ITER_GROWTH as int) * (k + 1) * (FX_SCALE as int) <= 1089 * (FX_SCALE as int))
        by (nonlinear_arith)
        requires
            0 <= k <= 120,
            ITER_GROWTH == 9,
            FX_SCALE > 0,
    ;
    assert(0 <= (ITER_GROWTH as int) * (k + 1) * (FX_SCALE as int)) by (nonlinear_arith)
        requires
            0 <= k,
            ITER_GROWTH == 9,
            FX_SCALE > 0,
    ;
}

/// A bracketing exponent exists for any value at least one and below the
/// given bound.
proof fn lemma_log2_exists(num: int, frac: nat, bound: nat)
    requires
        pow2(frac) <= num,
        num < pow2((frac + bound) as nat),
    ensures
        is_log2_floor(num, frac, log2_floor_spec(num, frac)),
    decreases bound,
{
    if bound == 0 {
        vstd::arithmetic::power2::lemma_pow2_strictly_increases(frac, (frac + 0) as nat);
    } else if num < pow2((frac + 1) as nat) {
        assert(is_log2_floor(num, frac, 0));
        lemma_log2_floor_is(num, frac, 0);
    } else {
        lemma_log2_exists_from(num, frac, 1, (bound - 1) as nat);
    }
}

/// Induction step: if the value is at least `2^(frac + k)`, some bracketing
/// exponent at or above `k` exists within the remaining budget.
proof fn lemma_log2_exists_from(num: int, frac: nat, k: nat, fuel: nat)
    requires
        pow2((k + frac) as nat) <= num,
        num < pow2((k + frac + fuel) as nat),
    ensures
        is_log2_floor(num, frac, log2_floor_spec(num, frac)),
    decreases fuel,
{
    if num < pow2((k + 1 + frac) as nat) {
        assert(is_log2_floor(num, frac, k));
        lemma_log2_floor_is(num, frac, k);
    } else {
        assert(fuel >= 1) by {
            if fuel == 0 {
                assert(num < pow2((k + frac) as nat));
            }
        }
        lemma_log2_exists_from(num, frac, k + 1, (fuel - 1) as nat);
    }
}

} // verus!
