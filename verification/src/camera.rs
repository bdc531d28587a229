//! Cameras and the screen-to-plane mapping.
//!
//! Each view has its own camera: an arbitrary-precision translate, a
//! positive zoom clamped into the view's configured range, and the grab /
//! reiterate flags. `anchor_zoom_camera` implements wheel and pinch zoom
//! anchored at a screen point; its contract states the zoom-to-cursor law
//! exactly: the plane point under the anchor is unchanged by the event.

use crate::bigint::mag_val;
use crate::bigreal::{BigReal, FRAC_CAP};
use crate::complex::{BigVec2, FxComplex};
use crate::fx::{iabs, Fx, FX_FRAC_BITS, FX_SCALE};
use vstd::arithmetic::power2::pow2;
use vstd::prelude::*;

verus! {

/// Fractional bits of every camera translate.
pub const PRECISION: u32 = 192;

/// Fractional bits of every camera zoom.
pub const ZOOM_FRAC: u32 = 64;

/// Smallest zoom of either view, in raw fixed-point units (about `0.05`).
pub const MIN_ZOOM_RAW: i128 = 214748365;

/// Wheel-zoom rate, in raw fixed-point units (about `0.1` per scroll unit).
pub const SCROLL_RATE_RAW: i128 = 429496730;

/// A per-view camera.
pub struct Camera {
    pub zoom: BigReal,
    pub translate: BigVec2,
    pub grabbing: bool,
    pub needs_reiterate: bool,
}

/// Truncating division of a numerator at scale `2^a_frac` by a positive
/// value `b_num / 2^b_frac`, producing a numerator at `f` fractional bits.
pub open spec fn pos_div_num(a_num: int, a_frac: nat, b_num: int, b_frac: nat, f: nat) -> int
    recommends
        b_num > 0,
{
    let n = (iabs(a_num) * pow2((b_frac + f) as nat)) as nat;
    let d = (b_num * pow2(a_frac)) as nat;
    let q = (n / d) as int;
    if a_num < 0 {
        -q
    } else {
        q
    }
}

/// The plane point under a screen offset `off` (raw fixed-point units from
/// the screen center): `translate + off / (zoom * size_y)`, as exact
/// numerators at the translate's precision.
pub open spec fn plane_point_spec(
    off: (int, int),
    zoom_num: int,
    zoom_frac: nat,
    size_y: int,
    translate: BigVec2,
) -> (int, int) {
    let dn = zoom_num * (size_y * FX_SCALE);
    let df = (zoom_frac + FX_FRAC_BITS) as nat;
    (
        translate.x.num() + pos_div_num(off.0, FX_FRAC_BITS as nat, dn, df, PRECISION as nat),
        translate.y.num() + pos_div_num(off.1, FX_FRAC_BITS as nat, dn, df, PRECISION as nat),
    )
}

/// `mag` and `neg` of a `BigReal` are determined by its numerator.
proof fn lemma_mag_of_num(a: BigReal)
    ensures
        mag_val(a.mag@) == iabs(a.num()),
        mag_val(a.mag@) > 0 ==> a.neg == (a.num() < 0),
{
}

/// The denominator `zoom * size_y` of the screen-to-plane mapping.
pub fn zoom_denominator(zoom: &BigReal, size_y: u32) -> (r: BigReal)
    requires
        zoom.wf(),
        zoom.frac + FX_FRAC_BITS <= FRAC_CAP,
    ensures
        r.num() == zoom.num() * ((size_y as int) * FX_SCALE),
        r.frac == zoom.frac + FX_FRAC_BITS,
        r.wf(),
{
    let sy = BigReal::from_fx(Fx::from_i64(size_y as i64));
    zoom.mul(&sy)
}

/// One component of `off / denom` at full translate precision.
pub fn plane_offset_div(off_c: Fx, denom: &BigReal) -> (r: BigReal)
    requires
        off_c.wf(),
        denom.wf(),
        denom.num() > 0,
    ensures
        r.num() == pos_div_num(
            off_c.raw as int,
            FX_FRAC_BITS as nat,
            denom.num(),
            denom.frac as nat,
            PRECISION as nat,
        ),
        r.frac == PRECISION,
        r.wf(),
{
    let a = BigReal::from_fx(off_c);
    proof {
        lemma_mag_of_num(a);
        lemma_mag_of_num(*denom);
    }
    let r = a.div(denom, PRECISION);
    proof {
        vstd::arithmetic::power2::lemma_pow2_pos(FX_FRAC_BITS as nat);
        assert(mag_val(denom.mag@) * pow2(FX_FRAC_BITS as nat) > 0) by (nonlinear_arith)
            requires
                mag_val(denom.mag@) > 0,
                pow2(FX_FRAC_BITS as nat) > 0,
        ;
        if off_c.raw == 0 {
            assert(mag_val(a.mag@) == 0);
            assert(mag_val(a.mag@) * pow2((denom.frac + PRECISION) as nat) == 0)
                by (nonlinear_arith)
                requires
                    mag_val(a.mag@) == 0,
            ;
            assert((0 as nat) / (mag_val(denom.mag@) * pow2(FX_FRAC_BITS as nat)) == 0);
        }
    }
    r
}

/// The screen offset `off` mapped to a plane offset: `off / (zoom * size_y)`
/// component-wise.
pub fn plane_offset(off: FxComplex, zoom: &BigReal, size_y: u32) -> (r: BigVec2)
    requires
        off.wf(),
        zoom.wf(),
        zoom.num() > 0,
        zoom.frac + FX_FRAC_BITS <= FRAC_CAP,
        1 <= size_y,
    ensures
        ({
            let dn = zoom.num() * ((size_y as int) * FX_SCALE);
            let df = (zoom.frac + FX_FRAC_BITS) as nat;
            r.nums() == (
                pos_div_num(off.rep().0, FX_FRAC_BITS as nat, dn, df, PRECISION as nat),
                pos_div_num(off.rep().1, FX_FRAC_BITS as nat, dn, df, PRECISION as nat),
            )
        }),
        r.frac() == PRECISION,
        r.wf(),
{
    let denom = zoom_denominator(zoom, size_y);
    proof {
        assert(denom.num() > 0) by (nonlinear_arith)
            requires
                denom.num() == zoom.num() * ((size_y as int) * FX_SCALE),
                zoom.num() > 0,
                size_y >= 1,
                FX_SCALE > 0,
        ;
    }
    BigVec2 { x: plane_offset_div(off.x, &denom), y: plane_offset_div(off.y, &denom) }
}

impl Camera {
    /// The camera's invariant, against the view's configured zoom maximum:
    /// translate at full precision, zoom at its own precision and inside
    /// `[MIN_ZOOM, max_zoom]`.
    pub open spec fn wf(self, max_zoom: BigReal) -> bool {
        &&& self.translate.wf()
        &&& self.translate.frac() == PRECISION
        &&& self.zoom.wf()
        &&& self.zoom.frac == ZOOM_FRAC
        &&& self.zoom.num() >= min_zoom_num()
        &&& !BigReal::big_lt_spec(max_zoom, self.zoom)
    }

    /// Make a camera from a zoom and a translate, flagged for a first
    /// iteration.
    pub fn new(zoom: BigReal, translate: BigVec2) -> (r: Camera)
        ensures
            r.zoom == zoom,
            r.translate == translate,
            !r.grabbing,
            r.needs_reiterate,
    {
        Camera { zoom, translate, grabbing: false, needs_reiterate: true }
    }
}

/// The minimum zoom's numerator at `ZOOM_FRAC` fractional bits.
pub open spec fn min_zoom_num() -> int {
    MIN_ZOOM_RAW * pow2((ZOOM_FRAC - FX_FRAC_BITS) as nat)
}

/// The minimum zoom as a `BigReal`.
pub fn min_zoom() -> (r: BigReal)
    ensures
        r.num() == min_zoom_num(),
        r.frac == ZOOM_FRAC,
        r.wf(),
{
    BigReal::from_fx(Fx { raw: MIN_ZOOM_RAW }).align(ZOOM_FRAC)
}

/// The exact result of `zoom_scaled_clamped`: the zoom numerator times the
/// factor, rescaled to the zoom precision by truncation, then clamped into
/// `[MIN_ZOOM, max_zoom]`.
pub open spec fn zoom_scaled_spec(zoom_num: int, factor_raw: int, max_num: int) -> int {
    let t = crate::fx::div_toward_zero(
        zoom_num * factor_raw,
        pow2((ZOOM_FRAC - FX_FRAC_BITS) as nat) as int,
    );
    if t < min_zoom_num() {
        min_zoom_num()
    } else if t > max_num {
        max_num
    } else {
        t
    }
}

/// Multiply the zoom by a fixed-point factor, truncate back to the zoom
/// precision, and clamp into `[MIN_ZOOM, max_zoom]`.
pub fn zoom_scaled_clamped(zoom: &BigReal, factor: Fx, max_zoom: &BigReal) -> (r: BigReal)
    requires
        zoom.wf(),
        zoom.frac == ZOOM_FRAC,
        factor.wf(),
        max_zoom.wf(),
        max_zoom.frac <= ZOOM_FRAC,
        min_zoom_num() <= max_zoom.scaled(ZOOM_FRAC as int),
    ensures
        r.frac == ZOOM_FRAC,
        r.num() == zoom_scaled_spec(
            zoom.num(),
            factor.raw as int,
            max_zoom.scaled(ZOOM_FRAC as int),
        ),
        min_zoom_num() <= r.num() <= max_zoom.scaled(ZOOM_FRAC as int),
        r.wf(),
{
    let f_b = BigReal::from_fx(factor);
    let scaled = zoom.mul(&f_b).with_precision(ZOOM_FRAC);
    let lo = min_zoom();
    let hi = max_zoom.with_precision(ZOOM_FRAC);
    proof {
        scaled.lemma_scaled_id();
        lo.lemma_scaled_id();
        hi.lemma_scaled_id();
    }
    if scaled.lt(&lo) {
        lo
    } else if hi.lt(&scaled) {
        hi
    } else {
        scaled
    }
}

/// The minimum zoom is positive.
pub proof fn lemma_min_zoom_pos()
    ensures
        min_zoom_num() > 0,
{
    vstd::arithmetic::power2::lemma_pow2_pos((ZOOM_FRAC - FX_FRAC_BITS) as nat);
    assert(MIN_ZOOM_RAW * pow2((ZOOM_FRAC - FX_FRAC_BITS) as nat) > 0) by (nonlinear_arith)
        requires
            MIN_ZOOM_RAW > 0,
            pow2((ZOOM_FRAC - FX_FRAC_BITS) as nat) > 0,
    ;
}

/// Zoom the camera by `factor`, anchored at the screen offset `off`: the
/// zoom is scaled and clamped, and the translate is corrected so the plane
/// point under `off` stays fixed.
///
/// The last `ensures` clause is the zoom-to-cursor law: the plane point under
/// the anchor before the event equals the one after it, exactly.
pub fn anchor_zoom_camera(
    camera: &mut Camera,
    off: FxComplex,
    size_y: u32,
    factor: Fx,
    max_zoom: &BigReal,
) -> (r: ())
    requires
        old(camera).wf(*max_zoom),
        off.wf(),
        factor.wf(),
        1 <= size_y,
        max_zoom.wf(),
        max_zoom.frac <= ZOOM_FRAC,
        min_zoom_num() <= max_zoom.scaled(ZOOM_FRAC as int),
    ensures
        final(camera).wf(*max_zoom),
        final(camera).zoom.num() == zoom_scaled_spec(
            old(camera).zoom.num(),
            factor.raw as int,
            max_zoom.scaled(ZOOM_FRAC as int),
        ),
        final(camera).grabbing == old(camera).grabbing,
        final(camera).needs_reiterate,
        plane_point_spec(
            off.rep(),
            final(camera).zoom.num(),
            ZOOM_FRAC as nat,
            size_y as int,
            final(camera).translate,
        ) == plane_point_spec(
            off.rep(),
            old(camera).zoom.num(),
            ZOOM_FRAC as nat,
            size_y as int,
            old(camera).translate,
        ),
{
    proof {
        lemma_min_zoom_pos();
    }
    let pos0 = plane_offset(off, &camera.zoom, size_y);
    let new_zoom = zoom_scaled_clamped(&camera.zoom, factor, max_zoom);
    let pos1 = plane_offset(off, &new_zoom, size_y);
    camera.zoom = new_zoom;
    let moved = pos0.sub(&pos1);
    proof {
        new_zoom.lemma_scaled_id();
        old(camera).zoom.lemma_scaled_id();
        pos0.x.lemma_scaled_id();
        pos0.y.lemma_scaled_id();
        pos1.x.lemma_scaled_id();
        pos1.y.lemma_scaled_id();
        moved.x.lemma_scaled_id();
        moved.y.lemma_scaled_id();
        camera.translate.x.lemma_scaled_id();
        camera.translate.y.lemma_scaled_id();
    }
    camera.translate = camera.translate.add(&moved);
    camera.needs_reiterate = true;
}

/// Pan the camera by the screen-space delta `delta`: the translate moves by
/// `delta / (zoom * size_y)`.
pub fn pan_camera(camera: &mut Camera, delta: FxComplex, size_y: u32) -> (r: ())
    requires
        old(camera).translate.wf(),
        old(camera).translate.frac() == PRECISION,
        old(camera).zoom.wf(),
        old(camera).zoom.frac == ZOOM_FRAC,
        old(camera).zoom.num() >= min_zoom_num(),
        delta.wf(),
        1 <= size_y,
    ensures
        final(camera).zoom == old(camera).zoom,
        final(camera).grabbing == old(camera).grabbing,
        final(camera).needs_reiterate,
        final(camera).translate.wf(),
        final(camera).translate.frac() == PRECISION,
        ({
            let dn = old(camera).zoom.num() * ((size_y as int) * FX_SCALE);
            let df = (ZOOM_FRAC + FX_FRAC_BITS) as nat;
            final(camera).translate.nums() == (
                old(camera).translate.x.num() + pos_div_num(
                    delta.rep().0,
                    FX_FRAC_BITS as nat,
                    dn,
                    df,
                    PRECISION as nat,
                ),
                old(camera).translate.y.num() + pos_div_num(
                    delta.rep().1,
                    FX_FRAC_BITS as nat,
                    dn,
                    df,
                    PRECISION as nat,
                ),
            )
        }),
{
    proof {
        lemma_min_zoom_pos();
    }
    let moved = plane_offset(delta, &camera.zoom, size_y);
    proof {
        moved.x.lemma_scaled_id();
        moved.y.lemma_scaled_id();
        camera.translate.x.lemma_scaled_id();
        camera.translate.y.lemma_scaled_id();
    }
    camera.translate = camera.translate.add(&moved);
    camera.needs_reiterate = true;
}

} // verus!
