//! The interaction controller.
//!
//! Routes pointer, touch and keyboard input to the two cameras, the marker
//! and the split boundary, maintains the per-view dirty flags, and assembles
//! the per-frame parameter block. The controller invariant `wf` carries the
//! zoom-clamp law: both cameras' zooms stay inside their configured ranges
//! across every event.

use crate::bigreal::BigReal;
use crate::camera::{
    anchor_zoom_camera, min_zoom_num, pan_camera, plane_offset, zoom_scaled_clamped, Camera,
    PRECISION, SCROLL_RATE_RAW, ZOOM_FRAC,
};
use crate::complex::{BigVec2, FxComplex};
use crate::fx::{iabs, Fx, FX_SCALE};
use crate::iterations::{NumIterations, NumIterationsMode, MAX_ITER_POINTS};
use crate::marker::MarkerIterationStats;
use crate::orbit::compute_reference_orbit;
use crate::params::{
    FragmentConstants, IterationMode, Palette, RenderPartitioning, RenderStyle, Size,
};
use crate::proximity::FX_SAFE_RAW;
use vstd::arithmetic::power2::pow2;
use vstd::prelude::*;

verus! {

/// Grab distance of the split boundary, as a screen fraction in raw
/// fixed-point units (about `0.004`).
pub const SPLIT_GRAB_RAW: i128 = 17179869;

/// Start-up options.
#[derive(Clone, Copy, Debug)]
pub struct Options {
    pub debug: bool,
}

/// Key state of a keyboard event.
#[derive(Clone, Copy, Debug, PartialEq, Eq, Structural)]
pub enum KeyState {
    Pressed,
    Released,
}

/// The logical key of a keyboard event.
#[derive(Clone, Copy, Debug, PartialEq, Eq, Structural)]
pub enum Key {
    ArrowUp,
    ArrowDown,
    ArrowLeft,
    ArrowRight,
    Character(char),
    Other,
}

/// A keyboard event.
#[derive(Clone, Copy, Debug)]
pub struct KeyEvent {
    pub logical_key: Key,
    pub state: KeyState,
}

/// Pointer button state of a mouse event.
#[derive(Clone, Copy, Debug, PartialEq, Eq, Structural)]
pub enum ButtonState {
    Pressed,
    Released,
}

/// A pointer button.
#[derive(Clone, Copy, Debug, PartialEq, Eq, Structural)]
pub enum MouseButton {
    Left,
    Middle,
    Right,
    Back,
    Forward,
    Other(u16),
}

/// The phase of a touch event.
#[derive(Clone, Copy, Debug, PartialEq, Eq, Structural)]
pub enum TouchPhase {
    Started,
    Moved,
    Ended,
    Cancelled,
}

/// The axis a split-boundary drag resizes along.
#[derive(Clone, Copy, Debug, PartialEq, Eq, Structural)]
pub enum SplitAxis {
    Horizontal,
    Vertical,
}

/// What a touch was aimed at when it started.
#[derive(Clone, Copy, Debug, PartialEq, Eq, Structural)]
pub enum TouchType {
    Mandelbrot,
    Julia,
    RenderSplit,
    Marker,
}

/// One active touch.
#[derive(Clone, Copy, Debug, PartialEq, Eq, Structural)]
pub struct Touch {
    pub pos: FxComplex,
    pub touch_type: TouchType,
    pub has_moved: bool,
    pub start_ms: u64,
}

impl Touch {
    /// Record a touch at its starting position.
    pub fn new(pos: FxComplex, touch_type: TouchType, now_ms: u64) -> (r: Touch)
        ensures
            r.pos == pos,
            r.touch_type == touch_type,
            !r.has_moved,
            r.start_ms == now_ms,
    {
        Touch { pos, touch_type, start_ms: now_ms, has_moved: false }
    }
}

/// The two per-view cameras.
pub struct Cameras {
    pub mandelbrot: Camera,
    pub julia: Camera,
}

/// The tracked marker point and its recorded trajectory.
pub struct MarkerIterations {
    pub enabled: bool,
    pub dragging: bool,
    pub position: BigVec2,
    pub points: Vec<FxComplex>,
    pub recompute: bool,
    pub stats: MarkerIterationStats,
}

/// The movable boundary between the two views.
pub struct RenderSplit {
    pub value: Fx,
    pub dragging: Option<SplitAxis>,
}

/// The smoothing toggle and factor.
pub struct Smooth {
    pub enable: bool,
    pub value: Fx,
}

impl Smooth {
    /// The effective smoothing factor: zero when disabled.
    pub fn factor(&self) -> (r: Fx)
        ensures
            r == if self.enable {
                self.value
            } else {
                Fx { raw: 0 }
            },
    {
        if self.enable {
            self.value
        } else {
            Fx { raw: 0 }
        }
    }
}

/// The palette animation clock.
pub struct Animate {
    pub enable: bool,
    pub value: Fx,
    pub speed: Fx,
    pub reverse: bool,
}

impl Animate {
    /// Advance the clock by `dt` seconds when enabled: the value moves by
    /// `speed * dt`, backwards when reversed.
    pub fn tick(&mut self, dt: Fx)
        requires
            old(self).value.wf(),
            old(self).speed.wf(),
            dt.wf(),
        ensures
            final(self).value.raw == (if old(self).enable {
                if old(self).reverse {
                    crate::fx::fx_sub_spec(
                        old(self).value.raw as int,
                        crate::fx::fx_mul_spec(old(self).speed.raw as int, dt.raw as int),
                    )
                } else {
                    crate::fx::fx_add_spec(
                        old(self).value.raw as int,
                        crate::fx::fx_mul_spec(old(self).speed.raw as int, dt.raw as int),
                    )
                }
            } else {
                old(self).value.raw as int
            }),
            final(self).value.wf(),
            final(self).speed == old(self).speed,
            final(self).enable == old(self).enable,
            final(self).reverse == old(self).reverse,
    {
        if self.enable {
            let step = self.speed.mul(dt);
            if self.reverse {
                self.value = self.value.sub(step);
            } else {
                self.value = self.value.add(step);
            }
        }
    }
}

/// The cached reference orbit of the primary view.
pub struct MandelbrotReference {
    pub points: Vec<FxComplex>,
    pub num_ref_iterations: u32,
    pub recompute: bool,
}

/// Per-frame parameter drift rates driven by held keys.
pub struct DeltaParams {
    pub iterations: Fx,
    pub period: Fx,
    pub zoom: Fx,
    pub translate: FxComplex,
    pub animation_speed: Fx,
    pub exponent: Fx,
}

/// The interactive state of the explorer.
pub struct Controller {
    pub size: Size,
    pub cursor: FxComplex,
    pub mouse_button_pressed: u32,
    pub cameras: Cameras,
    pub debug: bool,
    pub num_iterations: NumIterations,
    pub marker_iterations: MarkerIterations,
    pub context_menu: Option<FxComplex>,
    pub render_julia_set: bool,
    pub render_split: RenderSplit,
    pub palette: Palette,
    pub palette_period: Fx,
    pub smooth: Smooth,
    pub animate: Animate,
    pub show_fps: bool,
    pub render_style: RenderStyle,
    pub mandelbrot_reference: MandelbrotReference,
    pub render_partitioning: RenderPartitioning,
    pub delta_params: DeltaParams,
    pub exponent: Fx,
    pub escape_radius: Fx,
    pub iteration_mode: IterationMode,
    pub ctrl_down: bool,
    pub touches: Vec<(u64, Touch)>,
    pub max_zoom_mandelbrot: BigReal,
    pub max_zoom_julia: BigReal,
}

impl Controller {
    /// The controller's invariant. It carries the zoom-clamp law for both
    /// cameras and keeps every numeric field inside the ranges the handlers
    /// rely on.
    pub open spec fn wf(self) -> bool {
        &&& self.cameras.mandelbrot.wf(self.max_zoom_mandelbrot)
        &&& self.cameras.julia.wf(self.max_zoom_julia)
        &&& max_zoom_wf(self.max_zoom_mandelbrot)
        &&& max_zoom_wf(self.max_zoom_julia)
        &&& self.marker_iterations.position.wf()
        &&& self.marker_iterations.position.frac() == PRECISION
        &&& self.render_split.value.wf()
        &&& self.num_iterations.wf()
        &&& self.palette_period.wf()
        &&& self.smooth.value.wf()
        &&& 0 <= self.smooth.value.raw <= FX_SCALE
        &&& self.animate.value.wf()
        &&& self.animate.speed.wf()
        &&& self.exponent.wf()
        &&& FX_SCALE <= self.exponent.raw
        &&& self.escape_radius.wf()
        &&& 0 < self.escape_radius.raw
        &&& self.delta_params.iterations.wf()
        &&& self.delta_params.period.wf()
        &&& self.delta_params.zoom.wf()
        &&& self.delta_params.translate.wf()
        &&& self.delta_params.animation_speed.wf()
        &&& self.delta_params.exponent.wf()
        &&& self.cursor.wf()
        &&& iabs(self.cursor.x.raw as int) < FX_SAFE_RAW
        &&& iabs(self.cursor.y.raw as int) < FX_SAFE_RAW
        &&& self.mandelbrot_reference.points@.len() == self.mandelbrot_reference.num_ref_iterations
            + 1
        &&& forall|k: int|
            0 <= k < self.mandelbrot_reference.points@.len() ==> (
            #[trigger] self.mandelbrot_reference.points@[k]).wf()
        &&& forall|i: int, j: int|
            0 <= i < j < self.touches@.len() ==> (#[trigger] self.touches@[i]).0 != (
            #[trigger] self.touches@[j]).0
        &&& forall|i: int|
            0 <= i < self.touches@.len() ==> (#[trigger] self.touches@[i]).1.pos.wf() && iabs(
                self.touches@[i].1.pos.x.raw as int,
            ) < FX_SAFE_RAW && iabs(self.touches@[i].1.pos.y.raw as int) < FX_SAFE_RAW
    }

    /// Make the initial controller state: both cameras at their home views,
    /// every flag primed for a first frame.
    pub fn new(options: &Options) -> (r: Controller)
        ensures
            r.wf(),
            r.debug == options.debug,
            r.cameras.mandelbrot.zoom.num() == 1288490189 * pow2(32),
            r.cameras.mandelbrot.translate.nums() == ((-3221225472) * (pow2(160) as int), 0int),
            r.cameras.mandelbrot.needs_reiterate,
            !r.cameras.mandelbrot.grabbing,
            r.cameras.julia.zoom.num() == 1073741824 * pow2(32),
            r.cameras.julia.translate.nums() == (0int, 0int),
            r.cameras.julia.needs_reiterate,
            !r.cameras.julia.grabbing,
            r.exponent.raw == 2 * FX_SCALE,
            r.escape_radius.raw == 2 * FX_SCALE,
            r.num_iterations.n.raw == 25 * FX_SCALE,
            r.num_iterations.mode == NumIterationsMode::Additional,
            r.iteration_mode == IterationMode::Regular,
            r.touches@.len() == 0,
            !r.render_julia_set,
            r.render_split.value.raw == FX_SCALE / 2,
            r.render_split.dragging == Option::<SplitAxis>::None,
            r.mouse_button_pressed == 0,
            r.cursor.rep() == (0int, 0int),
            !r.marker_iterations.enabled,
            !r.marker_iterations.dragging,
            r.mandelbrot_reference.recompute,
            r.mandelbrot_reference.num_ref_iterations == 0,
            r.context_menu == Option::<FxComplex>::None,
            r.palette == Palette::Pastel,
            r.render_style == RenderStyle::Iterations,
            r.render_partitioning == RenderPartitioning::Outside,
            r.smooth.enable && r.smooth.value.raw == FX_SCALE,
            r.animate.enable && r.animate.value.raw == 0 && !r.animate.reverse,
            r.delta_params.zoom.raw == 0 && r.delta_params.iterations.raw == 0
                && r.delta_params.exponent.raw == 0 && r.delta_params.period.raw == 0
                && r.delta_params.animation_speed.raw == 0 && r.delta_params.translate.rep() == (
                0int,
                0int,
            ),
            r.max_zoom_mandelbrot.num() == 1000000000000000000000000000000000000 && r
                .max_zoom_mandelbrot.frac == 0,
            r.max_zoom_julia.num() == 1000000 && r.max_zoom_julia.frac == 0,
    {
        let julia_translate = BigVec2::from_fx2(FxComplex::zero()).with_precision(PRECISION);
        let mandelbrot_translate = BigVec2::from_fx2(
            FxComplex::new(Fx { raw: -3 * (FX_SCALE / 4) }, Fx { raw: 0 }),
        ).with_precision(PRECISION);
        let julia_zoom = BigReal::from_fx(Fx { raw: FX_SCALE / 4 }).align(ZOOM_FRAC);
        let mandelbrot_zoom = BigReal::from_fx(Fx { raw: 1288490189 }).align(ZOOM_FRAC);
        let max_zoom_mandelbrot = max_zoom_mandelbrot_value();
        let max_zoom_julia = max_zoom_julia_value();
        proof {
            vstd::arithmetic::power2::lemma2_to64();
            assert(min_zoom_num() == 214748365 * 0x1_0000_0000);
        }
        Controller {
            size: Size { x: 0, y: 0 },
            cursor: FxComplex::zero(),
            mouse_button_pressed: 0,
            cameras: Cameras {
                mandelbrot: Camera::new(mandelbrot_zoom, mandelbrot_translate),
                julia: Camera::new(julia_zoom, julia_translate),
            },
            debug: options.debug,
            num_iterations: NumIterations {
                n: Fx { raw: 25 * FX_SCALE },
                mode: NumIterationsMode::Additional,
            },
            marker_iterations: MarkerIterations {
                enabled: false,
                dragging: false,
                position: BigVec2::from_fx2(
                    FxComplex::new(Fx { raw: -3295632650 }, Fx { raw: -726510273 }),
                ).with_precision(PRECISION),
                points: Vec::new(),
                recompute: false,
                stats: MarkerIterationStats {
                    final_norm: Fx { raw: 0 },
                    final_distance: Fx { raw: 0 },
                    final_angle: Fx { raw: 0 },
                    angle_sum: Fx { raw: 0 },
                    distance_sum: Fx { raw: 0 },
                    norm_sum: Fx { raw: 0 },
                    proximity: Fx { raw: 0 },
                    count: 0,
                },
            },
            context_menu: None,
            render_julia_set: false,
            render_split: RenderSplit { value: Fx { raw: FX_SCALE / 2 }, dragging: None },
            palette: Palette::Pastel,
            palette_period: Fx { raw: FX_SCALE / 2 },
            smooth: Smooth { enable: true, value: Fx { raw: FX_SCALE } },
            animate: Animate {
                enable: true,
                value: Fx { raw: 0 },
                speed: Fx { raw: FX_SCALE / 10 },
                reverse: false,
            },
            show_fps: false,
            render_style: RenderStyle::Iterations,
            mandelbrot_reference: MandelbrotReference {
                points: vec![FxComplex { x: Fx { raw: 0 }, y: Fx { raw: 0 } }],
                num_ref_iterations: 0,
                recompute: true,
            },
            render_partitioning: RenderPartitioning::Outside,
            delta_params: DeltaParams {
                iterations: Fx { raw: 0 },
                period: Fx { raw: 0 },
                zoom: Fx { raw: 0 },
                translate: FxComplex::zero(),
                animation_speed: Fx { raw: 0 },
                exponent: Fx { raw: 0 },
            },
            exponent: Fx { raw: 2 * FX_SCALE },
            escape_radius: Fx { raw: 2 * FX_SCALE },
            iteration_mode: IterationMode::Regular,
            ctrl_down: false,
            touches: Vec::new(),
            max_zoom_mandelbrot,
            max_zoom_julia,
        }
    }
}

/// The screen offset of a position from the screen center, on the
/// fixed-point grid.
pub open spec fn screen_offset_spec(pos: (int, int), size: Size) -> (int, int) {
    (
        crate::fx::fx_sub_spec(pos.0, ((size.x as int) * FX_SCALE) / 2),
        crate::fx::fx_sub_spec(pos.1, ((size.y as int) * FX_SCALE) / 2),
    )
}

/// The screen offset of a position from the screen center.
fn screen_offset(pos: FxComplex, size: Size) -> (r: FxComplex)
    requires
        pos.wf(),
    ensures
        r.rep() == screen_offset_spec(pos.rep(), size),
        r.wf(),
{
    let half_x = Fx { raw: ((size.x as i128) * FX_SCALE) / 2 };
    let half_y = Fx { raw: ((size.y as i128) * FX_SCALE) / 2 };
    FxComplex { x: pos.x.sub(half_x), y: pos.y.sub(half_y) }
}

/// The clamp applied to one pointer coordinate.
pub open spec fn clamp_coord_spec(v: int) -> int {
    if v >= FX_SAFE_RAW {
        FX_SAFE_RAW - 1
    } else if v <= -FX_SAFE_RAW {
        -(FX_SAFE_RAW - 1)
    } else {
        v
    }
}

/// The clamp applied to a pointer position.
pub open spec fn clamp_pointer_spec(pos: (int, int)) -> (int, int) {
    (clamp_coord_spec(pos.0), clamp_coord_spec(pos.1))
}

/// Clamp a pointer position into the range where screen arithmetic cannot
/// saturate.
fn clamp_pointer(pos: FxComplex) -> (r: FxComplex)
    requires
        pos.wf(),
    ensures
        r.rep() == clamp_pointer_spec(pos.rep()),
        r.wf(),
        iabs(r.x.raw as int) < FX_SAFE_RAW,
        iabs(r.y.raw as int) < FX_SAFE_RAW,
{
    let cx: Fx = if pos.x.raw >= FX_SAFE_RAW {
        Fx { raw: FX_SAFE_RAW - 1 }
    } else if pos.x.raw <= -FX_SAFE_RAW {
        Fx { raw: -(FX_SAFE_RAW - 1) }
    } else {
        pos.x
    };
    let cy: Fx = if pos.y.raw >= FX_SAFE_RAW {
        Fx { raw: FX_SAFE_RAW - 1 }
    } else if pos.y.raw <= -FX_SAFE_RAW {
        Fx { raw: -(FX_SAFE_RAW - 1) }
    } else {
        pos.y
    };
    FxComplex { x: cx, y: cy }
}

impl Controller {
    /// Whether a screen position falls in the secondary (Julia) region of
    /// the split.
    pub open spec fn pos_in_julia_spec(self, pos: (int, int)) -> bool {
        let vertical = self.size.x > self.size.y;
        let pos_n = if vertical {
            pos.0
        } else {
            pos.1
        };
        let size_n = if vertical {
            (self.size.x as int) * FX_SCALE
        } else {
            (self.size.y as int) * FX_SCALE
        };
        self.render_julia_set && pos_n > crate::fx::fx_mul_spec(
            size_n,
            self.render_split.value.raw as int,
        )
    }

    /// Route a screen position to its owning view.
    pub fn is_pos_in_julia(&self, pos: FxComplex) -> (r: bool)
        requires
            self.wf(),
            pos.wf(),
        ensures
            r == self.pos_in_julia_spec(pos.rep()),
    {
        if !self.render_julia_set {
            return false;
        }
        let vertical = self.size.x > self.size.y;
        let pos_n: Fx = if vertical {
            pos.x
        } else {
            pos.y
        };
        let size_n = Fx {
            raw: if vertical {
                (self.size.x as i128) * FX_SCALE
            } else {
                (self.size.y as i128) * FX_SCALE
            },
        };
        let bound = size_n.mul(self.render_split.value);
        pos_n.raw > bound.raw
    }

    /// Route the cursor to its owning view.
    pub fn is_cursor_in_julia(&self) -> (r: bool)
        requires
            self.wf(),
        ensures
            r == self.pos_in_julia_spec(self.cursor.rep()),
    {
        self.is_pos_in_julia(self.cursor)
    }

    /// The plane point of the primary view under a screen position, at full
    /// precision.
    pub fn to_uv_space_big(&self, p: FxComplex) -> (r: BigVec2)
        requires
            self.wf(),
            p.wf(),
            1 <= self.size.y,
        ensures
            r.nums() == crate::camera::plane_point_spec(
                screen_offset_spec(p.rep(), self.size),
                self.cameras.mandelbrot.zoom.num(),
                ZOOM_FRAC as nat,
                self.size.y as int,
                self.cameras.mandelbrot.translate,
            ),
            r.frac() == PRECISION,
            r.wf(),
    {
        proof {
            crate::camera::lemma_min_zoom_pos();
        }
        let off = screen_offset(p, self.size);
        let d = plane_offset(off, &self.cameras.mandelbrot.zoom, self.size.y);
        let r = self.cameras.mandelbrot.translate.add(&d);
        proof {
            d.x.lemma_scaled_id();
            d.y.lemma_scaled_id();
            self.cameras.mandelbrot.translate.x.lemma_scaled_id();
            self.cameras.mandelbrot.translate.y.lemma_scaled_id();
        }
        r
    }

    /// The inverse screen mapping of the primary view, exactly as computed:
    /// the plane offset from the translate, downcast to machine precision,
    /// scaled by the downcast zoom and the screen height, and re-centered.
    pub open spec fn to_screen_spec(self, p: BigVec2) -> (int, int) {
        let m = if p.frac() >= PRECISION {
            p.frac() as int
        } else {
            PRECISION as int
        };
        let dx = p.x.scaled(m) - self.cameras.mandelbrot.translate.x.scaled(m);
        let dy = p.y.scaled(m) - self.cameras.mandelbrot.translate.y.scaled(m);
        let zf = crate::bigreal::num_to_fx_val(
            self.cameras.mandelbrot.zoom.num(),
            self.cameras.mandelbrot.zoom.frac as nat,
        );
        let syr = (self.size.y as int) * FX_SCALE;
        (
            crate::fx::fx_add_spec(
                crate::fx::fx_mul_spec(
                    crate::fx::fx_mul_spec(crate::bigreal::num_to_fx_val(dx, m as nat), zf),
                    syr,
                ),
                ((self.size.x as int) * FX_SCALE) / 2,
            ),
            crate::fx::fx_add_spec(
                crate::fx::fx_mul_spec(
                    crate::fx::fx_mul_spec(crate::bigreal::num_to_fx_val(dy, m as nat), zf),
                    syr,
                ),
                ((self.size.y as int) * FX_SCALE) / 2,
            ),
        )
    }

    /// The screen position of a full-precision plane point of the primary
    /// view: the inverse of the screen-to-plane mapping, at machine
    /// precision.
    pub fn to_screen_space_big(&self, p: &BigVec2) -> (r: FxComplex)
        requires
            self.wf(),
            p.wf(),
        ensures
            r.rep() == self.to_screen_spec(*p),
            r.wf(),
    {
        let d = p.sub(&self.cameras.mandelbrot.translate);
        let df = d.as_fx2();
        let zoom_fx = self.cameras.mandelbrot.zoom.to_fx();
        proof {
            d.x.lemma_to_fx_val();
            d.y.lemma_to_fx_val();
            self.cameras.mandelbrot.zoom.lemma_to_fx_val();
        }
        let sy = Fx::from_i64(self.size.y as i64);
        let half_x = Fx { raw: ((self.size.x as i128) * FX_SCALE) / 2 };
        let half_y = Fx { raw: ((self.size.y as i128) * FX_SCALE) / 2 };
        FxComplex {
            x: df.x.mul(zoom_fx).mul(sy).add(half_x),
            y: df.y.mul(zoom_fx).mul(sy).add(half_y),
        }
    }

    /// Whether a position falls within grab distance of the split boundary:
    /// its fraction along the split axis is close to the split value.
    pub open spec fn on_split_spec(self, pos: (int, int)) -> bool {
        let vertical = self.size.x > self.size.y;
        let pos_n = if vertical {
            pos.0
        } else {
            pos.1
        };
        let size_n = if vertical {
            (self.size.x as int) * FX_SCALE
        } else {
            (self.size.y as int) * FX_SCALE
        };
        &&& self.render_julia_set
        &&& self.size.x > 0
        &&& self.size.y > 0
        &&& iabs(
            crate::fx::fx_div_spec(iabs(pos_n), size_n) - self.render_split.value.raw,
        ) < SPLIT_GRAB_RAW
    }

    /// Whether a position grabs the split boundary, and along which axis.
    pub fn pos_on_render_split(&self, pos: FxComplex) -> (r: Option<SplitAxis>)
        requires
            self.wf(),
            pos.wf(),
            iabs(pos.x.raw as int) < FX_SAFE_RAW,
            iabs(pos.y.raw as int) < FX_SAFE_RAW,
        ensures
            matches!(r, Option::Some(_)) == self.on_split_spec(pos.rep()),
            r == (if self.on_split_spec(pos.rep()) {
                Some(
                    if self.size.x > self.size.y {
                        SplitAxis::Horizontal
                    } else {
                        SplitAxis::Vertical
                    },
                )
            } else {
                Option::<SplitAxis>::None
            }),
    {
        if !self.render_julia_set || self.size.x == 0 || self.size.y == 0 {
            return None;
        }
        let vertical = self.size.x > self.size.y;
        let (pos_n, size_n, axis) = if vertical {
            (pos.x, Fx { raw: (self.size.x as i128) * FX_SCALE }, SplitAxis::Horizontal)
        } else {
            (pos.y, Fx { raw: (self.size.y as i128) * FX_SCALE }, SplitAxis::Vertical)
        };
        let frac = pos_n.abs().div(size_n);
        let d = frac.sub(self.render_split.value).abs();
        if d.raw < SPLIT_GRAB_RAW {
            Some(axis)
        } else {
            None
        }
    }

    /// Whether the cursor grabs the split boundary.
    pub fn can_grab_render_split(&self) -> (r: Option<SplitAxis>)
        requires
            self.wf(),
        ensures
            matches!(r, Option::Some(_)) == self.on_split_spec(self.cursor.rep()),
    {
        self.pos_on_render_split(self.cursor)
    }

    /// Whether a position lands within the marker overlay's radius: the
    /// marker or the secondary view is shown, the cursor is in the primary
    /// region, and the squared screen distance to the marker is inside the
    /// marker disk.
    pub open spec fn on_marker_spec(self, pos: (int, int)) -> bool {
        &&& self.marker_iterations.enabled || self.render_julia_set
        &&& !self.pos_in_julia_spec(self.cursor.rep())
        &&& crate::complex::c_norm_sq_spec(
            crate::complex::c_sub_spec(pos, self.to_screen_spec(self.marker_iterations.position)),
        ) < 64 * FX_SCALE
    }

    /// Whether a position lands on the marker overlay.
    pub fn pos_on_marker(&self, pos: FxComplex) -> (r: bool)
        requires
            self.wf(),
            pos.wf(),
        ensures
            r == self.on_marker_spec(pos.rep()),
    {
        if !(self.marker_iterations.enabled || self.render_julia_set) {
            return false;
        }
        if self.is_cursor_in_julia() {
            return false;
        }
        let screen = self.to_screen_space_big(&self.marker_iterations.position);
        let d_sq = pos.sub(screen).norm_squared();
        d_sq.raw < 64 * FX_SCALE
    }

    /// Whether the cursor lands on the marker overlay.
    pub fn can_grab_marker(&self) -> (r: bool)
        requires
            self.wf(),
        ensures
            r == self.on_marker_spec(self.cursor.rep()),
    {
        self.pos_on_marker(self.cursor)
    }

    /// A window resize: both views must re-iterate; nothing else changes.
    pub fn resize(&mut self, size: Size)
        requires
            old(self).wf(),
        ensures
            final(self).wf(),
            *final(self) == (Controller {
                size,
                cameras: Cameras {
                    mandelbrot: Camera { needs_reiterate: true, ..old(self).cameras.mandelbrot },
                    julia: Camera { needs_reiterate: true, ..old(self).cameras.julia },
                },
                ..*old(self)
            }),
    {
        self.size = size;
        self.cameras.mandelbrot.needs_reiterate = true;
        self.cameras.julia.needs_reiterate = true;
    }

    /// A pointer move: drag the marker, the split boundary, or a grabbed
    /// camera. The cursor is pinned to the clamped position; each drag
    /// branch's exact effect is stated on the helper it dispatches to and
    /// restated here.
    pub fn mouse_move(&mut self, position: FxComplex)
        requires
            old(self).wf(),
            position.wf(),
        ensures
            final(self).wf(),
            final(self).cursor.rep() == clamp_pointer_spec(position.rep()),
            old(self).marker_iterations.dragging ==> marker_drag_effect_spec(
                *old(self),
                clamp_pointer_spec(position.rep()),
                *final(self),
            ),
            !old(self).marker_iterations.dragging && (matches!(
                old(self).render_split.dragging,
                Option::Some(_),
            )) ==> split_drag_effect_spec(
                *old(self),
                clamp_pointer_spec(position.rep()),
                *final(self),
            ),
            old(self).cameras.mandelbrot.grabbing && !old(self).marker_iterations.dragging && (
            matches!(old(self).render_split.dragging, Option::None)) && old(self).size.y >= 1
                ==> ({
                let d = crate::complex::c_sub_spec(
                    old(self).cursor.rep(),
                    final(self).cursor.rep(),
                );
                let dn = old(self).cameras.mandelbrot.zoom.num() * ((old(self).size.y as int)
                    * FX_SCALE);
                let df = (ZOOM_FRAC + crate::fx::FX_FRAC_BITS) as nat;
                final(self).cameras.mandelbrot.translate.nums() == (
                    old(self).cameras.mandelbrot.translate.x.num() + crate::camera::pos_div_num(
                        d.0,
                        crate::fx::FX_FRAC_BITS as nat,
                        dn,
                        df,
                        PRECISION as nat,
                    ),
                    old(self).cameras.mandelbrot.translate.y.num() + crate::camera::pos_div_num(
                        d.1,
                        crate::fx::FX_FRAC_BITS as nat,
                        dn,
                        df,
                        PRECISION as nat,
                    ),
                ) && final(self).cameras.mandelbrot.needs_reiterate
                    && final(self).mandelbrot_reference.recompute
            }),
            old(self).cameras.julia.grabbing && !old(self).marker_iterations.dragging && (
            matches!(old(self).render_split.dragging, Option::None)) && old(self).size.y >= 1
                ==> ({
                let d = crate::complex::c_sub_spec(
                    old(self).cursor.rep(),
                    final(self).cursor.rep(),
                );
                let dn = old(self).cameras.julia.zoom.num() * ((old(self).size.y as int)
                    * FX_SCALE);
                let df = (ZOOM_FRAC + crate::fx::FX_FRAC_BITS) as nat;
                final(self).cameras.julia.translate.nums() == (
                    old(self).cameras.julia.translate.x.num() + crate::camera::pos_div_num(
                        d.0,
                        crate::fx::FX_FRAC_BITS as nat,
                        dn,
                        df,
                        PRECISION as nat,
                    ),
                    old(self).cameras.julia.translate.y.num() + crate::camera::pos_div_num(
                        d.1,
                        crate::fx::FX_FRAC_BITS as nat,
                        dn,
                        df,
                        PRECISION as nat,
                    ),
                ) && final(self).cameras.julia.needs_reiterate
            }),
    {
        let prev_cursor = self.cursor;
        self.cursor = clamp_pointer(position);
        if self.marker_iterations.dragging {
            self.marker_drag_move(prev_cursor);
        } else if matches!(self.render_split.dragging, Option::Some(_)) {
            self.split_drag_move(prev_cursor);
        } else {
            self.pan_grabbed_cameras(prev_cursor);
        }
    }

    /// Pan every grabbed camera by the cursor's screen delta.
    fn pan_grabbed_cameras(&mut self, prev_cursor: FxComplex)
        requires
            old(self).wf(),
            prev_cursor.wf(),
            iabs(prev_cursor.x.raw as int) < FX_SAFE_RAW,
            iabs(prev_cursor.y.raw as int) < FX_SAFE_RAW,
        ensures
            final(self).wf(),
            final(self).cursor == old(self).cursor,
            old(self).cameras.mandelbrot.grabbing && old(self).size.y >= 1 ==> ({
                let d = crate::complex::c_sub_spec(prev_cursor.rep(), old(self).cursor.rep());
                let dn = old(self).cameras.mandelbrot.zoom.num() * ((old(self).size.y as int)
                    * FX_SCALE);
                let df = (ZOOM_FRAC + crate::fx::FX_FRAC_BITS) as nat;
                final(self).cameras.mandelbrot.translate.nums() == (
                    old(self).cameras.mandelbrot.translate.x.num() + crate::camera::pos_div_num(
                        d.0,
                        crate::fx::FX_FRAC_BITS as nat,
                        dn,
                        df,
                        PRECISION as nat,
                    ),
                    old(self).cameras.mandelbrot.translate.y.num() + crate::camera::pos_div_num(
                        d.1,
                        crate::fx::FX_FRAC_BITS as nat,
                        dn,
                        df,
                        PRECISION as nat,
                    ),
                ) && final(self).cameras.mandelbrot.needs_reiterate
                    && final(self).mandelbrot_reference.recompute
            }),
            old(self).cameras.julia.grabbing && old(self).size.y >= 1 ==> ({
                let d = crate::complex::c_sub_spec(prev_cursor.rep(), old(self).cursor.rep());
                let dn = old(self).cameras.julia.zoom.num() * ((old(self).size.y as int)
                    * FX_SCALE);
                let df = (ZOOM_FRAC + crate::fx::FX_FRAC_BITS) as nat;
                final(self).cameras.julia.translate.nums() == (
                    old(self).cameras.julia.translate.x.num() + crate::camera::pos_div_num(
                        d.0,
                        crate::fx::FX_FRAC_BITS as nat,
                        dn,
                        df,
                        PRECISION as nat,
                    ),
                    old(self).cameras.julia.translate.y.num() + crate::camera::pos_div_num(
                        d.1,
                        crate::fx::FX_FRAC_BITS as nat,
                        dn,
                        df,
                        PRECISION as nat,
                    ),
                ) && final(self).cameras.julia.needs_reiterate
            }),
            final(self).cameras.mandelbrot.zoom == old(self).cameras.mandelbrot.zoom,
            final(self).cameras.julia.zoom == old(self).cameras.julia.zoom,
    {
        if self.cameras.mandelbrot.grabbing {
            self.mandelbrot_reference.recompute = true;
        }
        if self.size.y >= 1 {
            let delta = prev_cursor.sub(self.cursor);
            if self.cameras.mandelbrot.grabbing {
                self.context_menu = None;
                pan_camera(&mut self.cameras.mandelbrot, delta, self.size.y);
            }
            if self.cameras.julia.grabbing {
                self.context_menu = None;
                pan_camera(&mut self.cameras.julia, delta, self.size.y);
            }
        }
    }

    /// Drag the marker by the cursor's plane displacement in the primary
    /// view, and flag the dependents.
    fn marker_drag_move(&mut self, prev_cursor: FxComplex)
        requires
            old(self).wf(),
            prev_cursor.wf(),
            iabs(prev_cursor.x.raw as int) < FX_SAFE_RAW,
            iabs(prev_cursor.y.raw as int) < FX_SAFE_RAW,
        ensures
            final(self).wf(),
            marker_drag_effect_spec(
                (Controller { cursor: prev_cursor, ..*old(self) }),
                old(self).cursor.rep(),
                *final(self),
            ),
            final(self).cursor == old(self).cursor,
    {
        if self.size.y >= 1 {
            proof {
                crate::camera::lemma_min_zoom_pos();
            }
            let off_cur = screen_offset(self.cursor, self.size);
            let off_prev = screen_offset(prev_cursor, self.size);
            let a = plane_offset(off_cur, &self.cameras.mandelbrot.zoom, self.size.y);
            let b = plane_offset(off_prev, &self.cameras.mandelbrot.zoom, self.size.y);
            let d = a.sub(&b);
            proof {
                a.x.lemma_scaled_id();
                a.y.lemma_scaled_id();
                b.x.lemma_scaled_id();
                b.y.lemma_scaled_id();
                d.x.lemma_scaled_id();
                d.y.lemma_scaled_id();
                self.marker_iterations.position.x.lemma_scaled_id();
                self.marker_iterations.position.y.lemma_scaled_id();
            }
            self.marker_iterations.position = self.marker_iterations.position.add(&d);
        }
        self.marker_iterations.recompute = self.marker_iterations.enabled;
        self.cameras.julia.needs_reiterate = true;
    }

    /// Move the split boundary by the cursor's screen-fraction delta along
    /// the split axis, dirtying the view that grew.
    fn split_drag_move(&mut self, prev_cursor: FxComplex)
        requires
            old(self).wf(),
            prev_cursor.wf(),
            iabs(prev_cursor.x.raw as int) < FX_SAFE_RAW,
            iabs(prev_cursor.y.raw as int) < FX_SAFE_RAW,
        ensures
            final(self).wf(),
            split_drag_effect_spec(
                (Controller { cursor: prev_cursor, ..*old(self) }),
                old(self).cursor.rep(),
                *final(self),
            ),
            final(self).cursor == old(self).cursor,
    {
        if self.size.x >= 1 && self.size.y >= 1 {
            let delta = prev_cursor.sub(self.cursor);
            let (d_n, size_n) = if self.size.x > self.size.y {
                (delta.x, Fx { raw: (self.size.x as i128) * FX_SCALE })
            } else {
                (delta.y, Fx { raw: (self.size.y as i128) * FX_SCALE })
            };
            let value = d_n.div(size_n);
            self.render_split.value = self.render_split.value.sub(value);
            if value.raw > 0 {
                self.cameras.julia.needs_reiterate = true;
            } else if value.raw < 0 {
                self.cameras.mandelbrot.needs_reiterate = true;
            }
        }
    }

    /// A wheel-zoom event on the view under the cursor: the owning camera's
    /// zoom is scaled by one plus the scroll rate times the wheel delta,
    /// clamped into its range, anchored at the cursor; the dependent views
    /// are dirtied; a zero delta or an empty screen leaves everything
    /// untouched.
    ///
    /// The anchor clause is the zoom-to-cursor law: the plane point under
    /// the cursor in the zoomed view is the same before and after the event.
    pub fn mouse_scroll(&mut self, delta: FxComplex)
        requires
            old(self).wf(),
            delta.wf(),
        ensures
            final(self).wf(),
            delta.y.raw == 0 || old(self).size.y < 1 ==> *final(self) == *old(self),
            delta.y.raw != 0 && old(self).size.y >= 1 ==> ({
                let in_julia = old(self).pos_in_julia_spec(old(self).cursor.rep());
                let factor = crate::fx::fx_add_spec(
                    FX_SCALE as int,
                    crate::fx::fx_mul_spec(delta.y.raw as int, SCROLL_RATE_RAW as int),
                );
                &&& in_julia ==> final(self).cameras.julia.zoom.num()
                    == crate::camera::zoom_scaled_spec(
                    old(self).cameras.julia.zoom.num(),
                    factor,
                    old(self).max_zoom_julia.scaled(ZOOM_FRAC as int),
                ) && final(self).cameras.mandelbrot == old(self).cameras.mandelbrot && final(self).mandelbrot_reference.recompute == old(self).mandelbrot_reference.recompute
                    && final(self).marker_iterations.recompute == old(self).marker_iterations.recompute
                &&& !in_julia ==> final(self).cameras.mandelbrot.zoom.num()
                    == crate::camera::zoom_scaled_spec(
                    old(self).cameras.mandelbrot.zoom.num(),
                    factor,
                    old(self).max_zoom_mandelbrot.scaled(ZOOM_FRAC as int),
                ) && final(self).cameras.julia.zoom == old(self).cameras.julia.zoom && final(self).cameras.julia.translate == old(self).cameras.julia.translate && final(self).cameras.mandelbrot.needs_reiterate && final(self).mandelbrot_reference.recompute
                    && final(self).marker_iterations.recompute == old(self).marker_iterations.enabled
                &&& final(self).cameras.julia.needs_reiterate
                &&& final(self).cursor == old(self).cursor
                &&& final(self).render_split == old(self).render_split
                &&& final(self).touches == old(self).touches
                &&& final(self).marker_iterations.position == old(self).marker_iterations.position
            }),
            delta.y.raw != 0 && old(self).size.y >= 1 ==> ({
                let off = screen_offset_spec(old(self).cursor.rep(), old(self).size);
                if old(self).pos_in_julia_spec(old(self).cursor.rep()) {
                    crate::camera::plane_point_spec(
                        off,
                        final(self).cameras.julia.zoom.num(),
                        ZOOM_FRAC as nat,
                        old(self).size.y as int,
                        final(self).cameras.julia.translate,
                    ) == crate::camera::plane_point_spec(
                        off,
                        old(self).cameras.julia.zoom.num(),
                        ZOOM_FRAC as nat,
                        old(self).size.y as int,
                        old(self).cameras.julia.translate,
                    )
                } else {
                    crate::camera::plane_point_spec(
                        off,
                        final(self).cameras.mandelbrot.zoom.num(),
                        ZOOM_FRAC as nat,
                        old(self).size.y as int,
                        final(self).cameras.mandelbrot.translate,
                    ) == crate::camera::plane_point_spec(
                        off,
                        old(self).cameras.mandelbrot.zoom.num(),
                        ZOOM_FRAC as nat,
                        old(self).size.y as int,
                        old(self).cameras.mandelbrot.translate,
                    )
                }
            }),
    {
        if delta.y.raw == 0 {
            return;
        }
        if self.size.y < 1 {
            return;
        }
        let in_julia = self.is_cursor_in_julia();
        let off = screen_offset(self.cursor, self.size);
        let val = delta.y.mul(Fx { raw: SCROLL_RATE_RAW });
        let factor = Fx { raw: FX_SCALE }.add(val);
        if in_julia {
            anchor_zoom_camera(
                &mut self.cameras.julia,
                off,
                self.size.y,
                factor,
                &self.max_zoom_julia,
            );
        } else {
            anchor_zoom_camera(
                &mut self.cameras.mandelbrot,
                off,
                self.size.y,
                factor,
                &self.max_zoom_mandelbrot,
            );
        }
        self.cameras.julia.needs_reiterate = true;
        if !in_julia {
            self.mandelbrot_reference.recompute = true;
            self.cameras.mandelbrot.needs_reiterate = true;
            self.marker_iterations.recompute = self.marker_iterations.enabled;
        }
    }

    /// A pointer button event: the pressed-button mask follows the button's
    /// bit exactly; a left press starts the marker, split or camera grab by
    /// hit test; a left release ends every grab and clamps the split back
    /// into range; a right press opens the context menu.
    pub fn mouse_input(&mut self, state: ButtonState, button: MouseButton)
        requires
            old(self).wf(),
        ensures
            final(self).wf(),
            ({
                let mask: u32 = 1u32 << button_shift_spec(button);
                final(self).mouse_button_pressed == (match state {
                    ButtonState::Pressed => old(self).mouse_button_pressed | mask,
                    ButtonState::Released => old(self).mouse_button_pressed & !mask,
                })
            }),
            matches!(button, MouseButton::Left) && matches!(state, ButtonState::Pressed) ==> ({
                &&& final(self).marker_iterations.dragging == old(self).on_marker_spec(
                    old(self).cursor.rep(),
                )
                &&& ((final(self).render_split.dragging != Option::<SplitAxis>::None) == old(self).on_split_spec(old(self).cursor.rep()))
                &&& old(self).pos_in_julia_spec(old(self).cursor.rep()) ==> final(self).cameras.julia.grabbing
                &&& !old(self).pos_in_julia_spec(old(self).cursor.rep()) ==> final(self).cameras.mandelbrot.grabbing
            }),
            matches!(button, MouseButton::Left) && matches!(state, ButtonState::Released) ==> ({
                &&& !final(self).marker_iterations.dragging
                &&& final(self).render_split.dragging == Option::<SplitAxis>::None
                &&& !final(self).cameras.mandelbrot.grabbing
                &&& !final(self).cameras.julia.grabbing
                &&& final(self).render_split.value.raw == ({
                    let v = old(self).render_split.value.raw as int;
                    if v < 0 {
                        0int
                    } else if v > FX_SCALE {
                        FX_SCALE as int
                    } else {
                        v
                    }
                })
            }),
            matches!(button, MouseButton::Right) && matches!(state, ButtonState::Pressed)
                ==> final(self).context_menu == Some(old(self).cursor),
            !matches!(button, MouseButton::Left) ==> final(self).cameras.mandelbrot == old(self).cameras.mandelbrot && final(self).cameras.julia == old(self).cameras.julia && final(self).render_split == old(self).render_split,
    {
        let pressed = matches!(state, ButtonState::Pressed);
        match button {
            MouseButton::Left => {
                if pressed {
                    let grab_marker = self.can_grab_marker();
                    let grab_split = self.can_grab_render_split();
                    let in_julia = self.is_cursor_in_julia();
                    self.marker_iterations.dragging = grab_marker;
                    self.render_split.dragging = grab_split;
                    if in_julia {
                        self.cameras.julia.grabbing = true;
                    } else {
                        self.cameras.mandelbrot.grabbing = true;
                    }
                } else {
                    self.marker_iterations.dragging = false;
                    self.render_split.dragging = None;
                    self.cameras.mandelbrot.grabbing = false;
                    self.cameras.julia.grabbing = false;
                    let v = self.render_split.value;
                    self.render_split.value = if v.raw < 0 {
                        Fx { raw: 0 }
                    } else if v.raw > FX_SCALE {
                        Fx { raw: FX_SCALE }
                    } else {
                        v
                    };
                }
            },
            MouseButton::Right => {
                if pressed {
                    self.context_menu = Some(self.cursor);
                }
            },
            _ => {},
        }
        let shift: u32 = match button {
            MouseButton::Left => 0,
            MouseButton::Middle => 1,
            MouseButton::Right => 2,
            MouseButton::Back => 3,
            MouseButton::Forward => 4,
            MouseButton::Other(i) => {
                if i < 27 {
                    5 + (i as u32)
                } else {
                    31
                }
            },
        };
        let mask: u32 = 1u32 << shift;
        match state {
            ButtonState::Pressed => {
                self.mouse_button_pressed = self.mouse_button_pressed | mask;
            },
            ButtonState::Released => {
                self.mouse_button_pressed = self.mouse_button_pressed & !mask;
            },
        }
    }
}

/// The bit position a pointer button occupies in the pressed-button mask.
pub open spec fn button_shift_spec(button: MouseButton) -> u32 {
    match button {
        MouseButton::Left => 0,
        MouseButton::Middle => 1,
        MouseButton::Right => 2,
        MouseButton::Back => 3,
        MouseButton::Forward => 4,
        MouseButton::Other(i) => if i < 27 {
            (5 + i) as u32
        } else {
            31
        },
    }
}

/// The index of the first entry carrying `id`, or a negative value when
/// there is none.
pub open spec fn touch_index(s: Seq<(u64, Touch)>, id: u64) -> int
    decreases s.len(),
{
    if s.len() == 0 {
        -1
    } else if s[0].0 == id {
        0
    } else {
        let r = touch_index(s.subrange(1, s.len() as int), id);
        if r < 0 {
            -1
        } else {
            r + 1
        }
    }
}

/// The first matching position pins down `touch_index`.
proof fn lemma_touch_index_first(s: Seq<(u64, Touch)>, id: u64, k: int)
    requires
        0 <= k < s.len(),
        s[k].0 == id,
        forall|j: int| 0 <= j < k ==> (#[trigger] s[j]).0 != id,
    ensures
        touch_index(s, id) == k,
    decreases s.len(),
{
    if k > 0 {
        let t = s.subrange(1, s.len() as int);
        assert(t[k - 1] == s[k]);
        assert forall|j: int| 0 <= j < k - 1 implies (#[trigger] t[j]).0 != id by {
            assert(t[j] == s[j + 1]);
        }
        lemma_touch_index_first(t, id, k - 1);
    }
}

/// With no matching entry, `touch_index` is negative.
proof fn lemma_touch_index_none(s: Seq<(u64, Touch)>, id: u64)
    requires
        forall|j: int| 0 <= j < s.len() ==> (#[trigger] s[j]).0 != id,
    ensures
        touch_index(s, id) < 0,
    decreases s.len(),
{
    if s.len() > 0 {
        let t = s.subrange(1, s.len() as int);
        assert forall|j: int| 0 <= j < t.len() implies (#[trigger] t[j]).0 != id by {
            assert(t[j] == s[j + 1]);
        }
        lemma_touch_index_none(t, id);
    }
}

/// The index of the first entry carrying an id other than `id`, or a
/// negative value when there is none.
pub open spec fn first_other_index(s: Seq<(u64, Touch)>, id: u64) -> int
    decreases s.len(),
{
    if s.len() == 0 {
        -1
    } else if s[0].0 != id {
        0
    } else {
        let r = first_other_index(s.subrange(1, s.len() as int), id);
        if r < 0 {
            -1
        } else {
            r + 1
        }
    }
}

/// The first non-matching position pins down `first_other_index`.
proof fn lemma_first_other_at(s: Seq<(u64, Touch)>, id: u64, k: int)
    requires
        0 <= k < s.len(),
        s[k].0 != id,
        forall|j: int| 0 <= j < k ==> (#[trigger] s[j]).0 == id,
    ensures
        first_other_index(s, id) == k,
    decreases s.len(),
{
    if k > 0 {
        let t = s.subrange(1, s.len() as int);
        assert(t[k - 1] == s[k]);
        assert forall|j: int| 0 <= j < k - 1 implies (#[trigger] t[j]).0 == id by {
            assert(t[j] == s[j + 1]);
        }
        lemma_first_other_at(t, id, k - 1);
    }
}

/// The fixed-point pair carrying a raw coordinate pair.
pub open spec fn fxc_of(p: (int, int)) -> FxComplex {
    FxComplex { x: Fx { raw: p.0 as i128 }, y: Fx { raw: p.1 as i128 } }
}

/// The midpoint of two raw coordinates, truncated toward zero.
pub open spec fn mid_spec(a: (int, int), b: (int, int)) -> (int, int) {
    (
        crate::fx::div_toward_zero(a.0 + b.0, 2),
        crate::fx::div_toward_zero(a.1 + b.1, 2),
    )
}

impl Controller {
    /// The index of an active touch by its id: exactly the first match.
    fn find_touch(&self, id: u64) -> (r: Option<usize>)
        ensures
            match r {
                Some(i) => i < self.touches@.len() && self.touches@[i as int].0 == id
                    && touch_index(self.touches@, id) == i as int,
                None => touch_index(self.touches@, id) < 0 && forall|k: int|
                    0 <= k < self.touches@.len() ==> (#[trigger] self.touches@[k]).0 != id,
            },
    {
        let mut k: usize = 0;
        while k < self.touches.len()
            invariant
                k <= self.touches@.len(),
                forall|j: int| 0 <= j < k ==> (#[trigger] self.touches@[j]).0 != id,
            decreases self.touches@.len() - k,
        {
            if self.touches[k].0 == id {
                proof {
                    lemma_touch_index_first(self.touches@, id, k as int);
                }
                return Some(k);
            }
            k = k + 1;
        }
        proof {
            lemma_touch_index_none(self.touches@, id);
        }
        None
    }

    /// Where a fresh touch is routed: the split boundary first, then the
    /// marker, then the view its region owns.
    pub open spec fn touch_route_spec(self, pos: (int, int)) -> TouchType {
        if self.on_split_spec(pos) {
            TouchType::RenderSplit
        } else if self.on_marker_spec(pos) {
            TouchType::Marker
        } else if self.pos_in_julia_spec(pos) {
            TouchType::Julia
        } else {
            TouchType::Mandelbrot
        }
    }

    /// A touch event. Starting stores the touch under its routed target;
    /// moving dispatches a pan or a pinch; ending removes it, and a
    /// stationary touch held longer than the long-press delay opens the
    /// context menu at its position.
    pub fn touch_impl(&mut self, id: u64, phase: TouchPhase, position: FxComplex, now_ms: u64)
        requires
            old(self).wf(),
            position.wf(),
        ensures
            final(self).wf(),
            matches!(phase, TouchPhase::Started) ==> ({
                let p = clamp_pointer_spec(position.rep());
                let t = Touch {
                    pos: fxc_of(p),
                    touch_type: old(self).touch_route_spec(p),
                    has_moved: false,
                    start_ms: now_ms,
                };
                let i = touch_index(old(self).touches@, id);
                &&& (i >= 0 ==> final(self).touches@ == old(self).touches@.update(i, (id, t)))
                &&& (i < 0 ==> final(self).touches@ == old(self).touches@.push((id, t)))
                &&& *final(self) == (Controller { touches: final(self).touches, ..*old(self) })
            }),
            matches!(phase, TouchPhase::Ended) || matches!(phase, TouchPhase::Cancelled) ==> ({
                let i = touch_index(old(self).touches@, id);
                &&& (i < 0 ==> *final(self) == *old(self))
                &&& (i >= 0 ==> ({
                    let t = old(self).touches@[i].1;
                    &&& final(self).touches@ == old(self).touches@.remove(i)
                    &&& final(self).context_menu == (if now_ms > t.start_ms + 700 && !t.has_moved {
                        Some(fxc_of(clamp_pointer_spec(position.rep())))
                    } else {
                        old(self).context_menu
                    })
                    &&& *final(self) == (Controller {
                        touches: final(self).touches,
                        context_menu: final(self).context_menu,
                        ..*old(self)
                    })
                }))
            }),
            matches!(phase, TouchPhase::Moved) ==> final(self).context_menu == (
            Option::<FxComplex>::None),
            matches!(phase, TouchPhase::Moved) && touch_index(old(self).touches@, id) < 0
                ==> *final(self) == (Controller { context_menu: None, ..*old(self) }),
    {
        let position = clamp_pointer(position);
        match phase {
            TouchPhase::Started => {
                let touch_type = if matches!(self.pos_on_render_split(position), Option::Some(_)) {
                    TouchType::RenderSplit
                } else if self.pos_on_marker(position) {
                    TouchType::Marker
                } else if self.is_pos_in_julia(position) {
                    TouchType::Julia
                } else {
                    TouchType::Mandelbrot
                };
                let t = Touch::new(position, touch_type, now_ms);
                match self.find_touch(id) {
                    Some(i) => {
                        self.touches.set(i, (id, t));
                    },
                    None => {
                        self.touches.push((id, t));
                    },
                }
            },
            TouchPhase::Moved => {
                self.context_menu = None;
                let idx = match self.find_touch(id) {
                    Some(i) => i,
                    None => {
                        return;
                    },
                };
                let mut t = self.touches[idx].1;
                t.has_moved = true;
                let last_position = t.pos;
                self.touches.set(idx, (id, t));
                if self.touches.len() > 1 {
                    self.handle_pinch(id, t, last_position, position);
                } else {
                    self.handle_move(id, t, last_position, position);
                }
            },
            TouchPhase::Ended | TouchPhase::Cancelled => {
                let idx = match self.find_touch(id) {
                    Some(i) => i,
                    None => {
                        return;
                    },
                };
                let t = self.touches[idx].1;
                let ghost pre = self.touches@;
                self.touches.remove(idx);
                proof {
                    assert forall|i: int, j: int|
                        0 <= i < j < self.touches@.len() implies (#[trigger] self.touches@[i]).0
                        != (#[trigger] self.touches@[j]).0 by {
                        let i0: int = if i < idx { i } else { i + 1 };
                        let j0: int = if j < idx { j } else { j + 1 };
                        assert(self.touches@[i] == pre[i0] && self.touches@[j] == pre[j0]);
                    }
                }
                if now_ms > t.start_ms && now_ms - t.start_ms > 700 && !t.has_moved {
                    self.context_menu = Some(position);
                }
            },
        }
    }

    /// A one-finger drag: pan the touched view, move the split boundary, or
    /// drag the marker, each by the touch's screen delta; the stored touch
    /// position is advanced to the new position.
    #[verifier::rlimit(100)]
    #[verifier::spinoff_prover]
    fn handle_move(&mut self, id: u64, touch: Touch, last_position: FxComplex, position: FxComplex)
        requires
            old(self).wf(),
            touch.pos.wf(),
            last_position.wf(),
            position.wf(),
            iabs(last_position.x.raw as int) < FX_SAFE_RAW,
            iabs(last_position.y.raw as int) < FX_SAFE_RAW,
            iabs(position.x.raw as int) < FX_SAFE_RAW,
            iabs(position.y.raw as int) < FX_SAFE_RAW,
        ensures
            final(self).wf(),
            final(self).context_menu == old(self).context_menu,
            final(self).cursor == old(self).cursor,
            ({
                let d = crate::complex::c_sub_spec(last_position.rep(), position.rep());
                &&& (d == (0int, 0int) ==> *final(self) == *old(self))
                &&& (d != (0int, 0int) && matches!(touch.touch_type, TouchType::Mandelbrot)
                    && old(self).size.y >= 1 ==> ({
                    let dn = old(self).cameras.mandelbrot.zoom.num() * ((old(self).size.y as int)
                        * FX_SCALE);
                    let df = (ZOOM_FRAC + crate::fx::FX_FRAC_BITS) as nat;
                    &&& final(self).cameras.mandelbrot.translate.nums() == (
                        old(self).cameras.mandelbrot.translate.x.num()
                            + crate::camera::pos_div_num(
                            d.0,
                            crate::fx::FX_FRAC_BITS as nat,
                            dn,
                            df,
                            PRECISION as nat,
                        ),
                        old(self).cameras.mandelbrot.translate.y.num()
                            + crate::camera::pos_div_num(
                            d.1,
                            crate::fx::FX_FRAC_BITS as nat,
                            dn,
                            df,
                            PRECISION as nat,
                        ),
                    )
                    &&& final(self).cameras.mandelbrot.needs_reiterate
                    &&& final(self).cameras.mandelbrot.zoom == old(self).cameras.mandelbrot.zoom
                    &&& final(self).cameras.julia == old(self).cameras.julia
                    &&& final(self).render_split == old(self).render_split
                    &&& final(self).marker_iterations.position == old(self).marker_iterations.position
                }))
                &&& (d != (0int, 0int) && matches!(touch.touch_type, TouchType::Julia) && old(self).size.y >= 1 ==> ({
                    let dn = old(self).cameras.julia.zoom.num() * ((old(self).size.y as int)
                        * FX_SCALE);
                    let df = (ZOOM_FRAC + crate::fx::FX_FRAC_BITS) as nat;
                    &&& final(self).cameras.julia.translate.nums() == (
                        old(self).cameras.julia.translate.x.num() + crate::camera::pos_div_num(
                            d.0,
                            crate::fx::FX_FRAC_BITS as nat,
                            dn,
                            df,
                            PRECISION as nat,
                        ),
                        old(self).cameras.julia.translate.y.num() + crate::camera::pos_div_num(
                            d.1,
                            crate::fx::FX_FRAC_BITS as nat,
                            dn,
                            df,
                            PRECISION as nat,
                        ),
                    )
                    &&& final(self).cameras.julia.needs_reiterate
                    &&& final(self).cameras.julia.zoom == old(self).cameras.julia.zoom
                    &&& final(self).cameras.mandelbrot == old(self).cameras.mandelbrot
                    &&& final(self).render_split == old(self).render_split
                }))
                &&& (d != (0int, 0int) && matches!(touch.touch_type, TouchType::RenderSplit)
                    && old(self).size.x >= 1 && old(self).size.y >= 1 ==> ({
                    let vertical = old(self).size.x > old(self).size.y;
                    let d_n = if vertical {
                        d.0
                    } else {
                        d.1
                    };
                    let size_n = if vertical {
                        (old(self).size.x as int) * FX_SCALE
                    } else {
                        (old(self).size.y as int) * FX_SCALE
                    };
                    let v = crate::fx::fx_div_spec(d_n, size_n);
                    &&& final(self).render_split.value.raw == crate::fx::fx_sub_spec(
                        old(self).render_split.value.raw as int,
                        v,
                    )
                    &&& (v > 0 ==> final(self).cameras.julia.needs_reiterate)
                    &&& (v < 0 ==> final(self).cameras.mandelbrot.needs_reiterate)
                    &&& final(self).cameras.mandelbrot.translate == old(self).cameras.mandelbrot.translate
                    &&& final(self).cameras.julia.translate == old(self).cameras.julia.translate
                }))
                &&& (d != (0int, 0int) && matches!(touch.touch_type, TouchType::Marker) ==> ({
                    &&& final(self).marker_iterations.recompute == old(self).marker_iterations.enabled
                    &&& final(self).cameras.julia.needs_reiterate
                    &&& final(self).cameras.mandelbrot == old(self).cameras.mandelbrot
                }))
                &&& (d != (0int, 0int) ==> ({
                    let i = touch_index(old(self).touches@, id);
                    i >= 0 ==> final(self).touches@ == old(self).touches@.update(
                        i,
                        (id, Touch { pos: position, ..old(self).touches@[i].1 }),
                    )
                }))
            }),
    {
        let delta = last_position.sub(position);
        if delta.x.raw != 0 || delta.y.raw != 0 {
            match touch.touch_type {
                TouchType::Mandelbrot => {
                    if self.size.y >= 1 {
                        pan_camera(&mut self.cameras.mandelbrot, delta, self.size.y);
                    }
                },
                TouchType::Julia => {
                    if self.size.y >= 1 {
                        pan_camera(&mut self.cameras.julia, delta, self.size.y);
                    }
                },
                TouchType::RenderSplit => {
                    self.touch_split_move(last_position, position);
                },
                TouchType::Marker => {
                    self.touch_marker_move(last_position, position);
                },
            }
            match self.find_touch(id) {
                Some(i) => {
                    let mut t = self.touches[i].1;
                    t.pos = position;
                    self.touches.set(i, (id, t));
                },
                None => {},
            }
        }
    }

    /// Move the split boundary by a touch's screen delta along the split
    /// axis, dirtying the view that grew; nothing else changes.
    fn touch_split_move(&mut self, last_position: FxComplex, position: FxComplex)
        requires
            old(self).wf(),
            last_position.wf(),
            position.wf(),
            iabs(last_position.x.raw as int) < FX_SAFE_RAW,
            iabs(last_position.y.raw as int) < FX_SAFE_RAW,
            iabs(position.x.raw as int) < FX_SAFE_RAW,
            iabs(position.y.raw as int) < FX_SAFE_RAW,
        ensures
            final(self).wf(),
            ({
                let d = crate::complex::c_sub_spec(last_position.rep(), position.rep());
                old(self).size.x >= 1 && old(self).size.y >= 1 ==> ({
                    let vertical = old(self).size.x > old(self).size.y;
                    let d_n = if vertical {
                        d.0
                    } else {
                        d.1
                    };
                    let size_n = if vertical {
                        (old(self).size.x as int) * FX_SCALE
                    } else {
                        (old(self).size.y as int) * FX_SCALE
                    };
                    let v = crate::fx::fx_div_spec(d_n, size_n);
                    &&& final(self).render_split.value.raw == crate::fx::fx_sub_spec(
                        old(self).render_split.value.raw as int,
                        v,
                    )
                    &&& (v > 0 ==> final(self).cameras.julia == (Camera {
                        needs_reiterate: true,
                        ..old(self).cameras.julia
                    }) && final(self).cameras.mandelbrot == old(self).cameras.mandelbrot)
                    &&& (v < 0 ==> final(self).cameras.mandelbrot == (Camera {
                        needs_reiterate: true,
                        ..old(self).cameras.mandelbrot
                    }) && final(self).cameras.julia == old(self).cameras.julia)
                    &&& (v == 0 ==> final(self).cameras.mandelbrot == old(self).cameras.mandelbrot
                        && final(self).cameras.julia == old(self).cameras.julia)
                })
            }),
            !(old(self).size.x >= 1 && old(self).size.y >= 1) ==> *final(self) == *old(self),
            *final(self) == (Controller {
                render_split: final(self).render_split,
                cameras: final(self).cameras,
                ..*old(self)
            }),
    {
        if self.size.x >= 1 && self.size.y >= 1 {
            let delta = last_position.sub(position);
            let (d_n, size_n) = if self.size.x > self.size.y {
                (delta.x, Fx { raw: (self.size.x as i128) * FX_SCALE })
            } else {
                (delta.y, Fx { raw: (self.size.y as i128) * FX_SCALE })
            };
            let value = d_n.div(size_n);
            self.render_split.value = self.render_split.value.sub(value);
            if value.raw > 0 {
                self.cameras.julia.needs_reiterate = true;
            } else if value.raw < 0 {
                self.cameras.mandelbrot.needs_reiterate = true;
            }
        }
    }

    /// Drag the marker by a touch's plane displacement in the primary view,
    /// flag the marker recompute and dirty the secondary view; nothing else
    /// changes.
    #[verifier::rlimit(100)]
    fn touch_marker_move(&mut self, last_position: FxComplex, position: FxComplex)
        requires
            old(self).wf(),
            last_position.wf(),
            position.wf(),
            iabs(last_position.x.raw as int) < FX_SAFE_RAW,
            iabs(last_position.y.raw as int) < FX_SAFE_RAW,
            iabs(position.x.raw as int) < FX_SAFE_RAW,
            iabs(position.y.raw as int) < FX_SAFE_RAW,
        ensures
            final(self).wf(),
            old(self).size.y >= 1 ==> ({
                let mdn = old(self).cameras.mandelbrot.zoom.num() * ((old(self).size.y as int)
                    * FX_SCALE);
                let mdf = (ZOOM_FRAC + crate::fx::FX_FRAC_BITS) as nat;
                let off_cur = screen_offset_spec(position.rep(), old(self).size);
                let off_prev = screen_offset_spec(last_position.rep(), old(self).size);
                final(self).marker_iterations.position.nums() == (
                    old(self).marker_iterations.position.x.num() + (crate::camera::pos_div_num(
                        off_cur.0,
                        crate::fx::FX_FRAC_BITS as nat,
                        mdn,
                        mdf,
                        PRECISION as nat,
                    ) - crate::camera::pos_div_num(
                        off_prev.0,
                        crate::fx::FX_FRAC_BITS as nat,
                        mdn,
                        mdf,
                        PRECISION as nat,
                    )),
                    old(self).marker_iterations.position.y.num() + (crate::camera::pos_div_num(
                        off_cur.1,
                        crate::fx::FX_FRAC_BITS as nat,
                        mdn,
                        mdf,
                        PRECISION as nat,
                    ) - crate::camera::pos_div_num(
                        off_prev.1,
                        crate::fx::FX_FRAC_BITS as nat,
                        mdn,
                        mdf,
                        PRECISION as nat,
                    )),
                )
            }),
            old(self).size.y < 1 ==> final(self).marker_iterations.position == old(
            self).marker_iterations.position,
            final(self).marker_iterations.recompute == old(self).marker_iterations.enabled,
            final(self).marker_iterations.enabled == old(self).marker_iterations.enabled,
            final(self).marker_iterations.dragging == old(self).marker_iterations.dragging,
            final(self).marker_iterations.stats == old(self).marker_iterations.stats,
            final(self).cameras.julia == (Camera {
                needs_reiterate: true,
                ..old(self).cameras.julia
            }),
            final(self).cameras.mandelbrot == old(self).cameras.mandelbrot,
            *final(self) == (Controller {
                marker_iterations: final(self).marker_iterations,
                cameras: final(self).cameras,
                ..*old(self)
            }),
    {
        if self.size.y >= 1 {
            proof {
                crate::camera::lemma_min_zoom_pos();
            }
            let off_cur = screen_offset(position, self.size);
            let off_prev = screen_offset(last_position, self.size);
            let a = plane_offset(off_cur, &self.cameras.mandelbrot.zoom, self.size.y);
            let b = plane_offset(off_prev, &self.cameras.mandelbrot.zoom, self.size.y);
            let d = a.sub(&b);
            proof {
                a.x.lemma_scaled_id();
                a.y.lemma_scaled_id();
                b.x.lemma_scaled_id();
                b.y.lemma_scaled_id();
                d.x.lemma_scaled_id();
                d.y.lemma_scaled_id();
                self.marker_iterations.position.x.lemma_scaled_id();
                self.marker_iterations.position.y.lemma_scaled_id();
            }
            self.marker_iterations.position = self.marker_iterations.position.add(&d);
        }
        self.marker_iterations.recompute = self.marker_iterations.enabled;
        self.cameras.julia.needs_reiterate = true;
    }

    /// A two-finger pinch: zoom the touched view by one plus three times the
    /// change of the inter-touch distance as a fraction of the screen
    /// height, clamped into the view's range and anchored at the midpoint of
    /// the moving touch; the stored touch position is advanced.
    ///
    /// The anchor clause is the pinch analogue of the zoom-to-cursor law:
    /// the plane point under the midpoint is the same before and after.
    #[verifier::rlimit(100)]
    fn handle_pinch(&mut self, id: u64, touch: Touch, last_position: FxComplex, position: FxComplex)
        requires
            old(self).wf(),
            last_position.wf(),
            position.wf(),
            iabs(last_position.x.raw as int) < FX_SAFE_RAW,
            iabs(last_position.y.raw as int) < FX_SAFE_RAW,
            iabs(position.x.raw as int) < FX_SAFE_RAW,
            iabs(position.y.raw as int) < FX_SAFE_RAW,
        ensures
            final(self).wf(),
            final(self).context_menu == old(self).context_menu,
            final(self).cursor == old(self).cursor,
            final(self).render_split == old(self).render_split,
            final(self).marker_iterations.position == old(self).marker_iterations.position,
            old(self).size.y >= 1 && first_other_index(old(self).touches@, id) >= 0 ==> ({
                let other = old(self).touches@[first_other_index(old(self).touches@, id)].1.pos;
                let d0 = crate::complex::c_distance_spec(last_position.rep(), other.rep());
                let d1 = crate::complex::c_distance_spec(position.rep(), other.rep());
                let factor = crate::fx::fx_add_spec(
                    FX_SCALE as int,
                    crate::fx::fx_mul_spec(
                        crate::fx::fx_div_spec(
                            crate::fx::fx_sub_spec(d1, d0),
                            (old(self).size.y as int) * FX_SCALE,
                        ),
                        3 * (FX_SCALE as int),
                    ),
                );
                let off = screen_offset_spec(
                    mid_spec(last_position.rep(), position.rep()),
                    old(self).size,
                );
                &&& (matches!(touch.touch_type, TouchType::Mandelbrot) ==> ({
                    &&& final(self).cameras.mandelbrot.zoom.num()
                        == crate::camera::zoom_scaled_spec(
                        old(self).cameras.mandelbrot.zoom.num(),
                        factor,
                        old(self).max_zoom_mandelbrot.scaled(ZOOM_FRAC as int),
                    )
                    &&& crate::camera::plane_point_spec(
                        off,
                        final(self).cameras.mandelbrot.zoom.num(),
                        ZOOM_FRAC as nat,
                        old(self).size.y as int,
                        final(self).cameras.mandelbrot.translate,
                    ) == crate::camera::plane_point_spec(
                        off,
                        old(self).cameras.mandelbrot.zoom.num(),
                        ZOOM_FRAC as nat,
                        old(self).size.y as int,
                        old(self).cameras.mandelbrot.translate,
                    )
                    &&& final(self).cameras.mandelbrot.needs_reiterate
                    &&& final(self).cameras.julia.needs_reiterate
                    &&& final(self).mandelbrot_reference.recompute
                    &&& final(self).cameras.julia.zoom == old(self).cameras.julia.zoom
                    &&& final(self).cameras.julia.translate == old(self).cameras.julia.translate
                }))
                &&& (matches!(touch.touch_type, TouchType::Julia) ==> ({
                    &&& final(self).cameras.julia.zoom.num() == crate::camera::zoom_scaled_spec(
                        old(self).cameras.julia.zoom.num(),
                        factor,
                        old(self).max_zoom_julia.scaled(ZOOM_FRAC as int),
                    )
                    &&& crate::camera::plane_point_spec(
                        off,
                        final(self).cameras.julia.zoom.num(),
                        ZOOM_FRAC as nat,
                        old(self).size.y as int,
                        final(self).cameras.julia.translate,
                    ) == crate::camera::plane_point_spec(
                        off,
                        old(self).cameras.julia.zoom.num(),
                        ZOOM_FRAC as nat,
                        old(self).size.y as int,
                        old(self).cameras.julia.translate,
                    )
                    &&& final(self).cameras.julia.needs_reiterate
                    &&& final(self).cameras.mandelbrot == old(self).cameras.mandelbrot
                }))
                &&& (matches!(touch.touch_type, TouchType::RenderSplit) || matches!(
                    touch.touch_type,
                    TouchType::Marker,
                ) ==> final(self).cameras.mandelbrot == old(self).cameras.mandelbrot && final(self).cameras.julia == old(self).cameras.julia)
            }),
    {
        if self.size.y < 1 {
            return;
        }
        let other_pos = match self.find_other_touch(id) {
            Some(p) => p,
            None => {
                return;
            },
        };
        let last_distance = last_position.distance(other_pos);
        let this_distance = position.distance(other_pos);
        let sy_fx = Fx { raw: (self.size.y as i128) * FX_SCALE };
        let val = this_distance.sub(last_distance).div(sy_fx).mul(Fx { raw: 3 * FX_SCALE });
        let factor = Fx { raw: FX_SCALE }.add(val);
        let sum_x = last_position.x.raw + position.x.raw;
        let sum_y = last_position.y.raw + position.y.raw;
        let avg = FxComplex {
            x: Fx {
                raw: if sum_x >= 0 {
                    sum_x / 2
                } else {
                    -((-sum_x) / 2)
                },
            },
            y: Fx {
                raw: if sum_y >= 0 {
                    sum_y / 2
                } else {
                    -((-sum_y) / 2)
                },
            },
        };
        let off = screen_offset(avg, self.size);
        match touch.touch_type {
            TouchType::Mandelbrot => {
                anchor_zoom_camera(
                    &mut self.cameras.mandelbrot,
                    off,
                    self.size.y,
                    factor,
                    &self.max_zoom_mandelbrot,
                );
                self.cameras.julia.needs_reiterate = true;
                self.mandelbrot_reference.recompute = true;
            },
            TouchType::Julia => {
                anchor_zoom_camera(
                    &mut self.cameras.julia,
                    off,
                    self.size.y,
                    factor,
                    &self.max_zoom_julia,
                );
            },
            TouchType::RenderSplit => {},
            TouchType::Marker => {},
        }
        match self.find_touch(id) {
            Some(i) => {
                let mut t = self.touches[i].1;
                t.pos = position;
                self.touches.set(i, (id, t));
            },
            None => {},
        }
    }

    /// The position of the first other active touch.
    fn find_other_touch(&self, id: u64) -> (r: Option<FxComplex>)
        requires
            self.wf(),
        ensures
            ({
                let i = first_other_index(self.touches@, id);
                match r {
                    Some(p) => i >= 0 && p == self.touches@[i].1.pos && p.wf() && iabs(
                        p.x.raw as int,
                    ) < FX_SAFE_RAW && iabs(p.y.raw as int) < FX_SAFE_RAW,
                    None => i < 0,
                }
            }),
    {
        let mut k: usize = 0;
        while k < self.touches.len()
            invariant
                k <= self.touches@.len(),
                self.wf(),
                forall|j: int| 0 <= j < k ==> (#[trigger] self.touches@[j]).0 == id,
            decreases self.touches@.len() - k,
        {
            if self.touches[k].0 != id {
                proof {
                    lemma_first_other_at(self.touches@, id, k as int);
                }
                return Some(self.touches[k].1.pos);
            }
            k = k + 1;
        }
        proof {
            if first_other_index(self.touches@, id) >= 0 {
                lemma_first_other_bound(self.touches@, id);
            }
        }
        None
    }
}

/// A nonnegative `first_other_index` points at a non-matching entry.
proof fn lemma_first_other_bound(s: Seq<(u64, Touch)>, id: u64)
    requires
        first_other_index(s, id) >= 0,
    ensures
        first_other_index(s, id) < s.len(),
        s[first_other_index(s, id)].0 != id,
    decreases s.len(),
{
    if s.len() > 0 && s[0].0 == id {
        lemma_first_other_bound(s.subrange(1, s.len() as int), id);
        assert(s.subrange(1, s.len() as int)[first_other_index(s, id) - 1] == s[
        first_other_index(s, id)]);
    }
}


/// The exact effect of a marker drag from the previous cursor `prev` (held
/// in `c.cursor`) to the new cursor `cur`: the marker moves by the plane
/// displacement of the cursor in the primary view, the marker recompute flag
/// follows the enabled toggle, and the secondary view is dirtied.
pub open spec fn marker_drag_effect_spec(c: Controller, cur: (int, int), f: Controller) -> bool {
    let dn = c.cameras.mandelbrot.zoom.num() * ((c.size.y as int) * FX_SCALE);
    let df = (ZOOM_FRAC + crate::fx::FX_FRAC_BITS) as nat;
    let off_cur = screen_offset_spec(cur, c.size);
    let off_prev = screen_offset_spec(c.cursor.rep(), c.size);
    &&& c.size.y >= 1 ==> f.marker_iterations.position.nums() == (
        c.marker_iterations.position.x.num() + (crate::camera::pos_div_num(
            off_cur.0,
            crate::fx::FX_FRAC_BITS as nat,
            dn,
            df,
            PRECISION as nat,
        ) - crate::camera::pos_div_num(
            off_prev.0,
            crate::fx::FX_FRAC_BITS as nat,
            dn,
            df,
            PRECISION as nat,
        )),
        c.marker_iterations.position.y.num() + (crate::camera::pos_div_num(
            off_cur.1,
            crate::fx::FX_FRAC_BITS as nat,
            dn,
            df,
            PRECISION as nat,
        ) - crate::camera::pos_div_num(
            off_prev.1,
            crate::fx::FX_FRAC_BITS as nat,
            dn,
            df,
            PRECISION as nat,
        )),
    )
    &&& c.size.y < 1 ==> f.marker_iterations.position.nums()
        == c.marker_iterations.position.nums()
    &&& f.marker_iterations.recompute == c.marker_iterations.enabled
    &&& f.cameras.julia.needs_reiterate
    &&& f.cameras.julia.zoom == c.cameras.julia.zoom
    &&& f.cameras.julia.translate == c.cameras.julia.translate
    &&& f.cameras.mandelbrot == c.cameras.mandelbrot
    &&& f.render_split == c.render_split
}

/// The exact effect of a split drag from the previous cursor (held in
/// `c.cursor`) to the new cursor `cur`: the split value moves by the cursor
/// delta as a fraction of the screen along the split axis, and the view that
/// gained area is dirtied.
pub open spec fn split_drag_effect_spec(c: Controller, cur: (int, int), f: Controller) -> bool {
    let delta = crate::complex::c_sub_spec(c.cursor.rep(), cur);
    let vertical = c.size.x > c.size.y;
    let d_n = if vertical {
        delta.0
    } else {
        delta.1
    };
    let size_n = if vertical {
        (c.size.x as int) * FX_SCALE
    } else {
        (c.size.y as int) * FX_SCALE
    };
    let v = crate::fx::fx_div_spec(d_n, size_n);
    &&& c.size.x >= 1 && c.size.y >= 1 ==> {
        &&& f.render_split.value.raw == crate::fx::fx_sub_spec(c.render_split.value.raw as int, v)
        &&& v > 0 ==> f.cameras.julia.needs_reiterate
        &&& v < 0 ==> f.cameras.mandelbrot.needs_reiterate
        &&& f.cameras.mandelbrot.zoom == c.cameras.mandelbrot.zoom
        &&& f.cameras.mandelbrot.translate == c.cameras.mandelbrot.translate
        &&& f.cameras.julia.zoom == c.cameras.julia.zoom
        &&& f.cameras.julia.translate == c.cameras.julia.translate
    }
    &&& !(c.size.x >= 1 && c.size.y >= 1) ==> f.render_split == c.render_split
    &&& f.marker_iterations.position == c.marker_iterations.position
}

impl Controller {
    /// The exact effect of one keyboard event on the controller state.
    /// Releases zero a drift only when its sign matches the key's direction;
    /// presses set the drifts to their configured rates; the shifted
    /// exponent keys step the exponent by a whole unit and flag the
    /// dependents.
    pub open spec fn keyboard_spec(c: Controller, key: KeyEvent) -> Controller {
        if key.state == KeyState::Released {
            match key.logical_key {
                Key::ArrowDown => if c.delta_params.translate.y.raw > 0 {
                    Controller {
                        delta_params: DeltaParams {
                            translate: FxComplex { y: Fx { raw: 0 }, ..c.delta_params.translate },
                            ..c.delta_params
                        },
                        ..c
                    }
                } else {
                    c
                },
                Key::ArrowUp => if c.delta_params.translate.y.raw < 0 {
                    Controller {
                        delta_params: DeltaParams {
                            translate: FxComplex { y: Fx { raw: 0 }, ..c.delta_params.translate },
                            ..c.delta_params
                        },
                        ..c
                    }
                } else {
                    c
                },
                Key::ArrowLeft => if c.delta_params.translate.x.raw < 0 {
                    Controller {
                        delta_params: DeltaParams {
                            translate: FxComplex { x: Fx { raw: 0 }, ..c.delta_params.translate },
                            ..c.delta_params
                        },
                        ..c
                    }
                } else {
                    c
                },
                Key::ArrowRight => if c.delta_params.translate.x.raw > 0 {
                    Controller {
                        delta_params: DeltaParams {
                            translate: FxComplex { x: Fx { raw: 0 }, ..c.delta_params.translate },
                            ..c.delta_params
                        },
                        ..c
                    }
                } else {
                    c
                },
                Key::Character(ch) => if ch == 'z' && c.delta_params.zoom.raw > FX_SCALE || ch
                    == 'x' && c.delta_params.zoom.raw < FX_SCALE {
                    Controller {
                        delta_params: DeltaParams { zoom: Fx { raw: 0 }, ..c.delta_params },
                        ..c
                    }
                } else if ch == 'p' && c.delta_params.period.raw > FX_SCALE || ch == 'o'
                    && c.delta_params.period.raw < FX_SCALE {
                    Controller {
                        delta_params: DeltaParams { period: Fx { raw: 0 }, ..c.delta_params },
                        ..c
                    }
                } else if ch == 'j' && c.delta_params.animation_speed.raw < FX_SCALE || ch == 'l'
                    && c.delta_params.animation_speed.raw > FX_SCALE {
                    Controller {
                        delta_params: DeltaParams {
                            animation_speed: Fx { raw: 0 },
                            ..c.delta_params
                        },
                        ..c
                    }
                } else if ch == 'u' && c.delta_params.iterations.raw < 0 || ch == 'i'
                    && c.delta_params.iterations.raw > 0 {
                    Controller {
                        delta_params: DeltaParams { iterations: Fx { raw: 0 }, ..c.delta_params },
                        ..c
                    }
                } else if ch == 'g' && c.delta_params.exponent.raw < 0 || ch == 'h'
                    && c.delta_params.exponent.raw > 0 {
                    Controller {
                        delta_params: DeltaParams { exponent: Fx { raw: 0 }, ..c.delta_params },
                        ..c
                    }
                } else if ch == 'G' {
                    Controller {
                        exponent: Fx {
                            raw: clamp_exponent_spec(
                                crate::fx::fx_clip(
                                    crate::fx::fx_ceil_spec(c.exponent.raw as int) - FX_SCALE,
                                ),
                            ) as i128,
                        },
                        ..Controller::flags_raised_spec(c)
                    }
                } else if ch == 'H' {
                    Controller {
                        exponent: Fx {
                            raw: clamp_exponent_spec(
                                crate::fx::fx_clip(
                                    crate::fx::fx_floor_spec(c.exponent.raw as int) + FX_SCALE,
                                ),
                            ) as i128,
                        },
                        ..Controller::flags_raised_spec(c)
                    }
                } else {
                    c
                },
                _ => c,
            }
        } else {
            match key.logical_key {
                Key::ArrowDown => Controller {
                    delta_params: DeltaParams {
                        translate: FxComplex {
                            y: Fx { raw: (858993459) as i128 },
                            ..c.delta_params.translate
                        },
                        ..c.delta_params
                    },
                    ..c
                },
                Key::ArrowUp => Controller {
                    delta_params: DeltaParams {
                        translate: FxComplex {
                            y: Fx { raw: (-858993459) as i128 },
                            ..c.delta_params.translate
                        },
                        ..c.delta_params
                    },
                    ..c
                },
                Key::ArrowLeft => Controller {
                    delta_params: DeltaParams {
                        translate: FxComplex {
                            x: Fx { raw: (-858993459) as i128 },
                            ..c.delta_params.translate
                        },
                        ..c.delta_params
                    },
                    ..c
                },
                Key::ArrowRight => Controller {
                    delta_params: DeltaParams {
                        translate: FxComplex {
                            x: Fx { raw: (858993459) as i128 },
                            ..c.delta_params.translate
                        },
                        ..c.delta_params
                    },
                    ..c
                },
                Key::Character(ch) => if ch == 'z' {
                    Controller {
                        delta_params: DeltaParams {
                            zoom: Fx { raw: (6012954214) as i128 },
                            ..c.delta_params
                        },
                        ..c
                    }
                } else if ch == 'x' {
                    Controller {
                        delta_params: DeltaParams {
                            zoom: Fx { raw: (3067833783) as i128 },
                            ..c.delta_params
                        },
                        ..c
                    }
                } else if ch == 'p' {
                    Controller {
                        delta_params: DeltaParams {
                            period: Fx { raw: (5153960755) as i128 },
                            ..c.delta_params
                        },
                        ..c
                    }
                } else if ch == 'o' {
                    Controller {
                        delta_params: DeltaParams {
                            period: Fx { raw: (3579139413) as i128 },
                            ..c.delta_params
                        },
                        ..c
                    }
                } else if ch == 'k' {
                    Controller { animate: Animate { enable: !c.animate.enable, ..c.animate }, ..c }
                } else if ch == 'l' {
                    Controller {
                        delta_params: DeltaParams {
                            animation_speed: Fx { raw: (2 * FX_SCALE) as i128 },
                            ..c.delta_params
                        },
                        ..c
                    }
                } else if ch == 'j' {
                    Controller {
                        delta_params: DeltaParams {
                            animation_speed: Fx { raw: (FX_SCALE / 2) as i128 },
                            ..c.delta_params
                        },
                        ..c
                    }
                } else if ch == 'u' {
                    Controller {
                        delta_params: DeltaParams {
                            iterations: Fx { raw: (-5 * FX_SCALE) as i128 },
                            ..c.delta_params
                        },
                        ..c
                    }
                } else if ch == 'i' {
                    Controller {
                        delta_params: DeltaParams {
                            iterations: Fx { raw: (5 * FX_SCALE) as i128 },
                            ..c.delta_params
                        },
                        ..c
                    }
                } else if ch == 'g' {
                    Controller {
                        delta_params: DeltaParams {
                            exponent: Fx { raw: (-858993459) as i128 },
                            ..c.delta_params
                        },
                        ..c
                    }
                } else if ch == 'h' {
                    Controller {
                        delta_params: DeltaParams {
                            exponent: Fx { raw: (858993459) as i128 },
                            ..c.delta_params
                        },
                        ..c
                    }
                } else {
                    c
                },
                _ => c,
            }
        }
    }

    /// The controller with every fractal-formula dependent flagged for
    /// recompute.
    pub open spec fn flags_raised_spec(c: Controller) -> Controller {
        Controller {
            marker_iterations: MarkerIterations {
                recompute: c.marker_iterations.enabled,
                ..c.marker_iterations
            },
            mandelbrot_reference: MandelbrotReference {
                recompute: true,
                ..c.mandelbrot_reference
            },
            cameras: Cameras {
                mandelbrot: Camera { needs_reiterate: true, ..c.cameras.mandelbrot },
                julia: Camera { needs_reiterate: true, ..c.cameras.julia },
            },
            ..c
        }
    }

    /// A keyboard event: arrow keys and letter keys start or stop the
    /// per-frame parameter drifts, and the shifted exponent keys step the
    /// exponent by whole units.
    #[verifier::rlimit(100)]
    #[verifier::spinoff_prover]
    pub fn keyboard_input_impl(&mut self, key: KeyEvent)
        requires
            old(self).wf(),
        ensures
            final(self).wf(),
            *final(self) == Controller::keyboard_spec(*old(self), key),
    {
        if matches!(key.state, KeyState::Released) {
            match key.logical_key {
                Key::ArrowDown => {
                    if self.delta_params.translate.y.raw > 0 {
                        self.delta_params.translate.y = Fx { raw: 0 };
                    }
                },
                Key::ArrowUp => {
                    if self.delta_params.translate.y.raw < 0 {
                        self.delta_params.translate.y = Fx { raw: 0 };
                    }
                },
                Key::ArrowLeft => {
                    if self.delta_params.translate.x.raw < 0 {
                        self.delta_params.translate.x = Fx { raw: 0 };
                    }
                },
                Key::ArrowRight => {
                    if self.delta_params.translate.x.raw > 0 {
                        self.delta_params.translate.x = Fx { raw: 0 };
                    }
                },
                Key::Character(c) => {
                    if c == 'z' && self.delta_params.zoom.raw > FX_SCALE || c == 'x'
                        && self.delta_params.zoom.raw < FX_SCALE {
                        self.delta_params.zoom = Fx { raw: 0 };
                    } else if c == 'p' && self.delta_params.period.raw > FX_SCALE || c == 'o'
                        && self.delta_params.period.raw < FX_SCALE {
                        self.delta_params.period = Fx { raw: 0 };
                    } else if c == 'j' && self.delta_params.animation_speed.raw < FX_SCALE || c
                        == 'l' && self.delta_params.animation_speed.raw > FX_SCALE {
                        self.delta_params.animation_speed = Fx { raw: 0 };
                    } else if c == 'u' && self.delta_params.iterations.raw < 0 || c == 'i'
                        && self.delta_params.iterations.raw > 0 {
                        self.delta_params.iterations = Fx { raw: 0 };
                    } else if c == 'g' && self.delta_params.exponent.raw < 0 || c == 'h'
                        && self.delta_params.exponent.raw > 0 {
                        self.delta_params.exponent = Fx { raw: 0 };
                    } else if c == 'G' {
                        let stepped = self.exponent.ceil();
                        self.exponent = clamp_exponent(Fx::from_raw(stepped.raw - FX_SCALE));
                        self.mark_fractal_params_changed();
                    } else if c == 'H' {
                        let stepped = self.exponent.floor();
                        self.exponent = clamp_exponent(Fx::from_raw(stepped.raw + FX_SCALE));
                        self.mark_fractal_params_changed();
                    }
                },
                _ => {},
            }
            return;
        }
        match key.logical_key {
            Key::ArrowDown => {
                self.delta_params.translate.y = Fx { raw: 858993459 };
            },
            Key::ArrowUp => {
                self.delta_params.translate.y = Fx { raw: -858993459 };
            },
            Key::ArrowLeft => {
                self.delta_params.translate.x = Fx { raw: -858993459 };
            },
            Key::ArrowRight => {
                self.delta_params.translate.x = Fx { raw: 858993459 };
            },
            Key::Character(c) => {
                if c == 'z' {
                    self.delta_params.zoom = Fx { raw: 6012954214 };
                } else if c == 'x' {
                    self.delta_params.zoom = Fx { raw: 3067833783 };
                } else if c == 'p' {
                    self.delta_params.period = Fx { raw: 5153960755 };
                } else if c == 'o' {
                    self.delta_params.period = Fx { raw: 3579139413 };
                } else if c == 'k' {
                    self.animate.enable = !self.animate.enable;
                } else if c == 'l' {
                    self.delta_params.animation_speed = Fx { raw: 2 * FX_SCALE };
                } else if c == 'j' {
                    self.delta_params.animation_speed = Fx { raw: FX_SCALE / 2 };
                } else if c == 'u' {
                    self.delta_params.iterations = Fx { raw: -5 * FX_SCALE };
                } else if c == 'i' {
                    self.delta_params.iterations = Fx { raw: 5 * FX_SCALE };
                } else if c == 'g' {
                    self.delta_params.exponent = Fx { raw: -858993459 };
                } else if c == 'h' {
                    self.delta_params.exponent = Fx { raw: 858993459 };
                }
            },
            _ => {},
        }
    }

    /// Flag everything that depends on the fractal formula for recompute.
    fn mark_fractal_params_changed(&mut self)
        ensures
            *final(self) == Controller::flags_raised_spec(*old(self)),
    {
        self.marker_iterations.recompute = self.marker_iterations.enabled;
        self.mandelbrot_reference.recompute = true;
        self.cameras.mandelbrot.needs_reiterate = true;
        self.cameras.julia.needs_reiterate = true;
    }
}

impl Controller {
    /// Apply the held-key parameter drifts for a frame of `dt` seconds: the
    /// zoom scales by `(d - 1)*dt + 1` clamped, the view or marker moves by
    /// the translate drift over the zoom, the period, speed, budget and
    /// exponent advance by their drifts, and every affected view is dirtied.
    #[verifier::rlimit(100)]
    #[verifier::spinoff_prover]
    pub fn handle_param_deltas(&mut self, dt: Fx)
        requires
            old(self).wf(),
            dt.wf(),
        ensures
            final(self).wf(),
            final(self).cameras.mandelbrot.zoom.num() == drift_zoom_num_spec(*old(self), dt),
            old(self).delta_params.zoom.raw != 0 ==> final(self).cameras.mandelbrot.needs_reiterate
                && final(self).mandelbrot_reference.recompute && final(
            self).marker_iterations.recompute == old(self).marker_iterations.enabled,
            old(self).delta_params.zoom.raw != 0 && !((old(self).delta_params.translate.x.raw != 0
                || old(self).delta_params.translate.y.raw != 0) && old(self).ctrl_down && old(
            self).marker_iterations.enabled && !old(self).render_julia_set) ==> final(
            self).cameras.julia.needs_reiterate,
            old(self).delta_params.exponent.raw != 0 ==> final(
            self).cameras.mandelbrot.needs_reiterate && final(self).cameras.julia.needs_reiterate
                && final(self).mandelbrot_reference.recompute && final(
            self).marker_iterations.recompute == old(self).marker_iterations.enabled,
            ({
                let tx = old(self).delta_params.translate.x.raw as int;
                let ty = old(self).delta_params.translate.y.raw as int;
                let d = (
                    crate::fx::fx_mul_spec(tx, dt.raw as int),
                    crate::fx::fx_mul_spec(ty, dt.raw as int),
                );
                let dn = drift_zoom_num_spec(*old(self), dt) * FX_SCALE;
                let df = (ZOOM_FRAC + crate::fx::FX_FRAC_BITS) as nat;
                let to_marker = old(self).ctrl_down && old(self).marker_iterations.enabled || old(self).render_julia_set;
                &&& ((tx != 0 || ty != 0) && to_marker ==> final(self).marker_iterations.position.nums() == (
                    old(self).marker_iterations.position.x.num() + crate::camera::pos_div_num(
                        d.0,
                        crate::fx::FX_FRAC_BITS as nat,
                        dn,
                        df,
                        PRECISION as nat,
                    ),
                    old(self).marker_iterations.position.y.num() + crate::camera::pos_div_num(
                        d.1,
                        crate::fx::FX_FRAC_BITS as nat,
                        dn,
                        df,
                        PRECISION as nat,
                    ),
                ) && final(self).marker_iterations.recompute == old(self).marker_iterations.enabled)
                &&& ((tx != 0 || ty != 0) && !to_marker ==> final(self).cameras.mandelbrot.translate.nums() == (
                    old(self).cameras.mandelbrot.translate.x.num() + crate::camera::pos_div_num(
                        d.0,
                        crate::fx::FX_FRAC_BITS as nat,
                        dn,
                        df,
                        PRECISION as nat,
                    ),
                    old(self).cameras.mandelbrot.translate.y.num() + crate::camera::pos_div_num(
                        d.1,
                        crate::fx::FX_FRAC_BITS as nat,
                        dn,
                        df,
                        PRECISION as nat,
                    ),
                ) && final(self).cameras.mandelbrot.needs_reiterate && final(self).mandelbrot_reference.recompute)
                &&& (tx == 0 && ty == 0 ==> final(self).marker_iterations.position == old(self).marker_iterations.position && final(self).cameras.mandelbrot.translate.nums()
                    == old(self).cameras.mandelbrot.translate.nums())
            }),
            final(self).palette_period.raw == (if old(self).delta_params.period.raw != 0 {
                crate::fx::fx_mul_spec(
                    old(self).palette_period.raw as int,
                    drift_factor_spec(old(self).delta_params.period.raw as int, dt.raw as int),
                )
            } else {
                old(self).palette_period.raw as int
            }),
            final(self).animate.speed.raw == (if old(self).delta_params.animation_speed.raw != 0 {
                crate::fx::fx_mul_spec(
                    old(self).animate.speed.raw as int,
                    drift_factor_spec(
                        old(self).delta_params.animation_speed.raw as int,
                        dt.raw as int,
                    ),
                )
            } else {
                old(self).animate.speed.raw as int
            }),
            final(self).num_iterations.n.raw == (if old(self).delta_params.iterations.raw != 0 {
                crate::fx::fx_add_spec(
                    old(self).num_iterations.n.raw as int,
                    crate::fx::fx_mul_spec(
                        old(self).delta_params.iterations.raw as int,
                        dt.raw as int,
                    ),
                )
            } else {
                old(self).num_iterations.n.raw as int
            }),
            old(self).delta_params.iterations.raw != 0 ==> final(self).cameras.mandelbrot.needs_reiterate && final(self).cameras.julia.needs_reiterate
                && final(self).mandelbrot_reference.recompute,
            final(self).exponent.raw == (if old(self).delta_params.exponent.raw != 0 {
                clamp_exponent_spec(
                    crate::fx::fx_add_spec(
                        old(self).exponent.raw as int,
                        crate::fx::fx_mul_spec(
                            old(self).delta_params.exponent.raw as int,
                            dt.raw as int,
                        ),
                    ),
                ) as int
            } else {
                old(self).exponent.raw as int
            }),
            final(self).delta_params == old(self).delta_params,
            final(self).cursor == old(self).cursor,
            final(self).touches == old(self).touches,
            final(self).render_split == old(self).render_split,
            final(self).escape_radius == old(self).escape_radius,
            final(self).size == old(self).size,
    {
        self.drift_zoom(dt);
        let ghost s1 = *self;
        self.drift_translate(dt);
        proof {
            if old(self).delta_params.zoom.raw != 0 && !((old(
                self,
            ).delta_params.translate.x.raw != 0 || old(self).delta_params.translate.y.raw != 0)
                && old(self).ctrl_down && old(self).marker_iterations.enabled && !old(
                self,
            ).render_julia_set) {
                assert(s1.cameras.julia.needs_reiterate);
                assert(self.cameras.julia.needs_reiterate);
            }
        }
        let ghost s2 = *self;
        self.drift_scalars(dt);
        proof {
            if s2.cameras.julia.needs_reiterate {
                assert(self.cameras.julia.needs_reiterate);
            }
        }
        self.drift_exponent(dt);
    }

    /// The zoom drift: scale and clamp the primary zoom.
    fn drift_zoom(&mut self, dt: Fx)
        requires
            old(self).wf(),
            dt.wf(),
        ensures
            final(self).wf(),
            final(self).cameras.mandelbrot.zoom.num() == drift_zoom_num_spec(*old(self), dt),
            final(self).cameras.mandelbrot.zoom.frac == ZOOM_FRAC,
            final(self).cameras.mandelbrot.translate == old(self).cameras.mandelbrot.translate,
            final(self).cameras.julia.zoom == old(self).cameras.julia.zoom,
            final(self).cameras.julia.translate == old(self).cameras.julia.translate,
            old(self).delta_params.zoom.raw != 0 ==> final(self).cameras.mandelbrot.needs_reiterate
                && final(self).cameras.julia.needs_reiterate && final(self).mandelbrot_reference.recompute && final(self).marker_iterations.recompute == old(self).marker_iterations.enabled,
            old(self).delta_params.zoom.raw == 0 ==> *final(self) == *old(self),
            final(self).marker_iterations.position == old(self).marker_iterations.position,
            final(self).marker_iterations.enabled == old(self).marker_iterations.enabled,
            final(self).delta_params == old(self).delta_params,
            final(self).cursor == old(self).cursor,
            final(self).touches == old(self).touches,
            final(self).render_split == old(self).render_split,
            final(self).escape_radius == old(self).escape_radius,
            final(self).exponent == old(self).exponent,
            final(self).num_iterations == old(self).num_iterations,
            final(self).palette_period == old(self).palette_period,
            final(self).animate == old(self).animate,
            final(self).ctrl_down == old(self).ctrl_down,
            final(self).render_julia_set == old(self).render_julia_set,
            final(self).size == old(self).size,
            final(self).max_zoom_mandelbrot == old(self).max_zoom_mandelbrot,
            final(self).max_zoom_julia == old(self).max_zoom_julia,
    {
        if self.delta_params.zoom.raw != 0 {
            let one = Fx { raw: FX_SCALE };
            let factor = self.delta_params.zoom.sub(one).mul(dt).add(one);
            let z = zoom_scaled_clamped(
                &self.cameras.mandelbrot.zoom,
                factor,
                &self.max_zoom_mandelbrot,
            );
            proof {
                z.lemma_scaled_id();
            }
            self.cameras.mandelbrot.zoom = z;
            self.cameras.mandelbrot.needs_reiterate = true;
            self.cameras.julia.needs_reiterate = true;
            self.mandelbrot_reference.recompute = true;
            self.marker_iterations.recompute = self.marker_iterations.enabled;
        }
    }

    /// The translate drift: move the marker or pan the primary camera by
    /// the drift over the zoom.
    fn drift_translate(&mut self, dt: Fx)
        requires
            old(self).wf(),
            dt.wf(),
        ensures
            final(self).wf(),
            ({
                let tx = old(self).delta_params.translate.x.raw as int;
                let ty = old(self).delta_params.translate.y.raw as int;
                let d = (
                    crate::fx::fx_mul_spec(tx, dt.raw as int),
                    crate::fx::fx_mul_spec(ty, dt.raw as int),
                );
                let dn = old(self).cameras.mandelbrot.zoom.num() * FX_SCALE;
                let df = (ZOOM_FRAC + crate::fx::FX_FRAC_BITS) as nat;
                let to_marker = old(self).ctrl_down && old(self).marker_iterations.enabled || old(self).render_julia_set;
                &&& (tx == 0 && ty == 0 ==> *final(self) == *old(self))
                &&& ((tx != 0 || ty != 0) && to_marker ==> ({
                    &&& final(self).marker_iterations.position.nums() == (
                        old(self).marker_iterations.position.x.num()
                            + crate::camera::pos_div_num(
                            d.0,
                            crate::fx::FX_FRAC_BITS as nat,
                            dn,
                            df,
                            PRECISION as nat,
                        ),
                        old(self).marker_iterations.position.y.num()
                            + crate::camera::pos_div_num(
                            d.1,
                            crate::fx::FX_FRAC_BITS as nat,
                            dn,
                            df,
                            PRECISION as nat,
                        ),
                    )
                    &&& final(self).marker_iterations.recompute == old(self).marker_iterations.enabled
                    &&& final(self).cameras.julia.needs_reiterate == old(self).render_julia_set
                    &&& final(self).cameras.mandelbrot == old(self).cameras.mandelbrot
                    &&& final(self).mandelbrot_reference == old(self).mandelbrot_reference
                }))
                &&& ((tx != 0 || ty != 0) && !to_marker ==> ({
                    &&& final(self).cameras.mandelbrot.translate.nums() == (
                        old(self).cameras.mandelbrot.translate.x.num()
                            + crate::camera::pos_div_num(
                            d.0,
                            crate::fx::FX_FRAC_BITS as nat,
                            dn,
                            df,
                            PRECISION as nat,
                        ),
                        old(self).cameras.mandelbrot.translate.y.num()
                            + crate::camera::pos_div_num(
                            d.1,
                            crate::fx::FX_FRAC_BITS as nat,
                            dn,
                            df,
                            PRECISION as nat,
                        ),
                    )
                    &&& final(self).cameras.mandelbrot.needs_reiterate
                    &&& final(self).mandelbrot_reference.recompute
                    &&& final(self).cameras.mandelbrot.zoom == old(self).cameras.mandelbrot.zoom
                    &&& final(self).marker_iterations.position == old(self).marker_iterations.position
                    &&& final(self).marker_iterations.recompute == old(self).marker_iterations.recompute
                }))
            }),
            final(self).cameras.julia.zoom == old(self).cameras.julia.zoom,
            final(self).cameras.julia.translate == old(self).cameras.julia.translate,
            !(old(self).ctrl_down && old(self).marker_iterations.enabled || old(
            self).render_julia_set) ==> final(self).cameras.julia.needs_reiterate == old(
            self).cameras.julia.needs_reiterate,
            final(self).marker_iterations.enabled == old(self).marker_iterations.enabled,
            final(self).delta_params == old(self).delta_params,
            final(self).cursor == old(self).cursor,
            final(self).touches == old(self).touches,
            final(self).render_split == old(self).render_split,
            final(self).escape_radius == old(self).escape_radius,
            final(self).exponent == old(self).exponent,
            final(self).num_iterations == old(self).num_iterations,
            final(self).palette_period == old(self).palette_period,
            final(self).animate == old(self).animate,
            final(self).ctrl_down == old(self).ctrl_down,
            final(self).render_julia_set == old(self).render_julia_set,
            final(self).size == old(self).size,
            final(self).max_zoom_mandelbrot == old(self).max_zoom_mandelbrot,
            final(self).max_zoom_julia == old(self).max_zoom_julia,
            final(self).cameras.mandelbrot.zoom == old(self).cameras.mandelbrot.zoom,
    {
        if self.delta_params.translate.x.raw != 0 || self.delta_params.translate.y.raw != 0 {
            let d = FxComplex {
                x: self.delta_params.translate.x.mul(dt),
                y: self.delta_params.translate.y.mul(dt),
            };
            proof {
                crate::camera::lemma_min_zoom_pos();
            }
            if self.ctrl_down && self.marker_iterations.enabled || self.render_julia_set {
                let moved = plane_offset(d, &self.cameras.mandelbrot.zoom, 1);
                proof {
                    moved.x.lemma_scaled_id();
                    moved.y.lemma_scaled_id();
                    self.marker_iterations.position.x.lemma_scaled_id();
                    self.marker_iterations.position.y.lemma_scaled_id();
                }
                self.marker_iterations.position = self.marker_iterations.position.add(&moved);
                self.marker_iterations.recompute = self.marker_iterations.enabled;
                self.cameras.julia.needs_reiterate = self.render_julia_set;
            } else {
                pan_camera(&mut self.cameras.mandelbrot, d, 1);
                self.mandelbrot_reference.recompute = true;
            }
        }
    }

    /// The palette-period, animation-speed and iteration-budget drifts.
    #[verifier::rlimit(100)]
    #[verifier::spinoff_prover]
    fn drift_scalars(&mut self, dt: Fx)
        requires
            old(self).wf(),
            dt.wf(),
        ensures
            final(self).wf(),
            final(self).palette_period.raw == (if old(self).delta_params.period.raw != 0 {
                crate::fx::fx_mul_spec(
                    old(self).palette_period.raw as int,
                    drift_factor_spec(old(self).delta_params.period.raw as int, dt.raw as int),
                )
            } else {
                old(self).palette_period.raw as int
            }),
            final(self).animate.speed.raw == (if old(self).delta_params.animation_speed.raw != 0 {
                crate::fx::fx_mul_spec(
                    old(self).animate.speed.raw as int,
                    drift_factor_spec(
                        old(self).delta_params.animation_speed.raw as int,
                        dt.raw as int,
                    ),
                )
            } else {
                old(self).animate.speed.raw as int
            }),
            final(self).num_iterations.n.raw == (if old(self).delta_params.iterations.raw != 0 {
                crate::fx::fx_add_spec(
                    old(self).num_iterations.n.raw as int,
                    crate::fx::fx_mul_spec(
                        old(self).delta_params.iterations.raw as int,
                        dt.raw as int,
                    ),
                )
            } else {
                old(self).num_iterations.n.raw as int
            }),
            final(self).num_iterations.mode == old(self).num_iterations.mode,
            old(self).delta_params.iterations.raw != 0 ==> final(self).cameras.mandelbrot.needs_reiterate && final(self).cameras.julia.needs_reiterate
                && final(self).mandelbrot_reference.recompute && final(self).marker_iterations.recompute == old(self).marker_iterations.enabled,
            final(self).cameras.mandelbrot.zoom == old(self).cameras.mandelbrot.zoom,
            final(self).cameras.mandelbrot.translate == old(self).cameras.mandelbrot.translate,
            final(self).cameras.julia.zoom == old(self).cameras.julia.zoom,
            final(self).cameras.julia.translate == old(self).cameras.julia.translate,
            final(self).marker_iterations.position == old(self).marker_iterations.position,
            final(self).marker_iterations.enabled == old(self).marker_iterations.enabled,
            old(self).delta_params.iterations.raw == 0 ==> final(self).marker_iterations.recompute
                == old(self).marker_iterations.recompute && final(self).cameras.mandelbrot.needs_reiterate == old(self).cameras.mandelbrot.needs_reiterate
                && final(self).cameras.julia.needs_reiterate == old(
            self).cameras.julia.needs_reiterate && final(self).mandelbrot_reference == old(
            self).mandelbrot_reference,
            final(self).delta_params == old(self).delta_params,
            final(self).cursor == old(self).cursor,
            final(self).touches == old(self).touches,
            final(self).render_split == old(self).render_split,
            final(self).escape_radius == old(self).escape_radius,
            final(self).exponent == old(self).exponent,
            final(self).animate.enable == old(self).animate.enable,
            final(self).animate.value == old(self).animate.value,
            final(self).animate.reverse == old(self).animate.reverse,
            final(self).ctrl_down == old(self).ctrl_down,
            final(self).render_julia_set == old(self).render_julia_set,
            final(self).size == old(self).size,
            final(self).max_zoom_mandelbrot == old(self).max_zoom_mandelbrot,
            final(self).max_zoom_julia == old(self).max_zoom_julia,
    {
        let one = Fx { raw: FX_SCALE };
        if self.delta_params.period.raw != 0 {
            let factor = self.delta_params.period.sub(one).mul(dt).add(one);
            self.palette_period = self.palette_period.mul(factor);
        }
        if self.delta_params.animation_speed.raw != 0 {
            let factor = self.delta_params.animation_speed.sub(one).mul(dt).add(one);
            self.animate.speed = self.animate.speed.mul(factor);
        }
        if self.delta_params.iterations.raw != 0 {
            self.num_iterations.n = self.num_iterations.n.add(
                self.delta_params.iterations.mul(dt),
            );
            self.cameras.mandelbrot.needs_reiterate = true;
            self.cameras.julia.needs_reiterate = true;
            self.mandelbrot_reference.recompute = true;
            self.marker_iterations.recompute = self.marker_iterations.enabled;
        }
    }

    /// The exponent drift, clamped into the supported range.
    fn drift_exponent(&mut self, dt: Fx)
        requires
            old(self).wf(),
            dt.wf(),
        ensures
            final(self).wf(),
            old(self).delta_params.exponent.raw == 0 ==> *final(self) == *old(self),
            old(self).delta_params.exponent.raw != 0 ==> *final(self)
                == Controller::flags_raised_spec(
                Controller {
                    exponent: Fx {
                        raw: clamp_exponent_spec(
                            crate::fx::fx_add_spec(
                                old(self).exponent.raw as int,
                                crate::fx::fx_mul_spec(
                                    old(self).delta_params.exponent.raw as int,
                                    dt.raw as int,
                                ),
                            ),
                        ) as i128,
                    },
                    ..*old(self)
                },
            ),
    {
        if self.delta_params.exponent.raw != 0 {
            self.exponent = clamp_exponent(self.exponent.add(self.delta_params.exponent.mul(dt)));
            self.mark_fractal_params_changed();
        }
    }
}

/// The per-second drift factor `(d - 1) * dt + 1` on the fixed-point grid.
pub open spec fn drift_factor_spec(d: int, dt: int) -> int {
    crate::fx::fx_add_spec(
        crate::fx::fx_mul_spec(crate::fx::fx_sub_spec(d, FX_SCALE as int), dt),
        FX_SCALE as int,
    )
}

/// The primary zoom numerator after the zoom drift of one frame.
pub open spec fn drift_zoom_num_spec(c: Controller, dt: Fx) -> int {
    if c.delta_params.zoom.raw == 0 {
        c.cameras.mandelbrot.zoom.num()
    } else {
        crate::camera::zoom_scaled_spec(
            c.cameras.mandelbrot.zoom.num(),
            drift_factor_spec(c.delta_params.zoom.raw as int, dt.raw as int),
            c.max_zoom_mandelbrot.scaled(ZOOM_FRAC as int),
        )
    }
}

/// The whole part of the interactive exponent, clamped into the supported
/// range.
pub open spec fn exponent_whole_spec(e_raw: int) -> int {
    let w = e_raw / (FX_SCALE as int);
    if w < 1 {
        1
    } else if w > 64 {
        64
    } else {
        w
    }
}

/// The clamp applied to the interactive exponent.
pub open spec fn clamp_exponent_spec(e_raw: int) -> int {
    if e_raw < FX_SCALE {
        FX_SCALE as int
    } else if e_raw > 64 * FX_SCALE {
        64 * (FX_SCALE as int)
    } else {
        e_raw
    }
}

/// Clamp an exponent into the supported range (one to sixty-four).
fn clamp_exponent(e: Fx) -> (r: Fx)
    ensures
        r.raw == clamp_exponent_spec(e.raw as int),
        FX_SCALE <= r.raw <= 64 * FX_SCALE,
        r.wf(),
{
    if e.raw < FX_SCALE {
        Fx { raw: FX_SCALE }
    } else if e.raw > 64 * FX_SCALE {
        Fx { raw: 64 * FX_SCALE }
    } else {
        e
    }
}

/// The whole part of a nonnegative iteration budget, capped at the sample
/// limit.
pub open spec fn whole_iterations_spec(raw: int) -> int {
    if raw < 0 {
        0
    } else {
        let w = raw / (FX_SCALE as int);
        if w > MAX_ITER_POINTS {
            MAX_ITER_POINTS as int
        } else {
            w
        }
    }
}

/// The whole part of a nonnegative iteration budget, capped at the sample
/// limit.
fn whole_iterations(ni: Fx) -> (r: u32)
    requires
        ni.wf(),
    ensures
        r as int == whole_iterations_spec(ni.raw as int),
        r <= MAX_ITER_POINTS,
{
    if ni.raw < 0 {
        return 0;
    }
    let w = ni.raw / FX_SCALE;
    if w > (MAX_ITER_POINTS as i128) {
        MAX_ITER_POINTS
    } else {
        w as u32
    }
}

/// A zoom above the minimum plus one whole unit stays inside the range the
/// logarithm is defined on.
proof fn lemma_zoom_log_range(v: int)
    requires
        v >= pow2(64),
        v < pow2(184) + pow2(64),
    ensures
        v >= pow2(64),
        v < pow2(64 + 1024),
{
    vstd::arithmetic::power2::lemma_pow2_adds(184, 1);
    vstd::arithmetic::power2::lemma2_to64();
    assert(pow2(185) == pow2(184) * 2);
    vstd::arithmetic::power2::lemma_pow2_strictly_increases(185, 1088);
    vstd::arithmetic::power2::lemma_pow2_strictly_increases(64, 184);
}

/// A clamped zoom downcasts to a positive fixed-point value.
proof fn lemma_zoom_to_fx_pos(zoom: BigReal)
    requires
        zoom.frac == ZOOM_FRAC,
        zoom.num() >= min_zoom_num(),
    ensures
        zoom.to_fx_spec() > 0,
{
    vstd::arithmetic::power2::lemma2_to64();
    vstd::arithmetic::div_mod::lemma_div_is_ordered(
        min_zoom_num(),
        zoom.num(),
        pow2(32) as int,
    );
    vstd::arithmetic::div_mod::lemma_div_by_multiple(214748365, pow2(32) as int);
    assert(min_zoom_num() == 214748365 * (pow2(32) as int));
}

/// Law: the controller invariant bounds each camera's zoom within its
/// view's configured range. Every event handler preserves the invariant, so
/// after any sequence of scroll, pinch, drift or drag events both zooms stay
/// inside `[MIN_ZOOM, max_zoom]`.
pub proof fn lemma_zoom_within_range(c: Controller)
    requires
        c.wf(),
    ensures
        c.cameras.mandelbrot.zoom.num() >= min_zoom_num(),
        !BigReal::big_lt_spec(c.max_zoom_mandelbrot, c.cameras.mandelbrot.zoom),
        c.cameras.julia.zoom.num() >= min_zoom_num(),
        !BigReal::big_lt_spec(c.max_zoom_julia, c.cameras.julia.zoom),
{
}

impl Controller {
    /// The effective iteration budget at the primary camera's current zoom:
    /// the configured budget model evaluated at one plus the zoom.
    pub fn calculate_num_iterations(&self) -> (r: Fx)
        requires
            self.wf(),
        ensures
            r.raw == crate::iterations::budget_spec(
                self.num_iterations,
                self.cameras.mandelbrot.zoom.num() + pow2(ZOOM_FRAC as nat),
                ZOOM_FRAC as nat,
            ),
            r.wf(),
    {
        let one = BigReal::from_fx(Fx { raw: FX_SCALE }).align(ZOOM_FRAC);
        let arg = self.cameras.mandelbrot.zoom.add(&one);
        proof {
            self.cameras.mandelbrot.zoom.lemma_scaled_id();
            one.lemma_scaled_id();
            vstd::arithmetic::power2::lemma2_to64();
            vstd::arithmetic::power2::lemma_pow2_adds(32, 32);
            assert(one.num() == pow2(64));
            lemma_zoom_log_range(self.cameras.mandelbrot.zoom.num() + pow2(64));
        }
        self.num_iterations.calculate_num_iterations(&arg)
    }

    /// The whole-number exponent the kernels iterate with. The interactive
    /// exponent is a fractional control, but fractional (or negative)
    /// exponents need a transcendental complex power that only floating
    /// point provides; the verified kernels iterate the nearest-below whole
    /// exponent instead, clamped into the supported range.
    pub fn exponent_whole(&self) -> (r: u32)
        requires
            self.wf(),
        ensures
            r as int == exponent_whole_spec(self.exponent.raw as int),
            1 <= r <= 64,
    {
        let w = self.exponent.raw / FX_SCALE;
        if w < 1 {
            1
        } else if w > 64 {
            64
        } else {
            w as u32
        }
    }

    /// Rebuild the reference orbit from the primary camera's center at full
    /// precision: the stored samples and count are exactly the
    /// arbitrary-precision iteration of the translate, downcast, up to
    /// escape or the whole-number budget.
    pub fn recompute_reference_iterations(&mut self)
        requires
            old(self).wf(),
        ensures
            final(self).wf(),
            !final(self).mandelbrot_reference.recompute,
            ({
                let cn = old(self).cameras.mandelbrot.translate.nums();
                let cap = whole_iterations_spec(
                    crate::iterations::budget_spec(
                        old(self).num_iterations,
                        old(self).cameras.mandelbrot.zoom.num() + pow2(ZOOM_FRAC as nat),
                        ZOOM_FRAC as nat,
                    ),
                );
                let er_sq = (old(self).escape_radius.raw as int) * (
                old(self).escape_radius.raw as int);
                let n = crate::orbit::ref_escape_count(cn, PRECISION as nat, er_sq, cap as nat, 0);
                &&& final(self).mandelbrot_reference.num_ref_iterations as int == n
                &&& final(self).mandelbrot_reference.points@.len() == n + 1
                &&& forall|k: int|
                    0 <= k < final(self).mandelbrot_reference.points@.len() ==> (
                    #[trigger] final(self).mandelbrot_reference.points@[k]).rep() == (
                        crate::orbit::num_to_fx(
                            crate::orbit::ref_orbit_nums(cn, PRECISION as nat, k as nat).0,
                            PRECISION as nat,
                        ),
                        crate::orbit::num_to_fx(
                            crate::orbit::ref_orbit_nums(cn, PRECISION as nat, k as nat).1,
                            PRECISION as nat,
                        ),
                    )
            }),
            *final(self) == (Controller {
                mandelbrot_reference: final(self).mandelbrot_reference,
                ..*old(self)
            }),
    {
        let c = crate::complex::Complex::from_vec2(self.cameras.mandelbrot.translate.copy_val());
        let ni = self.calculate_num_iterations();
        let cap = whole_iterations(ni);
        let orbit = compute_reference_orbit(&c, self.escape_radius, cap, PRECISION);
        self.mandelbrot_reference.points = orbit.points;
        self.mandelbrot_reference.num_ref_iterations = orbit.num_ref_iterations;
        self.mandelbrot_reference.recompute = false;
    }

    /// Recompute the marker trajectory and statistics, unless the view is
    /// too deep for meaningful machine-precision iteration. The budget is
    /// the ceiling of the fractional effective budget; a zero budget leaves
    /// just the seed point and zeroed statistics.
    pub fn recompute_iterations(&mut self)
        requires
            old(self).wf(),
        ensures
            final(self).wf(),
            !final(self).marker_iterations.recompute,
            ({
                let deep = old(self).cameras.mandelbrot.zoom.num() > 100000 * pow2(
                    ZOOM_FRAC as nat,
                );
                let c = (
                    crate::bigreal::num_to_fx_val(
                        old(self).marker_iterations.position.x.num(),
                        PRECISION as nat,
                    ),
                    crate::bigreal::num_to_fx_val(
                        old(self).marker_iterations.position.y.num(),
                        PRECISION as nat,
                    ),
                );
                let cap = whole_iterations_spec(
                    crate::fx::fx_clip(
                        crate::fx::fx_ceil_spec(
                            crate::iterations::budget_spec(
                                old(self).num_iterations,
                                old(self).cameras.mandelbrot.zoom.num() + pow2(ZOOM_FRAC as nat),
                                ZOOM_FRAC as nat,
                            ),
                        ),
                    ),
                );
                let p = exponent_whole_spec(old(self).exponent.raw as int) as nat;
                let er = old(self).escape_radius.raw as int;
                let n = crate::marker::m_count(c, p, er, cap as nat, 0);
                &&& deep ==> final(self).marker_iterations.points@.len() == 0 && final(self).marker_iterations.stats == old(self).marker_iterations.stats
                &&& !deep && cap == 0 ==> final(self).marker_iterations.points@.len() == 1
                    && final(self).marker_iterations.stats.count == 0
                &&& !deep && cap >= 1 ==> ({
                    let stats = final(self).marker_iterations.stats;
                    &&& stats.count as int == n
                    &&& stats.distance_sum.raw == crate::marker::m_dist_sum(c, p, n)
                    &&& stats.norm_sum.raw == crate::marker::m_norm_sum(c, p, n)
                    &&& stats.angle_sum.raw == crate::marker::m_angle_sum(c, p, n)
                    &&& stats.final_norm.raw == crate::fx::fx_sqrt_spec(
                        crate::complex::c_norm_sq_spec(
                            crate::kernel::reg_orbit_spec((0int, 0int), c, p, n),
                        ),
                    )
                    &&& stats.proximity.raw == crate::proximity::proximity_spec(
                        crate::fx::fx_sqrt_spec(
                            crate::complex::c_norm_sq_spec(
                                crate::kernel::reg_orbit_spec(
                                    (0int, 0int),
                                    c,
                                    p,
                                    if n == 0 {
                                        0nat
                                    } else {
                                        (n - 1) as nat
                                    },
                                ),
                            ),
                        ),
                        crate::fx::fx_sqrt_spec(
                            crate::complex::c_norm_sq_spec(
                                crate::kernel::reg_orbit_spec((0int, 0int), c, p, n),
                            ),
                        ),
                        er,
                    )
                    &&& n >= 1 ==> stats.final_distance.raw == crate::complex::c_distance_spec(
                        crate::kernel::reg_orbit_spec((0int, 0int), c, p, (n - 1) as nat),
                        crate::kernel::reg_orbit_spec((0int, 0int), c, p, n),
                    )
                    &&& n >= 1 ==> stats.final_angle.raw == crate::styles::atan2_spec(
                        crate::kernel::reg_orbit_spec((0int, 0int), c, p, n).1,
                        crate::kernel::reg_orbit_spec((0int, 0int), c, p, n).0,
                    )
                    &&& 1 <= final(self).marker_iterations.points@.len() <= cap + 1
                    &&& forall|k: int|
                        0 <= k < final(self).marker_iterations.points@.len() ==> (
                        #[trigger] final(self).marker_iterations.points@[k]).rep()
                            == crate::kernel::reg_orbit_spec((0int, 0int), c, p, k as nat)
                })
            }),
            final(self).marker_iterations.enabled == old(self).marker_iterations.enabled,
            final(self).marker_iterations.dragging == old(self).marker_iterations.dragging,
            final(self).marker_iterations.position == old(self).marker_iterations.position,
            *final(self) == (Controller {
                marker_iterations: final(self).marker_iterations,
                ..*old(self)
            }),
    {
        self.marker_iterations.points = Vec::new();
        self.marker_iterations.recompute = false;
        let limit = BigReal::from_fx(Fx { raw: 100000 * FX_SCALE }).align(ZOOM_FRAC);
        proof {
            limit.lemma_scaled_id();
            self.cameras.mandelbrot.zoom.lemma_scaled_id();
            vstd::arithmetic::power2::lemma2_to64();
            vstd::arithmetic::power2::lemma_pow2_adds(32, 32);
            assert(limit.num() == 100000 * pow2(64));
        }
        if limit.lt(&self.cameras.mandelbrot.zoom) {
            return;
        }
        let c = self.marker_iterations.position.as_fx2();
        proof {
            self.marker_iterations.position.x.lemma_to_fx_val();
            self.marker_iterations.position.y.lemma_to_fx_val();
        }
        let ni = self.calculate_num_iterations();
        let stepped = Fx::from_raw(ni.ceil().raw);
        let cap = whole_iterations(stepped);
        if cap == 0 {
            let mut points: Vec<FxComplex> = Vec::new();
            points.push(FxComplex::zero());
            self.marker_iterations.points = points;
            self.marker_iterations.stats = MarkerIterationStats {
                final_norm: Fx { raw: 0 },
                final_distance: Fx { raw: 0 },
                final_angle: Fx { raw: 0 },
                angle_sum: Fx { raw: 0 },
                distance_sum: Fx { raw: 0 },
                norm_sum: Fx { raw: 0 },
                proximity: Fx { raw: 0 },
                count: 0,
            };
            return;
        }
        let exp = self.exponent_whole();
        let (points, stats) = crate::marker::compute_marker_orbit(
            c,
            cap,
            exp,
            self.escape_radius,
        );
        self.marker_iterations.points = points;
        self.marker_iterations.stats = stats;
    }

    /// Run the per-frame bookkeeping that precedes rendering: apply the
    /// parameter drifts, pick the iteration mode (deep zoom perturbs only at
    /// the default exponent), and refresh the marker trajectory and the
    /// reference orbit where flagged. Afterwards no marker recompute is
    /// pending, and in perturbation mode with a dirty primary view the
    /// stored orbit is the exact iteration of the final translate.
    pub fn ui_impl(&mut self, dt: Fx)
        requires
            old(self).wf(),
            dt.wf(),
        ensures
            final(self).wf(),
            final(self).iteration_mode == (if final(self).cameras.mandelbrot.zoom.num() > 1000
                * pow2(ZOOM_FRAC as nat) && final(self).exponent.raw == 2 * FX_SCALE {
                IterationMode::Perturbation
            } else {
                IterationMode::Regular
            }),
            !final(self).marker_iterations.recompute,
            final(self).iteration_mode == IterationMode::Perturbation && final(
            self).cameras.mandelbrot.needs_reiterate ==> !final(
            self).mandelbrot_reference.recompute && ({
                let cn = final(self).cameras.mandelbrot.translate.nums();
                let cap = whole_iterations_spec(
                    crate::iterations::budget_spec(
                        final(self).num_iterations,
                        final(self).cameras.mandelbrot.zoom.num() + pow2(ZOOM_FRAC as nat),
                        ZOOM_FRAC as nat,
                    ),
                );
                let er_sq = (final(self).escape_radius.raw as int) * (
                final(self).escape_radius.raw as int);
                let n = crate::orbit::ref_escape_count(cn, PRECISION as nat, er_sq, cap as nat, 0);
                &&& final(self).mandelbrot_reference.num_ref_iterations as int == n
                &&& final(self).mandelbrot_reference.points@.len() == n + 1
            }),
    {
        self.handle_param_deltas(dt);
        let threshold = BigReal::from_fx(Fx { raw: 1000 * FX_SCALE }).align(ZOOM_FRAC);
        proof {
            threshold.lemma_scaled_id();
            self.cameras.mandelbrot.zoom.lemma_scaled_id();
            vstd::arithmetic::power2::lemma2_to64();
            vstd::arithmetic::power2::lemma_pow2_adds(32, 32);
            assert(threshold.num() == 1000 * pow2(64));
        }
        let deep = threshold.lt(&self.cameras.mandelbrot.zoom);
        self.iteration_mode = if deep && self.exponent.raw == 2 * FX_SCALE {
            IterationMode::Perturbation
        } else {
            IterationMode::Regular
        };
        if self.marker_iterations.recompute {
            self.recompute_iterations();
        }
        if self.cameras.mandelbrot.needs_reiterate && matches!(
            self.iteration_mode,
            IterationMode::Perturbation,
        ) {
            self.recompute_reference_iterations();
        }
    }

    /// Freeze the frame's parameter block and consume the dirty flags: the
    /// snapshot carries the downcast camera state, the computed iteration
    /// budget clamped at zero, and the frame's selectors, exactly; after
    /// this call both views are clean until the next mutation.
    pub fn prepare_render(&mut self, dt: Fx, time: Fx) -> (fc: FragmentConstants)
        requires
            old(self).wf(),
            dt.wf(),
            time.wf(),
        ensures
            final(self).wf(),
            fc.wf(),
            !final(self).cameras.mandelbrot.needs_reiterate,
            !final(self).cameras.julia.needs_reiterate,
            fc.needs_reiterate_mandelbrot == old(self).cameras.mandelbrot.needs_reiterate,
            fc.needs_reiterate_julia == old(self).cameras.julia.needs_reiterate,
            fc.mandelbrot_num_ref_iterations == old(self).mandelbrot_reference.num_ref_iterations,
            fc.mandelbrot_camera_translate.rep() == (
                crate::bigreal::num_to_fx_val(
                    old(self).cameras.mandelbrot.translate.x.num(),
                    PRECISION as nat,
                ),
                crate::bigreal::num_to_fx_val(
                    old(self).cameras.mandelbrot.translate.y.num(),
                    PRECISION as nat,
                ),
            ),
            fc.julia_camera_translate.rep() == (
                crate::bigreal::num_to_fx_val(
                    old(self).cameras.julia.translate.x.num(),
                    PRECISION as nat,
                ),
                crate::bigreal::num_to_fx_val(
                    old(self).cameras.julia.translate.y.num(),
                    PRECISION as nat,
                ),
            ),
            fc.mandelbrot_camera_zoom.raw as int == crate::bigreal::num_to_fx_val(
                old(self).cameras.mandelbrot.zoom.num(),
                ZOOM_FRAC as nat,
            ),
            fc.julia_camera_zoom.raw as int == crate::bigreal::num_to_fx_val(
                old(self).cameras.julia.zoom.num(),
                ZOOM_FRAC as nat,
            ),
            fc.num_iterations.raw == ({
                let b = crate::iterations::budget_spec(
                    old(self).num_iterations,
                    old(self).cameras.mandelbrot.zoom.num() + pow2(ZOOM_FRAC as nat),
                    ZOOM_FRAC as nat,
                );
                if b < 0 {
                    0int
                } else {
                    b
                }
            }),
            fc.marker.rep() == (
                crate::bigreal::num_to_fx_val(
                    old(self).marker_iterations.position.x.num(),
                    PRECISION as nat,
                ),
                crate::bigreal::num_to_fx_val(
                    old(self).marker_iterations.position.y.num(),
                    PRECISION as nat,
                ),
            ),
            fc.marker_screen_space.rep() == final(self).to_screen_spec(
                final(self).marker_iterations.position,
            ),
            fc.render_split == old(self).render_split.value,
            fc.palette == old(self).palette,
            fc.render_style == old(self).render_style,
            fc.render_partitioning == old(self).render_partitioning,
            fc.iteration_mode == old(self).iteration_mode,
            fc.escape_radius == old(self).escape_radius,
            fc.exponent as int == exponent_whole_spec(old(self).exponent.raw as int),
            fc.render_julia_set == old(self).render_julia_set,
            fc.smooth_factor == (if old(self).smooth.enable {
                old(self).smooth.value
            } else {
                Fx { raw: 0 }
            }),
            fc.animate_time == final(self).animate.value,
            fc.palette_period == old(self).palette_period,
            fc.time == time,
            fc.num_points as int == (if old(self).marker_iterations.points@.len() <= u32::MAX {
                old(self).marker_iterations.points@.len() as int
            } else {
                fc.num_points as int
            }),
            fc.show_iterations == (old(self).marker_iterations.enabled && old(
            self).marker_iterations.points@.len() > 0),
            fc.size == (Size {
                x: (if old(self).size.x < 1 {
                    1u32
                } else if old(self).size.x > crate::params::GRID_WIDTH {
                    crate::params::GRID_WIDTH
                } else {
                    old(self).size.x
                }),
                y: (if old(self).size.y < 1 {
                    1u32
                } else if old(self).size.y > crate::params::GRID_HEIGHT {
                    crate::params::GRID_HEIGHT
                } else {
                    old(self).size.y
                }),
            }),
            *final(self) == (Controller {
                animate: final(self).animate,
                cameras: Cameras {
                    mandelbrot: Camera {
                        needs_reiterate: false,
                        ..old(self).cameras.mandelbrot
                    },
                    julia: Camera { needs_reiterate: false, ..old(self).cameras.julia },
                },
                ..*old(self)
            }),
    {
        self.animate.tick(dt);
        let needs_reiterate_mandelbrot = self.cameras.mandelbrot.needs_reiterate;
        let needs_reiterate_julia = self.cameras.julia.needs_reiterate;
        self.cameras.mandelbrot.needs_reiterate = false;
        self.cameras.julia.needs_reiterate = false;
        let ni = self.calculate_num_iterations();
        let ni: Fx = if ni.raw < 0 {
            Fx { raw: 0 }
        } else {
            ni
        };
        let sx: u32 = if self.size.x < 1 {
            1
        } else if self.size.x > crate::params::GRID_WIDTH {
            crate::params::GRID_WIDTH
        } else {
            self.size.x
        };
        let sy: u32 = if self.size.y < 1 {
            1
        } else if self.size.y > crate::params::GRID_HEIGHT {
            crate::params::GRID_HEIGHT
        } else {
            self.size.y
        };
        proof {
            lemma_zoom_to_fx_pos(self.cameras.mandelbrot.zoom);
            lemma_zoom_to_fx_pos(self.cameras.julia.zoom);
            self.cameras.mandelbrot.zoom.lemma_to_fx_val();
            self.cameras.julia.zoom.lemma_to_fx_val();
            self.cameras.mandelbrot.translate.x.lemma_to_fx_val();
            self.cameras.mandelbrot.translate.y.lemma_to_fx_val();
            self.cameras.julia.translate.x.lemma_to_fx_val();
            self.cameras.julia.translate.y.lemma_to_fx_val();
            self.marker_iterations.position.x.lemma_to_fx_val();
            self.marker_iterations.position.y.lemma_to_fx_val();
        }
        let marker_screen = self.to_screen_space_big(&self.marker_iterations.position);
        FragmentConstants {
            size: Size { x: sx, y: sy },
            time,
            mandelbrot_camera_translate: self.cameras.mandelbrot.translate.as_fx2(),
            mandelbrot_camera_zoom: self.cameras.mandelbrot.zoom.to_fx(),
            julia_camera_translate: self.cameras.julia.translate.as_fx2(),
            julia_camera_zoom: self.cameras.julia.zoom.to_fx(),
            num_iterations: ni,
            show_iterations: self.marker_iterations.enabled
                && self.marker_iterations.points.len() > 0,
            num_points: self.marker_iterations.points.len() as u32,
            marker: self.marker_iterations.position.as_fx2(),
            marker_screen_space: marker_screen,
            render_julia_set: self.render_julia_set,
            render_split: self.render_split.value,
            palette: self.palette,
            smooth_factor: self.smooth.factor(),
            animate_time: self.animate.value,
            palette_period: self.palette_period,
            render_style: self.render_style,
            mandelbrot_num_ref_iterations: self.mandelbrot_reference.num_ref_iterations,
            needs_reiterate_mandelbrot,
            needs_reiterate_julia,
            iteration_mode: self.iteration_mode,
            render_partitioning: self.render_partitioning,
            exponent: self.exponent_whole(),
            escape_radius: self.escape_radius,
        }
    }

    /// Set the escape radius, clamped to stay positive, and flag everything
    /// that depends on the fractal formula.
    pub fn set_escape_radius(&mut self, r: Fx)
        requires
            old(self).wf(),
            r.wf(),
        ensures
            final(self).wf(),
            *final(self) == Controller::flags_raised_spec(
                Controller {
                    escape_radius: Fx { raw: if r.raw < 1 { 1 } else { r.raw } },
                    ..*old(self)
                },
            ),
    {
        self.escape_radius = if r.raw < 1 {
            Fx { raw: 1 }
        } else {
            r
        };
        self.mark_fractal_params_changed();
    }

    /// Set the exponent, clamped into the supported range, and flag
    /// everything that depends on the fractal formula.
    pub fn set_exponent(&mut self, e: Fx)
        requires
            old(self).wf(),
            e.wf(),
        ensures
            final(self).wf(),
            *final(self) == Controller::flags_raised_spec(
                Controller {
                    exponent: Fx { raw: clamp_exponent_spec(e.raw as int) as i128 },
                    ..*old(self)
                },
            ),
    {
        self.exponent = clamp_exponent(e);
        self.mark_fractal_params_changed();
    }

    /// Set the smoothing factor, clamped into `[0, 1]`, and dirty both
    /// views.
    pub fn set_smooth_value(&mut self, v: Fx)
        requires
            old(self).wf(),
            v.wf(),
        ensures
            final(self).wf(),
            *final(self) == (Controller {
                smooth: Smooth {
                    value: Fx {
                        raw: if v.raw < 0 {
                            0
                        } else if v.raw > FX_SCALE {
                            FX_SCALE
                        } else {
                            v.raw
                        },
                    },
                    ..old(self).smooth
                },
                cameras: Cameras {
                    mandelbrot: Camera { needs_reiterate: true, ..old(self).cameras.mandelbrot },
                    julia: Camera { needs_reiterate: true, ..old(self).cameras.julia },
                },
                ..*old(self)
            }),
    {
        self.smooth.value = if v.raw < 0 {
            Fx { raw: 0 }
        } else if v.raw > FX_SCALE {
            Fx { raw: FX_SCALE }
        } else {
            v
        };
        self.cameras.mandelbrot.needs_reiterate = true;
        self.cameras.julia.needs_reiterate = true;
    }

    /// Set the iteration-budget offset and flag everything that depends on
    /// the fractal formula.
    pub fn set_iterations_n(&mut self, n: Fx)
        requires
            old(self).wf(),
            n.wf(),
        ensures
            final(self).wf(),
            *final(self) == Controller::flags_raised_spec(
                Controller {
                    num_iterations: NumIterations { n, ..old(self).num_iterations },
                    ..*old(self)
                },
            ),
    {
        self.num_iterations.n = n;
        self.mark_fractal_params_changed();
    }
}

/// The constraints every configured zoom maximum satisfies: representable at
/// or below the zoom precision, at least the minimum zoom, and bounded so the
/// iteration baseline's logarithm stays defined.
pub open spec fn max_zoom_wf(m: BigReal) -> bool {
    &&& m.wf()
    &&& m.frac <= ZOOM_FRAC
    &&& min_zoom_num() <= m.scaled(ZOOM_FRAC as int)
    &&& m.scaled(ZOOM_FRAC as int) < pow2(184)
}

/// The deep-zoom ceiling of the primary view (ten to the thirty-sixth).
pub fn max_zoom_mandelbrot_value() -> (r: BigReal)
    ensures
        max_zoom_wf(r),
        r.num() == 1000000000000000000000000000000000000,
        r.frac == 0,
{
    let r = BigReal {
        neg: false,
        mag: crate::bigint::mag_from_u128(1000000000000000000000000000000000000u128),
        frac: 0,
    };
    proof {
        vstd::arithmetic::power2::lemma2_to64_rest();
        vstd::arithmetic::power2::lemma_pow2_adds(60, 60);
        assert(pow2(120) == 0x1000000000000000 * 0x1000000000000000int);
        lemma_max_zoom_bounds(1000000000000000000000000000000000000);
    }
    r
}

/// The zoom ceiling of the secondary view (one million).
pub fn max_zoom_julia_value() -> (r: BigReal)
    ensures
        max_zoom_wf(r),
        r.num() == 1000000,
        r.frac == 0,
{
    let r = BigReal { neg: false, mag: crate::bigint::mag_from_u128(1000000u128), frac: 0 };
    proof {
        vstd::arithmetic::power2::lemma2_to64_rest();
        vstd::arithmetic::power2::lemma_pow2_adds(60, 60);
        assert(pow2(120) == 0x1000000000000000 * 0x1000000000000000int);
        lemma_max_zoom_bounds(1000000);
    }
    r
}

/// A whole-number zoom ceiling below `2^120` meets the maximum-zoom
/// constraints.
proof fn lemma_max_zoom_bounds(v: int)
    requires
        1 <= v,
        v < pow2(120),
    ensures
        min_zoom_num() <= v * pow2(ZOOM_FRAC as nat),
        v * pow2(ZOOM_FRAC as nat) < pow2(184),
{
    vstd::arithmetic::power2::lemma2_to64();
    vstd::arithmetic::power2::lemma_pow2_adds(120, 64);
    assert(min_zoom_num() <= v * pow2(64)) by (nonlinear_arith)
        requires
            min_zoom_num() == 214748365 * 0x1_0000_0000,
            pow2(64) == 0x1_0000_0000_0000_0000,
            v >= 1,
    ;
    assert(v * pow2(64) < pow2(184)) by (nonlinear_arith)
        requires
            v < pow2(120),
            pow2(64) > 0,
            pow2(184) == pow2(120) * pow2(64),
    ;
}

} // verus!
