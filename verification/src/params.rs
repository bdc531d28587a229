//! Per-frame render parameters and the small closed enumerations that select
//! render behaviour: reduction style, palette, iteration mode and
//! inside/outside partitioning.

use crate::fx::{Fx, FX_SCALE};
use crate::proximity::{fx_lerp_spec, fx_smoothstep_spec, lerp, smoothstep};
use vstd::prelude::*;

verus! {

/// Pixel dimensions of a render surface.
#[derive(Clone, Copy, Debug, PartialEq, Eq, Structural)]
pub struct Size {
    pub x: u32,
    pub y: u32,
}

/// Width of the render-parameter cache raster.
pub const GRID_WIDTH: u32 = 2880;

/// Height of the render-parameter cache raster.
pub const GRID_HEIGHT: u32 = 1620;

/// Screen-space radius of the marker overlay, in raw fixed-point units.
pub const MARKER_RADIUS_RAW: i128 = 34359738368;

/// Which escape-statistic reduction colours the image.
#[derive(Clone, Copy, Debug, PartialEq, Eq, Structural)]
pub enum RenderStyle {
    Iterations,
    FinalAngle,
    FinalDistance,
    DistanceSum,
    NormSum,
    FinalNorm,
    AngleSum,
}

impl Default for RenderStyle {
    fn default() -> (r: Self)
        ensures
            r == RenderStyle::Iterations,
    {
        RenderStyle::Iterations
    }
}

/// Colour palette selector; the palette functions themselves are pure
/// periodic colour maps applied after the verified statistics.
#[derive(Clone, Copy, Debug, PartialEq, Eq, Structural)]
pub enum Palette {
    Pastel,
    Zebra,
    Copper,
    SolarizedDark,
    Highlighter,
    RedAndBlack,
    RGB,
    NeonA,
    NeonB,
    NeonC,
}

impl Default for Palette {
    fn default() -> (r: Self)
        ensures
            r == Palette::Pastel,
    {
        Palette::Pastel
    }
}

/// Whether pixels iterate directly or perturb around the reference orbit.
#[derive(Clone, Copy, Debug, PartialEq, Eq, Structural)]
pub enum IterationMode {
    Regular,
    Perturbation,
}

impl Default for IterationMode {
    fn default() -> (r: Self)
        ensures
            r == IterationMode::Regular,
    {
        IterationMode::Regular
    }
}

/// Which of the inside/outside pixel categories is rendered.
#[derive(Clone, Copy, Debug, PartialEq, Eq, Structural)]
pub enum RenderPartitioning {
    Outside,
    Inside,
    Both,
}

impl Default for RenderPartitioning {
    fn default() -> (r: Self)
        ensures
            r == RenderPartitioning::Outside,
    {
        RenderPartitioning::Outside
    }
}

/// The per-frame parameter block handed to the render kernel.
#[derive(Clone, Copy, Debug)]
pub struct FragmentConstants {
    pub size: Size,
    pub time: Fx,
    pub mandelbrot_camera_translate: crate::complex::FxComplex,
    pub mandelbrot_camera_zoom: Fx,
    pub julia_camera_translate: crate::complex::FxComplex,
    pub julia_camera_zoom: Fx,
    pub num_iterations: Fx,
    pub show_iterations: bool,
    pub num_points: u32,
    pub marker: crate::complex::FxComplex,
    pub marker_screen_space: crate::complex::FxComplex,
    pub render_julia_set: bool,
    pub render_split: Fx,
    pub palette: Palette,
    pub smooth_factor: Fx,
    pub animate_time: Fx,
    pub palette_period: Fx,
    pub render_style: RenderStyle,
    pub mandelbrot_num_ref_iterations: u32,
    pub needs_reiterate_mandelbrot: bool,
    pub needs_reiterate_julia: bool,
    pub iteration_mode: IterationMode,
    pub render_partitioning: RenderPartitioning,
    pub exponent: u32,
    pub escape_radius: Fx,
}

impl FragmentConstants {
    /// Parameter ranges every frame block satisfies: the iteration budget and
    /// smoothing factor are in range and the kernel inputs cannot saturate.
    pub open spec fn wf(self) -> bool {
        &&& 0 <= self.num_iterations.raw
        &&& 0 <= self.smooth_factor.raw <= FX_SCALE
        &&& self.escape_radius.wf()
        &&& self.num_iterations.wf()
        &&& 1 <= self.exponent
        &&& 1 <= self.size.x <= GRID_WIDTH
        &&& 1 <= self.size.y <= GRID_HEIGHT
        &&& 0 < self.mandelbrot_camera_zoom.raw
        &&& self.mandelbrot_camera_zoom.wf()
        &&& 0 < self.julia_camera_zoom.raw
        &&& self.julia_camera_zoom.wf()
        &&& self.mandelbrot_camera_translate.wf()
        &&& self.julia_camera_translate.wf()
        &&& self.marker.wf()
        &&& self.render_split.wf()
    }

    /// The squared escape radius.
    pub fn escape_radius_sq(&self) -> (r: Fx)
        requires
            self.escape_radius.wf(),
        ensures
            r.raw == crate::fx::fx_mul_spec(
                self.escape_radius.raw as int,
                self.escape_radius.raw as int,
            ),
            r.wf(),
    {
        self.escape_radius.mul(self.escape_radius)
    }

    /// The whole-number iteration cap.
    pub fn num_iterations_whole(&self) -> (r: u32)
        requires
            self.wf(),
        ensures
            r == fx_floor_u32(self.num_iterations.raw as int),
    {
        let w = self.num_iterations.raw / FX_SCALE;
        if w > 0xffff_ffff {
            0xffff_ffff
        } else {
            w as u32
        }
    }

    /// The fractional part of the iteration budget.
    pub fn num_iterations_fract(&self) -> (r: Fx)
        requires
            self.wf(),
        ensures
            r.raw == (self.num_iterations.raw as int) % (FX_SCALE as int),
            0 <= r.raw < FX_SCALE,
            r.wf(),
    {
        Fx { raw: self.num_iterations.raw % FX_SCALE }
    }
}

/// The whole part of a nonnegative fixed-point value, saturated to `u32`.
pub open spec fn fx_floor_u32(raw: int) -> int
    recommends
        raw >= 0,
{
    let w = raw / (FX_SCALE as int);
    if w > 0xffff_ffff {
        0xffff_ffff
    } else {
        w
    }
}

/// The result cached per pixel: the iteration count (`u32::MAX` marking a
/// suppressed category) and the smoothed statistic value.
#[derive(Clone, Copy, Debug, PartialEq, Eq, Structural)]
pub struct RenderParameters {
    pub i: u32,
    pub x: Fx,
}

/// The smoothing factor applied to a reduction pair: the iteration fraction
/// for inside pixels, the smoothstepped proximity for outside ones.
pub open spec fn smoothing_spec(c: FragmentConstants, inside: bool, h: int) -> int {
    if inside {
        crate::fx::fx_mul_spec(
            (c.num_iterations.raw as int) % (FX_SCALE as int),
            c.smooth_factor.raw as int,
        )
    } else {
        fx_smoothstep_spec(0, c.smooth_factor.raw as int, h)
    }
}

/// Whether the pixel's category is suppressed by the partitioning mode.
pub open spec fn suppressed_spec(c: FragmentConstants, inside: bool) -> bool {
    (inside && c.render_partitioning == RenderPartitioning::Outside) || (!inside
        && c.render_partitioning == RenderPartitioning::Inside)
}

impl RenderParameters {
    /// Combine a reduction pair `(x0, x1)` and proximity `h` into the cached
    /// cell: suppressed categories are marked with `u32::MAX`, and the value
    /// is `x0..x1` interpolated by the smoothing factor.
    pub fn new(c: &FragmentConstants, inside: bool, i: u32, h: Fx, x0: Fx, x1: Fx) -> (r:
        RenderParameters)
        requires
            c.wf(),
            h.wf(),
            x0.wf(),
            x1.wf(),
            0 <= h.raw <= FX_SCALE,
        ensures
            r.i == if suppressed_spec(*c, inside) {
                u32::MAX
            } else {
                i
            },
            r.x.raw == fx_lerp_spec(
                x0.raw as int,
                x1.raw as int,
                smoothing_spec(*c, inside, h.raw as int),
            ),
            r.x.wf(),
    {
        let i_out: u32 = if (inside && matches!(c.render_partitioning, RenderPartitioning::Outside))
            || (!inside && matches!(c.render_partitioning, RenderPartitioning::Inside)) {
            u32::MAX
        } else {
            i
        };
        let s: Fx = if inside {
            let f = c.num_iterations_fract();
            let r = f.mul(c.smooth_factor);
            proof {
                let fi = f.raw as int;
                let mi = c.smooth_factor.raw as int;
                let s = FX_SCALE as int;
                assert(0 <= fi * mi <= s * s) by (nonlinear_arith)
                    requires
                        0 <= fi < s,
                        0 <= mi <= s,
                ;
                vstd::arithmetic::div_mod::lemma_div_is_ordered(fi * mi, s * s, s);
                vstd::arithmetic::div_mod::lemma_div_by_multiple(s, s);
                assert(0 <= (fi * mi) / s) by (nonlinear_arith)
                    requires
                        0 <= fi * mi,
                        s > 0,
                ;
            }
            r
        } else {
            smoothstep(Fx { raw: 0 }, c.smooth_factor, h)
        };
        RenderParameters { i: i_out, x: lerp(x0, x1, s) }
    }
}

} // verus!
