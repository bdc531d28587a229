//! The render-parameter cache and the per-frame render pass.
//!
//! A raster holds, per pixel, the most recently computed reduction result.
//! Each frame, a pixel is recomputed only when the view owning it (decided
//! afresh from the split test) is flagged dirty; otherwise the cached cell is
//! left untouched. `render_frame` returns the recompute count; its contract
//! states the cache-hit law: with neither view dirty, no pixel is recomputed
//! and every cell is unchanged.

use crate::complex::FxComplex;
use crate::fx::{fx_add_spec, fx_div_spec, fx_mul_spec, Fx, FX_SCALE};
use crate::kernel::{iterate_perturbed, iterate_regular, seq_reps};
use crate::orbit::ReferenceOrbit;
use crate::params::{FragmentConstants, IterationMode, RenderParameters};
use crate::styles::{cell_spec, get_render_parameters};
use vstd::prelude::*;

verus! {

/// The per-pixel raster of cached render parameters.
pub struct RenderGrid {
    pub cells: Vec<RenderParameters>,
    pub width: u32,
    pub height: u32,
}

impl RenderGrid {
    /// One cell per pixel.
    pub open spec fn wf(self) -> bool {
        self.cells@.len() == (self.width as int) * (self.height as int)
    }

    /// The cell cached for a pixel.
    pub open spec fn cell_at(self, px: int, py: int) -> RenderParameters {
        self.cells@[py * self.width + px]
    }

    /// An empty raster of the given dimensions, every cell zeroed.
    pub fn new(width: u32, height: u32) -> (r: RenderGrid)
        requires
            (width as int) * (height as int) <= 0x4000_0000,
        ensures
            r.width == width,
            r.height == height,
            forall|k: int|
                0 <= k < r.cells@.len() ==> #[trigger] r.cells@[k] == (RenderParameters {
                    i: 0,
                    x: Fx { raw: 0 },
                }),
            r.wf(),
    {
        let n = (width as usize) * (height as usize);
        let mut cells: Vec<RenderParameters> = Vec::new();
        let mut k: usize = 0;
        while k < n
            invariant
                cells@.len() == k,
                k <= n,
                forall|j: int|
                    0 <= j < k ==> #[trigger] cells@[j] == (RenderParameters {
                        i: 0,
                        x: Fx { raw: 0 },
                    }),
            decreases n - k,
        {
            cells.push(RenderParameters { i: 0, x: Fx { raw: 0 } });
            k = k + 1;
        }
        RenderGrid { cells, width, height }
    }

    /// Read a pixel's cached cell.
    pub fn get(&self, px: u32, py: u32) -> (r: RenderParameters)
        requires
            self.wf(),
            px < self.width,
            py < self.height,
        ensures
            r == self.cell_at(px as int, py as int),
    {
        let len = self.cells.len();
        proof {
            lemma_grid_index(self.width as int, self.height as int, px as int, py as int);
        }
        self.cells[(py as usize) * (self.width as usize) + (px as usize)]
    }

    /// Overwrite a pixel's cached cell.
    pub fn set(&mut self, px: u32, py: u32, v: RenderParameters)
        requires
            old(self).wf(),
            px < old(self).width,
            py < old(self).height,
        ensures
            final(self).wf(),
            final(self).width == old(self).width,
            final(self).height == old(self).height,
            final(self).cell_at(px as int, py as int) == v,
            forall|qx: int, qy: int|
                0 <= qx < old(self).width && 0 <= qy < old(self).height && !(qx == px && qy == py)
                    ==> final(self).cell_at(qx, qy) == old(self).cell_at(qx, qy),
    {
        let len = self.cells.len();
        proof {
            lemma_grid_index(self.width as int, self.height as int, px as int, py as int);
        }
        let idx = (py as usize) * (self.width as usize) + (px as usize);
        self.cells.set(idx, v);
        proof {
            assert forall|qx: int, qy: int|
                0 <= qx < self.width && 0 <= qy < self.height && !(qx == px && qy == py)
                    implies self.cell_at(qx, qy) == old(self).cell_at(qx, qy) by {
                lemma_grid_index(self.width as int, self.height as int, qx, qy);
                lemma_grid_index_injective(
                    self.width as int,
                    px as int,
                    py as int,
                    qx,
                    qy,
                );
            }
        }
    }
}

/// A pixel's linear index is inside the raster.
proof fn lemma_grid_index(w: int, h: int, px: int, py: int)
    requires
        0 <= px < w,
        0 <= py < h,
    ensures
        0 <= py * w + px < w * h,
{
    assert(py * w + px < w * h) by (nonlinear_arith)
        requires
            0 <= px < w,
            0 <= py < h,
    ;
    assert(0 <= py * w) by (nonlinear_arith)
        requires
            0 <= py,
            0 <= w,
    ;
}

/// Distinct pixels have distinct linear indices.
proof fn lemma_grid_index_injective(w: int, px: int, py: int, qx: int, qy: int)
    requires
        0 <= px < w,
        0 <= qx < w,
        0 <= py,
        0 <= qy,
        !(qx == px && qy == py),
    ensures
        qy * w + qx != py * w + px,
{
    if qy == py {
    } else {
        assert(qy * w + qx != py * w + px) by (nonlinear_arith)
            requires
                0 <= px < w,
                0 <= qx < w,
                qy != py,
        ;
    }
}

/// The raw fixed-point coordinate of a pixel's center.
pub open spec fn pixel_center_raw(p: int) -> int {
    p * FX_SCALE + FX_SCALE / 2
}

/// Whether a pixel belongs to the secondary (Julia) view: the screen is split
/// along its longer axis at the split fraction.
pub open spec fn pixel_is_julia_spec(cts: FragmentConstants, px: int, py: int) -> bool {
    let coord_n = if cts.size.x > cts.size.y {
        pixel_center_raw(px)
    } else {
        pixel_center_raw(py)
    };
    let size_n = if cts.size.x > cts.size.y {
        (cts.size.x as int) * FX_SCALE
    } else {
        (cts.size.y as int) * FX_SCALE
    };
    cts.render_julia_set && coord_n > fx_mul_spec(size_n, cts.render_split.raw as int)
}

/// Whether a pixel must be recomputed this frame: its owning view is dirty.
pub open spec fn pixel_dirty_spec(cts: FragmentConstants, px: int, py: int) -> bool {
    if pixel_is_julia_spec(cts, px, py) {
        cts.needs_reiterate_julia
    } else {
        cts.needs_reiterate_mandelbrot
    }
}

/// The screen offset of a pixel's center from the screen center, divided by
/// the screen height and the given zoom: the plane offset of the pixel at
/// machine precision.
pub open spec fn pixel_plane_offset_spec(cts: FragmentConstants, p: int, extent: int, zoom: int)
    -> int {
    let off = pixel_center_raw(p) - (extent * FX_SCALE) / 2;
    fx_div_spec(fx_div_spec(off, (cts.size.y as int) * FX_SCALE), zoom)
}

/// The cell a pixel reduces to this frame, per the frame's iteration mode
/// and owning view.
pub open spec fn pixel_cell_spec(
    cts: FragmentConstants,
    orbit_r: Seq<(int, int)>,
    num_ref: nat,
    px: int,
    py: int,
) -> RenderParameters {
    let er = cts.escape_radius.raw as int;
    let er_sq = fx_mul_spec(er, er);
    let cap = crate::params::fx_floor_u32(cts.num_iterations.raw as int) as nat;
    let fract = (cts.num_iterations.raw as int) % (FX_SCALE as int);
    let dc = (
        pixel_plane_offset_spec(cts, px, cts.size.x as int, cts.mandelbrot_camera_zoom.raw as int),
        pixel_plane_offset_spec(cts, py, cts.size.y as int, cts.mandelbrot_camera_zoom.raw as int),
    );
    if pixel_is_julia_spec(cts, px, py) {
        let z0 = (
            fx_add_spec(
                pixel_plane_offset_spec(
                    cts,
                    px,
                    cts.size.x as int,
                    cts.julia_camera_zoom.raw as int,
                ),
                cts.julia_camera_translate.x.raw as int,
            ),
            fx_add_spec(
                pixel_plane_offset_spec(
                    cts,
                    py,
                    cts.size.y as int,
                    cts.julia_camera_zoom.raw as int,
                ),
                cts.julia_camera_translate.y.raw as int,
            ),
        );
        let c = cts.marker.rep();
        let n = crate::kernel::reg_escape_count(z0, c, cts.exponent as nat, er_sq, cap);
        cell_spec(
            cts,
            z0,
            Seq::new(n, |k: int| crate::kernel::reg_orbit_spec(z0, c, cts.exponent as nat, (k + 1) as nat)),
            n,
            crate::kernel::reg_inside_spec(z0, c, cts.exponent as nat, er, er_sq, cap, fract),
            crate::kernel::reg_prox_spec(z0, c, cts.exponent as nat, er, er_sq, cap),
        )
    } else if cts.iteration_mode == IterationMode::Perturbation {
        let n = crate::kernel::pert_escape_count(orbit_r, dc, num_ref, er_sq, cap, 0);
        cell_spec(
            cts,
            (0int, 0int),
            Seq::new(n, |k: int| crate::kernel::pert_z_spec(orbit_r, dc, num_ref, (k + 1) as nat)),
            n,
            crate::kernel::pert_inside_spec(orbit_r, dc, num_ref, er, er_sq, cap, fract),
            crate::kernel::pert_prox_spec(orbit_r, dc, num_ref, er, er_sq, cap),
        )
    } else {
        let z0 = (0int, 0int);
        let c = (
            fx_add_spec(dc.0, cts.mandelbrot_camera_translate.x.raw as int),
            fx_add_spec(dc.1, cts.mandelbrot_camera_translate.y.raw as int),
        );
        let n = crate::kernel::reg_escape_count(z0, c, cts.exponent as nat, er_sq, cap);
        cell_spec(
            cts,
            z0,
            Seq::new(n, |k: int| crate::kernel::reg_orbit_spec(z0, c, cts.exponent as nat, (k + 1) as nat)),
            n,
            crate::kernel::reg_inside_spec(z0, c, cts.exponent as nat, er, er_sq, cap, fract),
            crate::kernel::reg_prox_spec(z0, c, cts.exponent as nat, er, er_sq, cap),
        )
    }
}

/// The plane offset of one pixel coordinate at machine precision.
fn pixel_plane_offset(cts: &FragmentConstants, p: u32, extent: u32, zoom: Fx) -> (r: Fx)
    requires
        cts.wf(),
        p < extent,
        extent <= crate::params::GRID_WIDTH,
        0 < zoom.raw,
        zoom.wf(),
    ensures
        r.raw == pixel_plane_offset_spec(*cts, p as int, extent as int, zoom.raw as int),
        r.wf(),
{
    let center = Fx { raw: (p as i128) * FX_SCALE + FX_SCALE / 2 };
    let half = Fx { raw: ((extent as i128) * FX_SCALE) / 2 };
    let off = center.sub(half);
    let t = off.div(Fx { raw: (cts.size.y as i128) * FX_SCALE });
    proof {
        let oi = off.raw as int;
        let syi = (cts.size.y as int) * FX_SCALE;
        assert(crate::fx::iabs(t.raw as int) <= crate::fx::iabs(oi)) by {
            lemma_div_shrinks(oi, syi);
        }
    }
    t.div(zoom)
}

/// Dividing by a scale of at least one whole unit does not grow a value.
proof fn lemma_div_shrinks(a: int, d: int)
    requires
        d >= FX_SCALE,
    ensures
        crate::fx::iabs(fx_div_spec(a, d)) <= crate::fx::iabs(a),
{
    let m = crate::fx::iabs(a);
    assert(0 <= m * FX_SCALE <= m * d) by (nonlinear_arith)
        requires
            0 <= m,
            FX_SCALE <= d,
    ;
    vstd::arithmetic::div_mod::lemma_div_is_ordered(m * FX_SCALE, m * d, d);
    vstd::arithmetic::div_mod::lemma_div_by_multiple(m, d);
    assert(m * d == d * m) by (nonlinear_arith);
    assert(0 <= (m * FX_SCALE) / d) by (nonlinear_arith)
        requires
            0 <= m * FX_SCALE,
            d > 0,
    ;
    let q = (m * FX_SCALE) / d;
    assert(fx_div_spec(a, d) == if a < 0 {
        crate::fx::fx_clip(-q)
    } else {
        crate::fx::fx_clip(q)
    });
    assert(crate::fx::iabs(crate::fx::fx_clip(-q)) <= q);
    assert(crate::fx::iabs(crate::fx::fx_clip(q)) <= q);
}

/// Whether the pixel belongs to the Julia view this frame.
fn pixel_is_julia(cts: &FragmentConstants, px: u32, py: u32) -> (r: bool)
    requires
        cts.wf(),
        px < cts.size.x,
        py < cts.size.y,
    ensures
        r == pixel_is_julia_spec(*cts, px as int, py as int),
{
    if !cts.render_julia_set {
        return false;
    }
    let coord_n: Fx = if cts.size.x > cts.size.y {
        Fx { raw: (px as i128) * FX_SCALE + FX_SCALE / 2 }
    } else {
        Fx { raw: (py as i128) * FX_SCALE + FX_SCALE / 2 }
    };
    let size_n: Fx = if cts.size.x > cts.size.y {
        Fx { raw: (cts.size.x as i128) * FX_SCALE }
    } else {
        Fx { raw: (cts.size.y as i128) * FX_SCALE }
    };
    let bound = size_n.mul(cts.render_split);
    coord_n.raw > bound.raw
}

/// Compute one pixel's cell from scratch.
fn compute_cell(cts: &FragmentConstants, orbit: &ReferenceOrbit, px: u32, py: u32) -> (r:
    RenderParameters)
    requires
        cts.wf(),
        orbit.wf(),
        px < cts.size.x,
        py < cts.size.y,
        cts.iteration_mode == IterationMode::Perturbation ==> 1 <= orbit.num_ref_iterations,
    ensures
        r == pixel_cell_spec(
            *cts,
            seq_reps(orbit.points@),
            orbit.num_ref_iterations as nat,
            px as int,
            py as int,
        ),
{
    let ghost p = cts.exponent as nat;
    let is_julia = pixel_is_julia(cts, px, py);
    if is_julia {
        let zx = pixel_plane_offset(cts, px, cts.size.x, cts.julia_camera_zoom);
        let zy = pixel_plane_offset(cts, py, cts.size.y, cts.julia_camera_zoom);
        let z0 = FxComplex {
            x: zx.add(cts.julia_camera_translate.x),
            y: zy.add(cts.julia_camera_translate.y),
        };
        let trace = iterate_regular(z0, cts.marker, cts);
        let r = get_render_parameters(cts, z0, &trace);
        proof {
            let cs = cts.marker.rep();
            let n = trace.count as nat;
            assert(seq_reps(trace.zs@) =~= Seq::new(
                n,
                |k: int| crate::kernel::reg_orbit_spec(z0.rep(), cs, p, (k + 1) as nat),
            ));
        }
        r
    } else {
        let dcx = pixel_plane_offset(cts, px, cts.size.x, cts.mandelbrot_camera_zoom);
        let dcy = pixel_plane_offset(cts, py, cts.size.y, cts.mandelbrot_camera_zoom);
        let dc = FxComplex { x: dcx, y: dcy };
        if matches!(cts.iteration_mode, IterationMode::Perturbation) {
            let z0 = FxComplex::zero();
            let trace = iterate_perturbed(dc, &orbit.points, orbit.num_ref_iterations, cts);
            let r = get_render_parameters(cts, z0, &trace);
            proof {
                let orbit_r = seq_reps(orbit.points@);
                let nr = orbit.num_ref_iterations as nat;
                let n = trace.count as nat;
                assert(seq_reps(trace.zs@) =~= Seq::new(
                    n,
                    |k: int| crate::kernel::pert_z_spec(orbit_r, dc.rep(), nr, (k + 1) as nat),
                ));
            }
            r
        } else {
            let z0 = FxComplex::zero();
            let c = FxComplex {
                x: dcx.add(cts.mandelbrot_camera_translate.x),
                y: dcy.add(cts.mandelbrot_camera_translate.y),
            };
            let trace = iterate_regular(z0, c, cts);
            let r = get_render_parameters(cts, z0, &trace);
            proof {
                let n = trace.count as nat;
                assert(seq_reps(trace.zs@) =~= Seq::new(
                    n,
                    |k: int| crate::kernel::reg_orbit_spec(z0.rep(), c.rep(), p, (k + 1) as nat),
                ));
            }
            r
        }
    }
}

/// Run one frame's render pass over the whole raster: recompute exactly the
/// pixels owned by a dirty view, leave every other cell untouched, and count
/// the recomputes. With no dirty flags raised, nothing is recomputed and the
/// cache is read as is.
#[verifier::loop_isolation(false)]
pub fn render_frame(grid: &mut RenderGrid, cts: &FragmentConstants, orbit: &ReferenceOrbit) -> (recomputes: u64)
    requires
        old(grid).wf(),
        old(grid).width == cts.size.x,
        old(grid).height == cts.size.y,
        cts.wf(),
        orbit.wf(),
        cts.iteration_mode == IterationMode::Perturbation ==> 1 <= orbit.num_ref_iterations,
    ensures
        final(grid).wf(),
        final(grid).width == old(grid).width,
        final(grid).height == old(grid).height,
        forall|px: int, py: int|
            0 <= px < old(grid).width && 0 <= py < old(grid).height ==> final(grid).cell_at(
                px,
                py,
            ) == if pixel_dirty_spec(*cts, px, py) {
                pixel_cell_spec(
                    *cts,
                    seq_reps(orbit.points@),
                    orbit.num_ref_iterations as nat,
                    px,
                    py,
                )
            } else {
                old(grid).cell_at(px, py)
            },
        !cts.needs_reiterate_mandelbrot && !cts.needs_reiterate_julia ==> recomputes == 0
            && final(grid).cells@ == old(grid).cells@,
{
    let mut recomputes: u64 = 0;
    let mut py: u32 = 0;
    while py < grid.height
        invariant
            py <= grid.height,
            grid.wf(),
            grid.width == old(grid).width,
            grid.height == old(grid).height,
            forall|qx: int, qy: int|
                0 <= qx < grid.width && 0 <= qy < grid.height && qy < py ==> grid.cell_at(qx, qy)
                    == if pixel_dirty_spec(*cts, qx, qy) {
                    pixel_cell_spec(
                        *cts,
                        seq_reps(orbit.points@),
                        orbit.num_ref_iterations as nat,
                        qx,
                        qy,
                    )
                } else {
                    old(grid).cell_at(qx, qy)
                },
            forall|qx: int, qy: int|
                0 <= qx < grid.width && py <= qy < grid.height ==> grid.cell_at(qx, qy) == old(
                    grid,
                ).cell_at(qx, qy),
            !cts.needs_reiterate_mandelbrot && !cts.needs_reiterate_julia ==> recomputes == 0
                && grid.cells@ == old(grid).cells@,
            recomputes <= (py as int) * (grid.width as int),
        decreases grid.height - py,
    {
        let mut px: u32 = 0;
        while px < grid.width
            invariant
                px <= grid.width,
                py < grid.height,
                grid.wf(),
                grid.width == old(grid).width,
                grid.height == old(grid).height,
                forall|qx: int, qy: int|
                    0 <= qx < grid.width && 0 <= qy < grid.height && (qy < py || (qy == py && qx
                        < px)) ==> grid.cell_at(qx, qy) == if pixel_dirty_spec(*cts, qx, qy) {
                        pixel_cell_spec(
                            *cts,
                            seq_reps(orbit.points@),
                            orbit.num_ref_iterations as nat,
                            qx,
                            qy,
                        )
                    } else {
                        old(grid).cell_at(qx, qy)
                    },
                forall|qx: int, qy: int|
                    0 <= qx < grid.width && 0 <= qy < grid.height && (qy > py || (qy == py && qx
                        >= px)) ==> grid.cell_at(qx, qy) == old(grid).cell_at(qx, qy),
                !cts.needs_reiterate_mandelbrot && !cts.needs_reiterate_julia ==> recomputes == 0
                    && grid.cells@ == old(grid).cells@,
                recomputes <= (py as int) * (grid.width as int) + px,
            decreases grid.width - px,
        {
            let is_julia = pixel_is_julia(cts, px, py);
            let dirty = if is_julia {
                cts.needs_reiterate_julia
            } else {
                cts.needs_reiterate_mandelbrot
            };
            if dirty {
                let cell = compute_cell(cts, orbit, px, py);
                grid.set(px, py, cell);
                proof {
                    lemma_grid_index(
                        grid.width as int,
                        grid.height as int,
                        px as int,
                        py as int,
                    );
                    assert((grid.width as int) * (grid.height as int) < 0x1_0000_0000_0000_0000)
                        by (nonlinear_arith)
                        requires
                            grid.width <= u32::MAX,
                            grid.height <= u32::MAX,
                    ;
                    assert((py as int) * (grid.width as int) + px < (grid.width as int) * (
                    grid.height as int));
                }
                recomputes = recomputes + 1;
            }
            px = px + 1;
        }
        proof {
            assert((py as int + 1) * (grid.width as int) == (py as int) * (grid.width as int) + (
            grid.width as int)) by (nonlinear_arith);
        }
        py = py + 1;
    }
    recomputes
}

} // verus!
