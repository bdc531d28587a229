use fractal_explorer::complex::FxComplex;
use fractal_explorer::controller::{Controller, Key, KeyEvent, KeyState, Options};
use fractal_explorer::fx::{Fx, FX_SCALE};
use fractal_explorer::kernel::iterate_regular;
use fractal_explorer::marker::compute_marker_orbit;
use fractal_explorer::params::{
    FragmentConstants, IterationMode, Palette, RenderPartitioning, RenderParameters, RenderStyle,
    Size,
};
use fractal_explorer::iterations::{NumIterations, NumIterationsMode};
use fractal_explorer::styles::{atan2_fx, get_render_parameters, QUARTER_PI_RAW};

fn fxc(x: i64, y: i64) -> FxComplex {
    FxComplex::new(Fx::from_i64(x), Fx::from_i64(y))
}

fn constants_for_styles(style: RenderStyle, partitioning: RenderPartitioning) -> FragmentConstants {
    FragmentConstants {
        size: Size { x: 8, y: 8 },
        time: Fx { raw: 0 },
        mandelbrot_camera_translate: FxComplex::zero(),
        mandelbrot_camera_zoom: Fx::from_i64(1),
        julia_camera_translate: FxComplex::zero(),
        julia_camera_zoom: Fx::from_i64(1),
        num_iterations: Fx::from_i64(10),
        show_iterations: false,
        num_points: 0,
        marker: FxComplex::zero(),
        marker_screen_space: FxComplex::zero(),
        render_julia_set: false,
        render_split: Fx { raw: FX_SCALE / 2 },
        palette: Palette::Pastel,
        smooth_factor: Fx { raw: 0 },
        animate_time: Fx { raw: 0 },
        palette_period: Fx { raw: FX_SCALE / 2 },
        render_style: style,
        mandelbrot_num_ref_iterations: 0,
        needs_reiterate_mandelbrot: true,
        needs_reiterate_julia: true,
        iteration_mode: IterationMode::Regular,
        render_partitioning: partitioning,
        exponent: 2,
        escape_radius: Fx::from_i64(2),
    }
}

#[test]
fn atan2_is_exact_on_the_axes() {
    let z = Fx { raw: 0 };
    let one = Fx::from_i64(1);
    assert_eq!(atan2_fx(z, one).raw, 0);
    assert_eq!(atan2_fx(one, one).raw, QUARTER_PI_RAW);
    let r = atan2_fx(one, z);
    assert_eq!(r.raw, fractal_explorer::styles::HALF_PI_RAW);
    assert_eq!(atan2_fx(z.sub(one), z).raw, -fractal_explorer::styles::HALF_PI_RAW);
    assert_eq!(atan2_fx(z, z.sub(one)).raw, fractal_explorer::styles::PI_RAW);
    assert_eq!(atan2_fx(z, z).raw, 0);
}

#[test]
fn marker_orbit_escapes_with_stats() {
    // marker at (1, 1): escapes when the norm first reaches 2, at step 2
    let (points, stats) = compute_marker_orbit(fxc(1, 1), 10, 2, Fx::from_i64(2));
    assert_eq!(stats.count, 2);
    assert!(points.len() >= 3);
    assert_eq!(points[0].x.raw, 0);
    assert_eq!(points[1].x.raw, FX_SCALE);
    assert_eq!(points[1].y.raw, FX_SCALE);
    assert_eq!(points[2].x.raw, FX_SCALE);
    assert_eq!(points[2].y.raw, 3 * FX_SCALE);
    // |z2| = sqrt(10), recorded exactly on the fixed-point grid
    let ten = Fx::from_i64(10);
    assert_eq!(stats.final_norm.raw, ten.sqrt().raw);
    assert!(stats.proximity.raw >= 0 && stats.proximity.raw <= FX_SCALE);
    assert!(stats.distance_sum.raw > 0);
    assert!(stats.norm_sum.raw > 0);
}

#[test]
fn marker_orbit_inside_runs_to_cap() {
    let (points, stats) = compute_marker_orbit(fxc(0, 0), 8, 2, Fx::from_i64(2));
    assert_eq!(stats.count, 8);
    assert_eq!(points.len(), 9);
    assert_eq!(stats.final_norm.raw, 0);
}

#[test]
fn iterations_style_reduces_to_the_count() {
    let cts = constants_for_styles(RenderStyle::Iterations, RenderPartitioning::Both);
    let t = iterate_regular(FxComplex::zero(), fxc(1, 1), &cts);
    let cell = get_render_parameters(&cts, FxComplex::zero(), &t);
    assert_eq!(cell.i, 2);
    // smoothing factor 0 with coinciding smoothstep edges resolves to one
    // full step: the value is the next iteration count
    assert_eq!(cell.x.raw, 3 * FX_SCALE);
}

#[test]
fn outside_partitioning_suppresses_inside_pixels() {
    let cts = constants_for_styles(RenderStyle::Iterations, RenderPartitioning::Outside);
    let t = iterate_regular(FxComplex::zero(), FxComplex::zero(), &cts);
    assert!(t.inside);
    let cell = get_render_parameters(&cts, FxComplex::zero(), &t);
    assert_eq!(cell.i, u32::MAX);
}

#[test]
fn inside_partitioning_suppresses_outside_pixels() {
    let cts = constants_for_styles(RenderStyle::Iterations, RenderPartitioning::Inside);
    let t = iterate_regular(FxComplex::zero(), fxc(1, 1), &cts);
    assert!(!t.inside);
    let cell = get_render_parameters(&cts, FxComplex::zero(), &t);
    assert_eq!(cell.i, u32::MAX);
}

#[test]
fn norm_sum_style_accumulates_norms() {
    let cts = constants_for_styles(RenderStyle::NormSum, RenderPartitioning::Both);
    let t = iterate_regular(FxComplex::zero(), fxc(1, 1), &cts);
    let cell = get_render_parameters(&cts, FxComplex::zero(), &t);
    // the final value is |z1| + |z2| = sqrt(2) + sqrt(10)
    let expected = Fx::from_i64(2).sqrt().add(Fx::from_i64(10).sqrt());
    assert_eq!(cell.x.raw, expected.raw);
}

#[test]
fn default_cell_values() {
    let d = RenderParameters { i: 0, x: Fx { raw: 0 } };
    assert_eq!(d.i, 0);
    assert_eq!(d.x.raw, 0);
}

#[test]
fn keyboard_drift_zooms_and_clamps() {
    let mut c = Controller::new(&Options { debug: false });
    c.resize(Size { x: 800, y: 600 });
    c.keyboard_input_impl(KeyEvent { logical_key: Key::Character('z'), state: KeyState::Pressed });
    assert!(c.delta_params.zoom.raw > FX_SCALE);
    let before = c.cameras.mandelbrot.zoom.copy_val();
    c.handle_param_deltas(Fx { raw: FX_SCALE / 10 });
    assert!(before.lt(&c.cameras.mandelbrot.zoom));
    c.keyboard_input_impl(KeyEvent { logical_key: Key::Character('z'), state: KeyState::Released });
    assert_eq!(c.delta_params.zoom.raw, 0);
}

#[test]
fn iteration_budget_steps_whole_iterations() {
    let mut ni = NumIterations { n: Fx { raw: 5 * FX_SCALE / 2 }, mode: NumIterationsMode::Fixed };
    let zoom = fractal_explorer::bigreal::BigReal::from_fx(Fx::from_i64(4));
    ni.next_whole_iteration(&zoom);
    assert_eq!(ni.n.raw, 3 * FX_SCALE);
    ni.prev_whole_iteration(&zoom);
    assert_eq!(ni.n.raw, 2 * FX_SCALE);
    ni.toggle_mode(&zoom);
    assert!(matches!(ni.mode, NumIterationsMode::Additional));
}
