use fractal_explorer::bigreal::BigReal;
use fractal_explorer::complex::{Complex, FxComplex};
use fractal_explorer::fx::{Fx, FX_SCALE};
use fractal_explorer::kernel::{iterate_perturbed, iterate_regular};
use fractal_explorer::orbit::compute_reference_orbit;
use fractal_explorer::params::{
    FragmentConstants, IterationMode, Palette, RenderPartitioning, RenderStyle, Size,
};

fn constants_for_kernel(num_iterations: i64, escape_radius: i64) -> FragmentConstants {
    FragmentConstants {
        size: Size { x: 8, y: 8 },
        time: Fx { raw: 0 },
        mandelbrot_camera_translate: FxComplex::zero(),
        mandelbrot_camera_zoom: Fx::from_i64(1),
        julia_camera_translate: FxComplex::zero(),
        julia_camera_zoom: Fx::from_i64(1),
        num_iterations: Fx::from_i64(num_iterations),
        show_iterations: false,
        num_points: 0,
        marker: FxComplex::zero(),
        marker_screen_space: FxComplex::zero(),
        render_julia_set: false,
        render_split: Fx { raw: FX_SCALE / 2 },
        palette: Palette::Pastel,
        smooth_factor: Fx { raw: FX_SCALE },
        animate_time: Fx { raw: 0 },
        palette_period: Fx { raw: FX_SCALE / 2 },
        render_style: RenderStyle::Iterations,
        mandelbrot_num_ref_iterations: 0,
        needs_reiterate_mandelbrot: true,
        needs_reiterate_julia: true,
        iteration_mode: IterationMode::Regular,
        render_partitioning: RenderPartitioning::Both,
        exponent: 2,
        escape_radius: Fx::from_i64(escape_radius),
    }
}

fn fxc(x: i64, y: i64) -> FxComplex {
    FxComplex::new(Fx::from_i64(x), Fx::from_i64(y))
}

#[test]
fn escape_case_one_one() {
    // c = (1, 1): z1 = (1, 1), z2 = (1, 3), |z2|^2 = 10 >= 4 -> escapes at 2
    let cts = constants_for_kernel(10, 2);
    let t = iterate_regular(FxComplex::zero(), fxc(1, 1), &cts);
    assert_eq!(t.count, 2);
    assert!(!t.inside);
    assert_eq!(t.zs[0].x.raw, FX_SCALE);
    assert_eq!(t.zs[0].y.raw, FX_SCALE);
    assert_eq!(t.zs[1].x.raw, FX_SCALE);
    assert_eq!(t.zs[1].y.raw, 3 * FX_SCALE);
    assert_eq!(t.zs[1].norm_squared().raw, 10 * FX_SCALE);
}

#[test]
fn reference_orbit_case_minus_three_quarters_never_escapes() {
    // c = (-0.75, 0), escape radius 2, 100-iteration cap: the orbit stays
    // inside the escape circle
    let c = Complex::new(
        BigReal::from_fx(Fx { raw: -3 * (FX_SCALE / 4) }),
        BigReal::from_fx(Fx { raw: 0 }),
    )
    .with_precision(192);
    let orbit = compute_reference_orbit(&c, Fx::from_i64(2), 100, 192);
    assert_eq!(orbit.num_ref_iterations, 100);
    assert_eq!(orbit.points.len(), 101);
    for p in &orbit.points {
        assert!(p.norm_squared().raw < 4 * FX_SCALE);
    }
}

#[test]
fn reference_orbit_case_one_one_escapes_at_two() {
    let c = Complex::new(
        BigReal::from_fx(Fx::from_i64(1)),
        BigReal::from_fx(Fx::from_i64(1)),
    )
    .with_precision(192);
    let orbit = compute_reference_orbit(&c, Fx::from_i64(2), 10, 192);
    assert_eq!(orbit.num_ref_iterations, 2);
    assert_eq!(orbit.points[1].x.raw, FX_SCALE);
    assert_eq!(orbit.points[1].y.raw, FX_SCALE);
    assert_eq!(orbit.points[2].x.raw, FX_SCALE);
    assert_eq!(orbit.points[2].y.raw, 3 * FX_SCALE);
}

#[test]
fn zero_offset_perturbation_reproduces_the_reference() {
    // reference centered at c = (-0.75, 0); a pixel with dc = 0 must walk the
    // reference samples exactly
    let c = Complex::new(
        BigReal::from_fx(Fx { raw: -3 * (FX_SCALE / 4) }),
        BigReal::from_fx(Fx { raw: 0 }),
    )
    .with_precision(192);
    let cts = constants_for_kernel(40, 2);
    let orbit = compute_reference_orbit(&c, cts.escape_radius, 40, 192);
    let t = iterate_perturbed(
        FxComplex::zero(),
        &orbit.points,
        orbit.num_ref_iterations,
        &cts,
    );
    let upto = (t.count as usize).min(orbit.num_ref_iterations as usize - 1);
    for k in 0..upto {
        assert_eq!(t.zs[k].x.raw, orbit.points[k + 1].x.raw);
        assert_eq!(t.zs[k].y.raw, orbit.points[k + 1].y.raw);
    }
}

#[test]
fn escape_time_agrees_between_kernels() {
    // reference orbit built from the machine-precision iterates themselves:
    // the perturbation kernel with dc = 0 must report the same escape count
    // as direct iteration
    let samples: [(i64, i64); 4] = [(1, 1), (0, 1), (-1, 0), (1, 0)];
    for (cx, cy) in samples {
        let cts = constants_for_kernel(25, 2);
        let c = fxc(cx, cy);
        let direct = iterate_regular(FxComplex::zero(), c, &cts);
        // record the direct orbit (seed plus iterates plus one safety sample)
        let mut points = vec![FxComplex::zero()];
        points.extend_from_slice(&direct.zs);
        let mut z = if let Some(last) = direct.zs.last() { *last } else { FxComplex::zero() };
        z = z.square().add(c);
        points.push(z);
        let num_ref = (points.len() - 1) as u32;
        let pert = iterate_perturbed(FxComplex::zero(), &points, num_ref, &cts);
        assert_eq!(pert.count, direct.count, "escape time differs at c=({cx},{cy})");
    }
}

#[test]
fn inside_flag_set_at_cap() {
    // c = 0 never escapes
    let cts = constants_for_kernel(10, 2);
    let t = iterate_regular(FxComplex::zero(), FxComplex::zero(), &cts);
    assert_eq!(t.count, 10);
    assert!(t.inside);
}

#[test]
fn cpow_matches_square_for_exponent_two() {
    let z = fxc(2, 1);
    let a = z.square();
    let b = z.cpow(2);
    assert_eq!(a.x.raw, b.x.raw);
    assert_eq!(a.y.raw, b.y.raw);
    // cube: (2 + i)^3 = 2 + 11i
    let c = z.cpow(3);
    assert_eq!(c.x.raw, 2 * FX_SCALE);
    assert_eq!(c.y.raw, 11 * FX_SCALE);
}
