use fractal_explorer::bigreal::BigReal;
use fractal_explorer::camera::{plane_offset, PRECISION};
use fractal_explorer::complex::FxComplex;
use fractal_explorer::controller::{Controller, Options};
use fractal_explorer::fx::{Fx, FX_SCALE};
use fractal_explorer::iterations::MAX_ITER_POINTS;
use fractal_explorer::params::Size;

fn fxc(x: i64, y: i64) -> FxComplex {
    FxComplex::new(Fx::from_i64(x), Fx::from_i64(y))
}

#[test]
fn big_and_machine_mappings_agree_on_representable_points() {
    // the arbitrary-precision screen-to-plane offset, downcast to machine
    // precision, agrees with the machine-precision division chain to within
    // a few units of the fixed-point grid
    let zoom = BigReal::from_fx(Fx::from_i64(4)).align(64);
    let offsets: [(i64, i64); 4] = [(128, -96), (7, 5), (-640, 480), (1, 1)];
    for (ox, oy) in offsets {
        let off = fxc(ox, oy);
        let big = plane_offset(off, &zoom, 600);
        let down = big.as_fx2();
        let sy = Fx::from_i64(600);
        let zm = Fx::from_i64(4);
        let mx = off.x.div(sy).div(zm);
        let my = off.y.div(sy).div(zm);
        assert!((down.x.raw - mx.raw).abs() <= 2, "x mapping diverged at ({ox},{oy})");
        assert!((down.y.raw - my.raw).abs() <= 2, "y mapping diverged at ({ox},{oy})");
    }
    // and the big mapping keeps full precision
    assert_eq!(plane_offset(fxc(3, 0), &zoom, 600).precision(), PRECISION);
}

#[test]
fn iteration_caps_cover_the_maximum_zoom() {
    // the configured sample cap suffices for the iteration budget at the
    // deepest configured zoom
    let mut c = Controller::new(&Options { debug: false });
    c.resize(Size { x: 800, y: 600 });
    c.mouse_move(fxc(400, 300));
    // drive the zoom to its ceiling
    for _ in 0..4000 {
        c.mouse_scroll(fxc(0, 9));
    }
    assert!(!c.max_zoom_mandelbrot.lt(&c.cameras.mandelbrot.zoom));
    let budget = c.calculate_num_iterations();
    assert!(budget.raw <= (MAX_ITER_POINTS as i128) * FX_SCALE);
}

#[test]
fn reference_orbit_feeds_the_frame_after_deep_zoom() {
    let mut c = Controller::new(&Options { debug: false });
    c.resize(Size { x: 16, y: 12 });
    c.mouse_move(fxc(8, 6));
    for _ in 0..20 {
        c.mouse_scroll(fxc(0, 5));
    }
    c.ui_impl(Fx { raw: FX_SCALE / 60 });
    // deep zoom at the default exponent selects perturbation and rebuilds
    // the reference orbit
    if matches!(
        c.iteration_mode,
        fractal_explorer::params::IterationMode::Perturbation
    ) {
        assert!(c.mandelbrot_reference.num_ref_iterations >= 1);
        assert_eq!(
            c.mandelbrot_reference.points.len() as u32,
            c.mandelbrot_reference.num_ref_iterations + 1
        );
    }
}

#[test]
fn screen_and_plane_mappings_invert_each_other() {
    // forward to the plane and back to the screen lands within a pixel
    let mut c = Controller::new(&Options { debug: false });
    c.resize(Size { x: 800, y: 600 });
    let samples: [(i64, i64); 3] = [(400, 300), (13, 571), (799, 1)];
    for (px, py) in samples {
        let p = fxc(px, py);
        let plane = c.to_uv_space_big(p);
        let back = c.to_screen_space_big(&plane);
        assert!((back.x.raw - p.x.raw).abs() <= FX_SCALE, "x round trip drifted at ({px},{py})");
        assert!((back.y.raw - p.y.raw).abs() <= FX_SCALE, "y round trip drifted at ({px},{py})");
    }
}
