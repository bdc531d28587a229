use fractal_explorer::cache::{render_frame, RenderGrid};
use fractal_explorer::complex::FxComplex;
use fractal_explorer::controller::{Controller, Options};
use fractal_explorer::fx::Fx;
use fractal_explorer::orbit::ReferenceOrbit;
use fractal_explorer::params::Size;

fn trivial_orbit() -> ReferenceOrbit {
    ReferenceOrbit { points: vec![FxComplex::zero()], num_ref_iterations: 0 }
}

#[test]
fn first_frame_recomputes_every_pixel() {
    let mut c = Controller::new(&Options { debug: false });
    c.resize(Size { x: 8, y: 6 });
    let fc = c.prepare_render(Fx { raw: 0 }, Fx { raw: 0 });
    assert!(fc.needs_reiterate_mandelbrot);
    let mut grid = RenderGrid::new(8, 6);
    let orbit = trivial_orbit();
    let recomputes = render_frame(&mut grid, &fc, &orbit);
    assert_eq!(recomputes, 48);
}

#[test]
fn clean_frame_reads_the_cache_unchanged() {
    let mut c = Controller::new(&Options { debug: false });
    c.resize(Size { x: 8, y: 6 });
    let orbit = trivial_orbit();
    let mut grid = RenderGrid::new(8, 6);
    // first frame: flags are raised, everything is computed
    let fc1 = c.prepare_render(Fx { raw: 0 }, Fx { raw: 0 });
    let _ = render_frame(&mut grid, &fc1, &orbit);
    let snapshot = grid.cells.clone();
    // second frame with identical parameters: no dirty flags, no recomputes,
    // every cell read unchanged
    let fc2 = c.prepare_render(Fx { raw: 0 }, Fx { raw: 0 });
    assert!(!fc2.needs_reiterate_mandelbrot);
    assert!(!fc2.needs_reiterate_julia);
    let recomputes = render_frame(&mut grid, &fc2, &orbit);
    assert_eq!(recomputes, 0);
    assert_eq!(grid.cells, snapshot);
}

#[test]
fn camera_mutation_dirties_the_view_again() {
    let mut c = Controller::new(&Options { debug: false });
    c.resize(Size { x: 4, y: 4 });
    let orbit = trivial_orbit();
    let mut grid = RenderGrid::new(4, 4);
    let fc1 = c.prepare_render(Fx { raw: 0 }, Fx { raw: 0 });
    let _ = render_frame(&mut grid, &fc1, &orbit);
    // a wheel zoom raises the primary view's flag again
    c.mouse_scroll(FxComplex::new(Fx { raw: 0 }, Fx::from_i64(1)));
    let fc2 = c.prepare_render(Fx { raw: 0 }, Fx { raw: 0 });
    assert!(fc2.needs_reiterate_mandelbrot);
    let recomputes = render_frame(&mut grid, &fc2, &orbit);
    assert_eq!(recomputes, 16);
}
