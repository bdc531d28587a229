use fractal_explorer::camera::min_zoom;
use fractal_explorer::complex::FxComplex;
use fractal_explorer::controller::{ButtonState, Controller, MouseButton, Options, TouchPhase};
use fractal_explorer::fx::{Fx, FX_SCALE};
use fractal_explorer::params::Size;

fn pos(x: i64, y: i64) -> FxComplex {
    FxComplex::new(Fx::from_i64(x), Fx::from_i64(y))
}

fn assert_zooms_in_range(c: &Controller) {
    let lo = min_zoom();
    assert!(
        !c.cameras.mandelbrot.zoom.lt(&lo),
        "primary zoom fell below the minimum"
    );
    assert!(
        !c.max_zoom_mandelbrot.lt(&c.cameras.mandelbrot.zoom),
        "primary zoom exceeded its maximum"
    );
    assert!(!c.cameras.julia.zoom.lt(&lo), "secondary zoom fell below the minimum");
    assert!(
        !c.max_zoom_julia.lt(&c.cameras.julia.zoom),
        "secondary zoom exceeded its maximum"
    );
}

#[test]
fn zoom_stays_clamped_across_scroll_sequences() {
    let mut c = Controller::new(&Options { debug: false });
    c.resize(Size { x: 800, y: 600 });
    c.mouse_move(pos(400, 300));
    assert_zooms_in_range(&c);
    // zoom out hard: must clamp at the minimum
    for _ in 0..200 {
        c.mouse_scroll(pos(0, -9));
        assert_zooms_in_range(&c);
    }
    // zoom in hard: must clamp at the maximum
    for _ in 0..4000 {
        c.mouse_scroll(pos(0, 9));
        assert_zooms_in_range(&c);
    }
}

#[test]
fn zoom_stays_clamped_across_pinch_sequences() {
    let mut c = Controller::new(&Options { debug: false });
    c.resize(Size { x: 800, y: 600 });
    c.touch_impl(1, TouchPhase::Started, pos(300, 300), 0);
    c.touch_impl(2, TouchPhase::Started, pos(500, 300), 0);
    for k in 0..50 {
        c.touch_impl(2, TouchPhase::Moved, pos(500 + 4 * k, 300), 10 + k as u64);
        assert_zooms_in_range(&c);
    }
    for k in 0..50 {
        c.touch_impl(2, TouchPhase::Moved, pos(700 - 12 * k, 300), 100 + k as u64);
        assert_zooms_in_range(&c);
    }
    c.touch_impl(1, TouchPhase::Ended, pos(300, 300), 500);
    c.touch_impl(2, TouchPhase::Ended, pos(100, 300), 500);
    assert_zooms_in_range(&c);
}

#[test]
fn wheel_zoom_keeps_the_point_under_the_cursor() {
    let mut c = Controller::new(&Options { debug: false });
    c.resize(Size { x: 800, y: 600 });
    c.mouse_move(pos(123, 456));
    let before = c.to_uv_space_big(c.cursor);
    c.mouse_scroll(pos(0, 3));
    let after = c.to_uv_space_big(c.cursor);
    let dx = after.x.sub(&before.x);
    let dy = after.y.sub(&before.y);
    assert!(dx.is_zero(), "plane point moved along x under the cursor");
    assert!(dy.is_zero(), "plane point moved along y under the cursor");
}

#[test]
fn wheel_zoom_out_also_keeps_the_anchor() {
    let mut c = Controller::new(&Options { debug: false });
    c.resize(Size { x: 640, y: 480 });
    c.mouse_move(pos(17, 401));
    for _ in 0..5 {
        let before = c.to_uv_space_big(c.cursor);
        c.mouse_scroll(pos(0, -2));
        let after = c.to_uv_space_big(c.cursor);
        assert!(after.x.sub(&before.x).is_zero());
        assert!(after.y.sub(&before.y).is_zero());
    }
}

#[test]
fn panning_moves_the_translate() {
    let mut c = Controller::new(&Options { debug: false });
    c.resize(Size { x: 800, y: 600 });
    c.mouse_move(pos(400, 300));
    let before = c.cameras.mandelbrot.translate.copy_val();
    // press, drag, release
    c.mouse_input(ButtonState::Pressed, MouseButton::Left);
    c.mouse_move(pos(500, 300));
    c.mouse_input(ButtonState::Released, MouseButton::Left);
    let after = c.cameras.mandelbrot.translate.copy_val();
    // dragging right moves the view left: translate.x decreases
    assert!(after.x.lt(&before.x));
    assert!(after.y.sub(&before.y).is_zero());
    assert!(c.cameras.mandelbrot.needs_reiterate);
}

#[test]
fn touch_lifecycle_tracks_and_releases() {
    let mut c = Controller::new(&Options { debug: false });
    c.resize(Size { x: 800, y: 600 });
    c.touch_impl(7, TouchPhase::Started, pos(100, 100), 0);
    assert_eq!(c.touches.len(), 1);
    c.touch_impl(7, TouchPhase::Moved, pos(120, 100), 50);
    assert_eq!(c.touches.len(), 1);
    c.touch_impl(7, TouchPhase::Ended, pos(120, 100), 60);
    assert_eq!(c.touches.len(), 0);
    assert!(c.context_menu.is_none());
    // a long, stationary touch opens the context menu
    c.touch_impl(8, TouchPhase::Started, pos(200, 200), 1000);
    c.touch_impl(8, TouchPhase::Ended, pos(200, 200), 2000);
    assert!(c.context_menu.is_some());
}

#[test]
fn mouse_buttons_track_a_mask() {
    let mut c = Controller::new(&Options { debug: false });
    c.resize(Size { x: 100, y: 100 });
    c.mouse_input(ButtonState::Pressed, MouseButton::Left);
    assert_eq!(c.mouse_button_pressed, 1);
    c.mouse_input(ButtonState::Pressed, MouseButton::Right);
    assert_eq!(c.mouse_button_pressed, 1 | 4);
    c.mouse_input(ButtonState::Released, MouseButton::Left);
    assert_eq!(c.mouse_button_pressed, 4);
    assert!(c.context_menu.is_some());
}
