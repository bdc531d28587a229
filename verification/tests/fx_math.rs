use fractal_explorer::fx::{Fx, FX_MAX_RAW, FX_SCALE};
use fractal_explorer::proximity::{get_proximity, lerp, smoothstep};

fn fx(v: i64) -> Fx {
    Fx::from_i64(v)
}

#[test]
fn add_and_sub_are_exact_in_range() {
    let a = fx(3);
    let b = fx(-5);
    assert_eq!(a.add(b).raw, -2 * FX_SCALE);
    assert_eq!(a.sub(b).raw, 8 * FX_SCALE);
}

#[test]
fn add_saturates_at_the_range_edge() {
    let big = Fx { raw: FX_MAX_RAW };
    assert_eq!(big.add(big).raw, FX_MAX_RAW);
    assert_eq!(big.neg().add(big.neg()).raw, -FX_MAX_RAW);
}

#[test]
fn mul_truncates_toward_zero() {
    assert_eq!(fx(3).mul(fx(4)).raw, 12 * FX_SCALE);
    assert_eq!(fx(-3).mul(fx(4)).raw, -12 * FX_SCALE);
    // 1/3 * 3 misses one truncated unit
    let third = fx(1).div(fx(3));
    let back = third.mul(fx(3));
    assert!(FX_SCALE - back.raw <= 3 && back.raw <= FX_SCALE);
}

#[test]
fn mul_saturates_on_overflow() {
    let big = Fx { raw: FX_MAX_RAW };
    assert_eq!(big.mul(big).raw, FX_MAX_RAW);
    assert_eq!(big.neg().mul(big).raw, -FX_MAX_RAW);
}

#[test]
fn div_is_exact_on_dyadic_values() {
    assert_eq!(fx(1).div(fx(2)).raw, FX_SCALE / 2);
    assert_eq!(fx(-1).div(fx(4)).raw, -(FX_SCALE / 4));
    assert_eq!(fx(10).div(fx(5)).raw, 2 * FX_SCALE);
}

#[test]
fn sqrt_is_the_exact_floor_root() {
    assert_eq!(fx(4).sqrt().raw, 2 * FX_SCALE);
    assert_eq!(fx(9).sqrt().raw, 3 * FX_SCALE);
    assert_eq!(fx(0).sqrt().raw, 0);
    assert_eq!(fx(-4).sqrt().raw, 0);
    // sqrt(2) is within one grid step of the real root
    let r = fx(2).sqrt().raw as i128;
    assert!(r * r <= 2 * FX_SCALE * FX_SCALE);
    assert!((r + 1) * (r + 1) > 2 * FX_SCALE * FX_SCALE);
}

#[test]
fn floor_and_ceil_step_to_whole_numbers() {
    let v = Fx { raw: 5 * FX_SCALE / 2 };
    assert_eq!(v.floor().raw, 2 * FX_SCALE);
    assert_eq!(v.ceil().raw, 3 * FX_SCALE);
    let n = Fx { raw: -5 * FX_SCALE / 2 };
    assert_eq!(n.floor().raw, -3 * FX_SCALE);
    assert_eq!(n.ceil().raw, -2 * FX_SCALE);
    assert_eq!(fx(7).floor().raw, 7 * FX_SCALE);
    assert_eq!(fx(7).ceil().raw, 7 * FX_SCALE);
}

#[test]
fn lerp_interpolates_exactly() {
    let half = Fx { raw: FX_SCALE / 2 };
    assert_eq!(lerp(fx(2), fx(4), half).raw, 3 * FX_SCALE);
    assert_eq!(lerp(fx(2), fx(4), fx(0)).raw, 2 * FX_SCALE);
    assert_eq!(lerp(fx(2), fx(4), fx(1)).raw, 4 * FX_SCALE);
}

#[test]
fn smoothstep_matches_the_cubic() {
    let half = Fx { raw: FX_SCALE / 2 };
    assert_eq!(smoothstep(fx(0), fx(1), half).raw, FX_SCALE / 2);
    assert_eq!(smoothstep(fx(0), fx(1), fx(-3)).raw, 0);
    assert_eq!(smoothstep(fx(0), fx(1), fx(3)).raw, FX_SCALE);
}

#[test]
fn proximity_is_the_root_of_the_inverse_lerp() {
    // x = 0, y = 4, threshold 1: factor 1/4, proximity 1/2
    let r = get_proximity(fx(0), fx(4), fx(1));
    assert_eq!(r.raw, FX_SCALE / 2);
}

#[test]
fn proximity_stays_in_unit_range() {
    let samples: [(i64, i64, i64); 5] = [(0, 4, 1), (1, 100, 7), (-5, 3, 2), (0, 1, 1), (2, 2, 2)];
    for (x, y, e) in samples {
        let r = get_proximity(fx(x), fx(y), fx(e));
        assert!(0 <= r.raw && r.raw <= FX_SCALE);
    }
}

#[test]
fn proximity_interpolates_back_to_the_threshold() {
    // with d = y - x and t = e - x, d * r^2 <= t * S^2 < d * ((r+1)^2 + S)
    let (x, y, e) = (fx(1), fx(9), fx(3));
    let r = get_proximity(x, y, e).raw as i128;
    let d = (y.raw - x.raw) as i128;
    let t = (e.raw - x.raw) as i128;
    let s = FX_SCALE;
    assert!(d * (r * r) <= t * (s * s));
    assert!(t * (s * s) < d * ((r + 1) * (r + 1)) + d * s);
}
