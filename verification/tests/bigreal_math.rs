use fractal_explorer::bigreal::BigReal;
use fractal_explorer::complex::{BigVec2, Complex, FxComplex};
use fractal_explorer::fx::{Fx, FX_SCALE};
use fractal_explorer::iterations::log2_floor;

fn big(v: i64) -> BigReal {
    BigReal::from_fx(Fx::from_i64(v))
}

#[test]
fn big_add_sub_round_trip() {
    let a = big(7);
    let b = big(-3);
    let s = a.add(&b);
    assert_eq!(s.to_fx().raw, 4 * FX_SCALE);
    let d = s.sub(&b);
    assert_eq!(d.to_fx().raw, 7 * FX_SCALE);
}

#[test]
fn big_mul_is_exact() {
    let a = big(6);
    let b = big(7);
    assert_eq!(a.mul(&b).to_fx().raw, 42 * FX_SCALE);
    let neg = big(-6).mul(&b);
    assert_eq!(neg.to_fx().raw, -42 * FX_SCALE);
}

#[test]
fn big_div_truncates_toward_zero() {
    let a = big(1);
    let b = big(3);
    let q = a.div(&b, 32);
    let third = Fx::from_i64(1).div(Fx::from_i64(3));
    assert_eq!(q.to_fx().raw, third.raw);
    let qn = big(-1).div(&b, 32);
    assert_eq!(qn.to_fx().raw, -third.raw);
}

#[test]
fn with_precision_coarsens_by_truncation() {
    // 5/4 at 32 fractional bits, coarsened to 1 fractional bit, is 2/2
    let v = BigReal::from_fx(Fx { raw: 5 * FX_SCALE / 4 });
    let c = v.with_precision(1);
    let back = c.to_fx();
    assert_eq!(back.raw, FX_SCALE);
}

#[test]
fn big_compare_follows_values() {
    assert!(big(2).lt(&big(3)));
    assert!(!big(3).lt(&big(2)));
    assert!(!big(2).lt(&big(2)));
    assert!(big(-3).lt(&big(-2)));
    assert!(big(0).is_zero());
    assert!(!big(1).is_zero());
}

#[test]
fn fx_round_trip_through_big() {
    let vals: [i128; 5] = [0, 1, -1, 123456789, -987654321];
    for v in vals {
        let f = Fx { raw: v * 1024 };
        assert_eq!(BigReal::from_fx(f).to_fx().raw, f.raw);
    }
}

#[test]
fn log2_floor_matches_powers_of_two() {
    assert_eq!(log2_floor(&big(1)), 0);
    assert_eq!(log2_floor(&big(2)), 1);
    assert_eq!(log2_floor(&big(3)), 1);
    assert_eq!(log2_floor(&big(4)), 2);
    assert_eq!(log2_floor(&big(1024)), 10);
    assert_eq!(log2_floor(&big(1025)), 10);
}

#[test]
fn complex_square_matches_formula() {
    // (1 + 2i)^2 = -3 + 4i
    let z = Complex::new(
        BigReal::from_fx(Fx::from_i64(1)),
        BigReal::from_fx(Fx::from_i64(2)),
    );
    let sq = z.square();
    let m = sq.as_fx2();
    assert_eq!(m.x.raw, -3 * FX_SCALE);
    assert_eq!(m.y.raw, 4 * FX_SCALE);
}

#[test]
fn complex_norm_squared_matches_formula() {
    let z = Complex::new(
        BigReal::from_fx(Fx::from_i64(3)),
        BigReal::from_fx(Fx::from_i64(4)),
    );
    assert_eq!(z.norm_squared().to_fx().raw, 25 * FX_SCALE);
}

#[test]
fn big_vec2_downcast_saturates() {
    let huge = big(1_000_000_000).mul(&big(1_000_000_000)).mul(&big(1_000_000_000));
    let v = BigVec2::new(huge.copy_val(), huge.neg_val());
    let m: FxComplex = v.as_fx2();
    assert_eq!(m.x.raw, fractal_explorer::fx::FX_MAX_RAW);
    assert_eq!(m.y.raw, -fractal_explorer::fx::FX_MAX_RAW);
}
