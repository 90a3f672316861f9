use beacon::fixed::{
    FX_HALF, FX_ONE, fx_add, fx_clamp, fx_div, fx_exp2_neg, fx_floor_index, fx_lerp, fx_mul,
    fx_pixel_pos, fx_rem_one, fx_sub, fx_max, fx_min, wrap_index,
};

#[test]
fn add_and_sub_saturate() {
    assert_eq!(fx_add(FX_ONE, FX_ONE), 2 * FX_ONE);
    assert_eq!(fx_add(i64::MAX, 1), i64::MAX);
    assert_eq!(fx_sub(i64::MIN, 1), i64::MIN);
    assert_eq!(fx_sub(FX_ONE, FX_HALF), FX_HALF);
}

#[test]
fn mul_matches_scaled_product() {
    assert_eq!(fx_mul(FX_ONE, FX_ONE), FX_ONE);
    assert_eq!(fx_mul(FX_HALF, FX_HALF), 16384);
    assert_eq!(fx_mul(-FX_HALF, FX_HALF), -16384);
    assert_eq!(fx_mul(3 * FX_ONE, -2 * FX_ONE), -6 * FX_ONE);
    assert_eq!(fx_mul(i64::MAX, FX_ONE * 2), i64::MAX);
}

#[test]
fn div_matches_scaled_quotient() {
    assert_eq!(fx_div(FX_ONE, 2 * FX_ONE), FX_HALF);
    assert_eq!(fx_div(-FX_ONE, 2 * FX_ONE), -FX_HALF);
    assert_eq!(fx_div(FX_ONE, 0), i64::MAX);
    assert_eq!(fx_div(-FX_ONE, 0), i64::MIN);
    assert_eq!(fx_div(3 * FX_ONE, 3 * FX_ONE), FX_ONE);
}

#[test]
fn min_max_clamp() {
    assert_eq!(fx_min(3, -4), -4);
    assert_eq!(fx_max(3, -4), 3);
    assert_eq!(fx_clamp(5, 0, 3), 3);
    assert_eq!(fx_clamp(-5, 0, 3), 0);
    assert_eq!(fx_clamp(2, 0, 3), 2);
}

#[test]
fn floor_and_wrap() {
    assert_eq!(fx_floor_index(FX_ONE + 5), 1);
    assert_eq!(fx_floor_index(-1), -1);
    assert_eq!(fx_floor_index(-FX_ONE), -1);
    assert_eq!(fx_rem_one(-1), FX_ONE - 1);
    assert_eq!(fx_rem_one(FX_ONE + 7), 7);
    assert_eq!(wrap_index(-1, 10), 9);
    assert_eq!(wrap_index(13, 10), 3);
}

#[test]
fn lerp_hits_endpoints_and_midpoint() {
    assert_eq!(fx_lerp(100, 200, 0), 100);
    assert_eq!(fx_lerp(100, 200, FX_ONE), 200);
    assert_eq!(fx_lerp(100, 200, FX_HALF), 150);
}

#[test]
fn exp2_endpoints() {
    assert_eq!(fx_exp2_neg(0), FX_ONE);
    assert_eq!(fx_exp2_neg(FX_ONE), FX_HALF);
    assert_eq!(fx_exp2_neg(2 * FX_ONE), FX_HALF / 2);
    assert_eq!(fx_exp2_neg(20 * FX_ONE), 0);
    // the quadratic stand-in stays close to the true curve inside a unit
    let mid = fx_exp2_neg(FX_HALF);
    let true_mid = (0.5f64.exp2() / 2.0 * 65536.0) as i64; // 2^-0.5 scaled
    assert!((mid - true_mid).abs() < 400, "mid {} vs {}", mid, true_mid);
}

#[test]
fn pixel_positions() {
    assert_eq!(fx_pixel_pos(0, 160), 0);
    assert_eq!(fx_pixel_pos(80, 160), FX_HALF);
    assert_eq!(fx_pixel_pos(40, 160), FX_ONE / 4);
}
