//! Exercises the fixed-point decimal type: construction, arithmetic,
//! comparisons across precisions, rescaling and truncation.

use liquorix::decimal::{DecimalError, FixedDecimal};

#[test]
fn from_raw_units_keeps_payload_and_precision() {
    let v = FixedDecimal::from_raw_units(123_456, 4);
    assert_eq!(v.into_raw_units(), 123_456);
    assert_eq!(v.scale(), 4);
    assert!(!v.is_zero());
    assert!(v.is_gt_zero());
}

#[test]
fn zero_and_one_have_expected_payloads() {
    let z = FixedDecimal::zero(18);
    assert!(z.is_zero());
    assert!(!z.is_gt_zero());
    assert_eq!(z.scale(), 18);
    let one = FixedDecimal::one(18);
    assert_eq!(one.into_raw_units(), 1_000_000_000_000_000_000);
    assert_eq!(one.scale(), 18);
}

#[test]
fn from_bps_scales_to_basis_point_precision() {
    let b = FixedDecimal::from_bps(4_000);
    assert_eq!(b.into_raw_units(), 40_000_000);
    assert_eq!(b.scale(), 4);
}

#[test]
fn add_and_sub_need_equal_precision() {
    let a = FixedDecimal::from_raw_units(300, 2);
    let b = FixedDecimal::from_raw_units(100, 2);
    let sum = a.try_add(b).unwrap();
    assert_eq!(sum.into_raw_units(), 400);
    assert_eq!(sum.scale(), 2);
    let diff = a.try_sub(b).unwrap();
    assert_eq!(diff.into_raw_units(), 200);

    let c = FixedDecimal::from_raw_units(100, 3);
    assert_eq!(a.try_add(c), Err(DecimalError::PrecisionMismatch));
    assert_eq!(a.try_sub(c), Err(DecimalError::PrecisionMismatch));
    assert_eq!(a.try_abs_diff(c), Err(DecimalError::PrecisionMismatch));
}

#[test]
fn abs_diff_is_symmetric() {
    let a = FixedDecimal::from_raw_units(70, 1);
    let b = FixedDecimal::from_raw_units(100, 1);
    assert_eq!(a.try_abs_diff(b).unwrap().into_raw_units(), 30);
    assert_eq!(b.try_abs_diff(a).unwrap().into_raw_units(), 30);
}

#[test]
fn mul_adds_precisions() {
    let a = FixedDecimal::from_raw_units(25, 1); // 2.5
    let b = FixedDecimal::from_raw_units(4, 0); // 4
    let p = a.mul(b);
    assert_eq!(p.into_raw_units(), 100); // 10.0 at precision 1
    assert_eq!(p.scale(), 1);
}

#[test]
fn div_rescales_dividend_by_divisor_precision() {
    // 10.00 / 4.0 = 2.50: raw 1000 @2 divided by raw 40 @1
    let a = FixedDecimal::from_raw_units(1_000, 2);
    let b = FixedDecimal::from_raw_units(40, 1);
    let q = a.try_div(b).unwrap();
    assert_eq!(q.into_raw_units(), 250);
    assert_eq!(q.scale(), 2);
}

#[test]
fn div_by_zero_is_reported() {
    let a = FixedDecimal::from_raw_units(1_000, 2);
    let z = FixedDecimal::zero(2);
    assert_eq!(a.try_div(z), Err(DecimalError::DivisionByZero));
}

#[test]
fn div_handles_token_scale_values() {
    // 400 * 10^18 debt over 1000 * 10^18 collateral, scaled by 10^8:
    // the dividend would not fit 128 bits, the quotient does.
    let debt_scaled = FixedDecimal::from_raw_units(400_000_000_000_000_000_000 * 100_000_000, 22);
    let collateral = FixedDecimal::from_raw_units(1_000_000_000_000_000_000_000, 18);
    let q = debt_scaled.try_div(collateral).unwrap();
    assert_eq!(q.into_raw_units(), 40_000_000_000_000_000_000_000_000);
    assert_eq!(q.scale(), 22);
    assert_eq!(q.trunc(), 4_000);
}

#[test]
fn mul_div_cancels_divisor_precision() {
    // 1000 * 100 / 1000 at one precision stays at that precision
    let total = FixedDecimal::from_raw_units(1_000, 0);
    let share = FixedDecimal::from_raw_units(100, 0);
    let supply = FixedDecimal::from_raw_units(1_000, 0);
    let r = total.mul_div(share, supply).unwrap();
    assert_eq!(r.into_raw_units(), 100);
    assert_eq!(r.scale(), 0);

    let z = FixedDecimal::zero(0);
    assert_eq!(total.mul_div(share, z), Err(DecimalError::DivisionByZero));
}

#[test]
fn mul_div_survives_double_width_products() {
    // 10^21 * 10^20 overflows 128 bits; the fused form still divides exactly
    let a = FixedDecimal::from_raw_units(1_000_000_000_000_000_000_000, 18);
    let b = FixedDecimal::from_raw_units(100_000_000_000_000_000_000, 18);
    let d = FixedDecimal::from_raw_units(500_000_000_000_000_000_000, 18);
    let r = a.mul_div(b, d).unwrap();
    assert_eq!(r.into_raw_units(), 200_000_000_000_000_000_000);
    assert_eq!(r.scale(), 18);
}

#[test]
fn comparisons_normalize_precision() {
    let a = FixedDecimal::from_raw_units(25, 1); // 2.5
    let b = FixedDecimal::from_raw_units(250, 2); // 2.50
    let c = FixedDecimal::from_raw_units(251, 2); // 2.51
    assert!(a.le(&b));
    assert!(a.ge(&b));
    assert!(!a.lt(&b));
    assert!(!a.gt(&b));
    assert!(a.lt(&c));
    assert!(c.gt(&a));
}

#[test]
fn comparisons_handle_extreme_scale_gaps() {
    let tiny = FixedDecimal::from_raw_units(1, 38); // 10^-38
    let huge = FixedDecimal::from_raw_units(u128::MAX, 0);
    assert!(tiny.lt(&huge));
    assert!(huge.gt(&tiny));
    assert!(!huge.le(&tiny));
}

#[test]
fn rescale_up_preserves_value_and_down_truncates() {
    let v = FixedDecimal::from_raw_units(125, 1); // 12.5
    let up = v.rescale(3);
    assert_eq!(up.into_raw_units(), 12_500);
    assert_eq!(up.scale(), 3);
    let down = up.rescale(0);
    assert_eq!(down.into_raw_units(), 12);
    assert_eq!(down.scale(), 0);
}

#[test]
fn trunc_drops_the_fraction() {
    let v = FixedDecimal::from_raw_units(16_666_666_666, 8);
    assert_eq!(v.trunc(), 166);
    let w = FixedDecimal::from_raw_units(999, 3);
    assert_eq!(w.trunc(), 0);
}
