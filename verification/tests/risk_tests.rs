//! Exercises the risk model: configuration validation, the ratio
//! formula, the decision bands and the adjustment sizing.

use liquorix::decimal::FixedDecimal;
use liquorix::errors::VaultError;
use liquorix::risk::{
    calculate_adjustment_amount_in_egld, calculate_ltv_ratio_bps, decide_action,
    get_bot_info, get_ltv_ratio_zone_bounds, plan_deleverage, plan_leverage,
    require_target_ltv_ratio_within_suggested_bounds, BotAction, RiskConfig,
};

#[test]
fn test_set_risk_thresholds() {
    // 50% safe threshold with a 10% inaction zone is a valid update
    let config = RiskConfig::new(5000u64, 1000u64).unwrap();
    assert_eq!(config.safe_threshold_bps, 5000);
    assert_eq!(config.inaction_zone_bps, 1000);
}

#[test]
fn test_set_risk_thresholds_validates_bounds() {
    // 100.01% - too high
    let r = RiskConfig::new(10001u64, 500u64);
    assert_eq!(r, Err(VaultError::SafeThresholdTooHigh));
    assert_eq!(
        r.unwrap_err().message(),
        "Invalid threshold: Safe threshold must be <= 100% (10000 BPS)."
    );
}

#[test]
fn test_set_risk_thresholds_validates_upper_bound() {
    // 90% + 20% = 110% upper bound
    let r = RiskConfig::new(9000u64, 2000u64);
    assert_eq!(r, Err(VaultError::InactionZoneUpperBoundTooHigh));
    assert_eq!(
        r.unwrap_err().message(),
        "Invalid threshold: Upper bound of inaction zone must be <= 100% (10000 BPS)."
    );
}

#[test]
fn test_set_risk_thresholds_validates_inaction_zone_size() {
    // 30% safe with 40% zone would mean the lower bound is -10%
    let r = RiskConfig::new(3000u64, 4000u64);
    assert_eq!(r, Err(VaultError::InactionZoneTooLarge));
    assert_eq!(
        r.unwrap_err().message(),
        "Invalid threshold: Inaction zone must be less than safe threshold."
    );
}

#[test]
fn default_config_is_forty_percent_with_five_percent_zone() {
    let config = RiskConfig::default();
    assert_eq!(config.safe_threshold_bps, 4000);
    assert_eq!(config.inaction_zone_bps, 500);
}

#[test]
fn ltv_ratio_is_zero_without_collateral() {
    let zero = FixedDecimal::zero(18);
    let debt = FixedDecimal::from_raw_units(400, 18);
    let ltv = calculate_ltv_ratio_bps(zero, debt);
    assert!(ltv.is_zero());
    assert_eq!(ltv.scale(), 4);
}

#[test]
fn ltv_ratio_follows_debt_over_collateral() {
    // collateral 1000, debt 400, whole units: 4000 basis points
    let collateral = FixedDecimal::from_raw_units(1000, 0);
    let debt = FixedDecimal::from_raw_units(400, 0);
    let ltv = calculate_ltv_ratio_bps(collateral, debt);
    assert_eq!(ltv.into_raw_units(), 40_000_000);
    assert_eq!(ltv.scale(), 4);
    assert_eq!(ltv.trunc(), 4000);
}

#[test]
fn ltv_ratio_works_at_token_scale() {
    // the same position at 18 fractional digits
    let collateral = FixedDecimal::from_raw_units(1_000_000_000_000_000_000_000, 18);
    let debt = FixedDecimal::from_raw_units(400_000_000_000_000_000_000, 18);
    let ltv = calculate_ltv_ratio_bps(collateral, debt);
    assert_eq!(ltv.scale(), 22);
    assert_eq!(ltv.trunc(), 4000);
}

#[test]
fn band_bounds_and_inaction_decision() {
    // collateral 1000, debt 400: 4000 bps; band (3500, 4500): inaction
    let collateral = FixedDecimal::from_raw_units(1000, 0);
    let debt = FixedDecimal::from_raw_units(400, 0);
    let ltv = calculate_ltv_ratio_bps(collateral, debt);
    let (lower, upper) =
        get_ltv_ratio_zone_bounds(FixedDecimal::from_bps(4000), FixedDecimal::from_bps(500));
    assert_eq!(lower.into_raw_units(), 35_000_000);
    assert_eq!(upper.into_raw_units(), 45_000_000);
    assert_eq!(decide_action(&ltv, &lower, &upper), BotAction::Inaction);
}

#[test]
fn decision_boundaries_are_asymmetric() {
    let lower = FixedDecimal::from_bps(3500);
    let upper = FixedDecimal::from_bps(4500);
    // exactly on the lower bound: safe, not "needs leverage"
    let at_lower = FixedDecimal::from_bps(3500);
    assert_eq!(decide_action(&at_lower, &lower, &upper), BotAction::Inaction);
    // exactly on the upper bound: still safe, deleverage needs strictly more
    let at_upper = FixedDecimal::from_bps(4500);
    assert_eq!(decide_action(&at_upper, &lower, &upper), BotAction::Inaction);
    // one raw unit above the upper bound tips it over
    let just_above = FixedDecimal::from_raw_units(45_000_001, 4);
    assert_eq!(decide_action(&just_above, &lower, &upper), BotAction::Deleverage);
    // one raw unit below the lower bound calls for leverage
    let just_below = FixedDecimal::from_raw_units(34_999_999, 4);
    assert_eq!(decide_action(&just_below, &lower, &upper), BotAction::Leverage);
}

#[test]
fn deleverage_example_sizes_the_repayment() {
    // collateral 1000, debt 500: 5000 bps, above the 4500 bound
    let collateral = FixedDecimal::from_raw_units(1000, 0);
    let debt = FixedDecimal::from_raw_units(500, 0);
    let ltv = calculate_ltv_ratio_bps(collateral, debt);
    assert_eq!(ltv.trunc(), 5000);
    let (lower, upper) =
        get_ltv_ratio_zone_bounds(FixedDecimal::from_bps(4000), FixedDecimal::from_bps(500));
    assert_eq!(decide_action(&ltv, &lower, &upper), BotAction::Deleverage);

    // desired debt 400, difference 100, complement 6000 bps:
    // adjustment 100 * 10000 / 6000, about 166 units
    let adjustment =
        calculate_adjustment_amount_in_egld(collateral, debt, FixedDecimal::from_bps(4000))
            .unwrap();
    assert_eq!(adjustment.into_raw_units(), 16_666_666_666);
    assert_eq!(adjustment.scale(), 8);
    assert_eq!(adjustment.trunc(), 166);
}

#[test]
fn adjustment_sizes_a_borrow_when_debt_is_low() {
    // collateral 1000, debt 100, target 4000 bps: desired debt 400,
    // difference 300, adjustment 300 * 10000 / 6000 = 500
    let collateral = FixedDecimal::from_raw_units(1000, 0);
    let debt = FixedDecimal::from_raw_units(100, 0);
    let adjustment =
        calculate_adjustment_amount_in_egld(collateral, debt, FixedDecimal::from_bps(4000))
            .unwrap();
    assert_eq!(adjustment.trunc(), 500);
}

#[test]
fn adjustment_guards_the_hundred_percent_target() {
    let collateral = FixedDecimal::from_raw_units(1000, 0);
    let debt = FixedDecimal::from_raw_units(500, 0);
    let r = calculate_adjustment_amount_in_egld(collateral, debt, FixedDecimal::from_bps(10_000));
    assert_eq!(r, Err(liquorix::decimal::DecimalError::DivisionByZero));
}

#[test]
fn target_validation_accepts_the_band_and_rejects_outside() {
    let safe = FixedDecimal::from_bps(4000);
    let zone = FixedDecimal::from_bps(500);
    let inside = FixedDecimal::from_bps(4400);
    assert!(require_target_ltv_ratio_within_suggested_bounds(&inside, &safe, &zone).is_ok());
    let outside = FixedDecimal::from_bps(9000);
    let r = require_target_ltv_ratio_within_suggested_bounds(&outside, &safe, &zone);
    assert_eq!(r, Err(VaultError::InvalidTargetLtvRatioBps));
}

#[test]
fn test_get_bot_info_fails_with_invalid_target_ratio() {
    // Query bot info with invalid target ratio (outside bounds): 90% - too high
    let config = RiskConfig::default();
    let collateral = FixedDecimal::zero(18);
    let debt = FixedDecimal::zero(18);
    let price = FixedDecimal::one(18);
    let r = get_bot_info(config, Some(9000u64), collateral, debt, price, price, false);
    assert_eq!(r, Err(VaultError::InvalidTargetLtvRatioBps));
    assert_eq!(
        r.unwrap_err().message(),
        "Invalid target LTV ratio: Must be within the suggested zone bounds."
    );
}

#[test]
fn test_get_bot_info_view() {
    // collateral 1000, debt 500 at the default band: deleverage by ~166
    let config = RiskConfig::default();
    let collateral = FixedDecimal::from_raw_units(1000, 0);
    let debt = FixedDecimal::from_raw_units(500, 0);
    let price = FixedDecimal::one(4);
    let info = get_bot_info(config, None, collateral, debt, price, price, false).unwrap();
    assert_eq!(info.suggested_action, BotAction::Deleverage);
    assert_eq!(info.current_ltv_ratio_bps.trunc(), 5000);
    assert_eq!(info.safe_threshold_bps_md.into_raw_units(), 40_000_000);
    assert_eq!(info.inaction_zone_bps.into_raw_units(), 5_000_000);
    assert_eq!(info.adjustment_amount_in_egld.trunc(), 166);
    assert_eq!(info.total_collateral_in_egld, collateral);
    assert_eq!(info.total_debt_in_egld, debt);
    assert!(!info.can_be_liquidated);
}

#[test]
fn test_get_bot_info_with_custom_target_ratio() {
    // a target inside the band shifts the decision zone around itself
    let config = RiskConfig::default();
    let collateral = FixedDecimal::from_raw_units(1000, 0);
    let debt = FixedDecimal::from_raw_units(400, 0);
    let info =
        get_bot_info(
            config,
            Some(4400u64),
            collateral,
            debt,
            FixedDecimal::one(4),
            FixedDecimal::one(4),
            false,
        )
        .unwrap();
    // 4000 bps sits inside (3900, 4900)
    assert_eq!(info.suggested_action, BotAction::Inaction);
    // desired debt 440, difference 40, complement 5600:
    // adjustment 40 * 10000 / 5600 = 71.42...
    assert_eq!(info.adjustment_amount_in_egld.trunc(), 71);
}

#[test]
fn leverage_plan_checks_the_resulting_ratio() {
    let config = RiskConfig::default();
    // collateral 1000, debt 100: ratio 1000 bps, far below the band
    let collateral = FixedDecimal::from_raw_units(1000, 0);
    let debt = FixedDecimal::from_raw_units(100, 0);
    // borrowing 500 at price 1 lands on (600 debt / 1500 collateral) = 4000 bps
    let borrow = FixedDecimal::from_raw_units(500, 0);
    let price = FixedDecimal::one(0);
    let plan = plan_leverage(config, collateral, debt, borrow, price).unwrap();
    assert_eq!(plan.borrow_amount_in_egld.into_raw_units(), 500);
    assert_eq!(plan.new_total_collateral_in_egld.into_raw_units(), 1500);
    assert_eq!(plan.new_total_debt_in_egld.into_raw_units(), 600);
    assert_eq!(plan.new_ltv_ratio_bps.trunc(), 4000);

    // borrowing only 100 lands on 200/1100 = 1818 bps, outside the band
    let small = FixedDecimal::from_raw_units(100, 0);
    let r = plan_leverage(config, collateral, debt, small, price);
    assert_eq!(r, Err(VaultError::InvalidTargetLtvRatioBps));
}

#[test]
fn deleverage_plan_checks_amounts_and_the_resulting_ratio() {
    let config = RiskConfig::default();
    let total_collateral = FixedDecimal::from_raw_units(1000, 0);
    let collateral_in_egld = FixedDecimal::from_raw_units(1000, 0);
    let debt_in_egld = FixedDecimal::from_raw_units(500, 0);

    // withdrawing more than is held is rejected outright
    let too_much = FixedDecimal::from_raw_units(1001, 0);
    assert_eq!(
        plan_deleverage(config, too_much, total_collateral, collateral_in_egld, debt_in_egld),
        Err(VaultError::InvalidCollateralToWithdraw)
    );

    // withdrawing 600 of 1000 is worth more than the whole debt
    let beyond_debt = FixedDecimal::from_raw_units(600, 0);
    assert_eq!(
        plan_deleverage(config, beyond_debt, total_collateral, collateral_in_egld, debt_in_egld),
        Err(VaultError::InvalidCollateralToWithdrawWrtDebt)
    );

    // repaying 166 lands on 334/834 = 4004 bps, inside the band
    let amount = FixedDecimal::from_raw_units(166, 0);
    let plan =
        plan_deleverage(config, amount, total_collateral, collateral_in_egld, debt_in_egld)
            .unwrap();
    assert_eq!(plan.collateral_to_withdraw_in_egld.into_raw_units(), 166);
    assert_eq!(plan.new_total_collateral_in_egld.into_raw_units(), 834);
    assert_eq!(plan.new_total_debt_in_egld.into_raw_units(), 334);
    assert_eq!(plan.new_ltv_ratio_bps.trunc(), 4004);

    // repaying only 20 leaves 480/980 = 4897 bps, still outside the band
    let too_little = FixedDecimal::from_raw_units(20, 0);
    assert_eq!(
        plan_deleverage(config, too_little, total_collateral, collateral_in_egld, debt_in_egld),
        Err(VaultError::InvalidTargetLtvRatioBps)
    );
}
