//! The loan-to-value risk model.
//!
//! The vault keeps the ratio of debt to collateral (both measured in the
//! same unit) inside a configured band: a safe threshold with a symmetric
//! inaction zone around it, all expressed in basis points. This module
//! computes the current ratio, decides whether to leverage, deleverage or
//! do nothing, sizes the corrective move, and validates caller-chosen
//! target ratios against the band.

use vstd::prelude::*;

verus! {

use vstd::arithmetic::div_mod::{
    lemma_div_by_multiple,
    lemma_div_is_ordered,
    lemma_div_nonincreasing,
    lemma_div_pos_is_pos,
};

use crate::constants::{BPS, BPS_PRECISION, DEFAULT_INACTION_ZONE_BPS, DEFAULT_SAFE_THRESHOLD_BPS};
use crate::decimal::{
    lemma_mul_quotient_upper,
    lemma_pow10_small_values,
    lemma_value_order_trans,
    pow10,
    FixedDecimal,
    MAX_POW10,
};
use crate::errors::VaultError;

/// The action recommended for the current loan-to-value ratio.
#[derive(Clone, Copy, Debug, PartialEq, Eq, Structural)]
pub enum BotAction {
    /// The ratio sits inside the inaction zone; nothing to do.
    Inaction,
    /// The ratio is below the zone: borrow more and supply it.
    Leverage,
    /// The ratio is above the zone: repay debt with collateral.
    Deleverage,
}

/// The configured risk band, in whole basis points.
#[derive(Clone, Copy, Debug, PartialEq, Eq, Structural)]
pub struct RiskConfig {
    /// The target loan-to-value ratio.
    pub safe_threshold_bps: u64,
    /// Half-width of the symmetric zone around the threshold in which no
    /// adjustment is taken.
    pub inaction_zone_bps: u64,
}

impl RiskConfig {
    /// The configuration invariant, enforced on every update: the
    /// threshold is at most 100%, the zone's upper bound is at most 100%,
    /// and the zone is strictly below the threshold so the lower bound
    /// cannot go negative.
    pub open spec fn valid(self) -> bool {
        self.safe_threshold_bps <= BPS && self.safe_threshold_bps + self.inaction_zone_bps <= BPS
            && self.inaction_zone_bps < self.safe_threshold_bps
    }

    /// Validates new thresholds, rejecting them in the order the checks
    /// are stated: threshold too high, zone upper bound too high, zone not
    /// strictly below the threshold.
    pub fn new(safe_threshold_bps: u64, inaction_zone_bps: u64) -> (r: Result<Self, VaultError>)
        ensures
            safe_threshold_bps > BPS ==> (r matches Err(e) && e
                == VaultError::SafeThresholdTooHigh),
            safe_threshold_bps <= BPS && safe_threshold_bps + inaction_zone_bps > BPS ==> (
            r matches Err(e) && e == VaultError::InactionZoneUpperBoundTooHigh),
            safe_threshold_bps <= BPS && safe_threshold_bps + inaction_zone_bps <= BPS
                && inaction_zone_bps >= safe_threshold_bps ==> (r matches Err(e) && e
                == VaultError::InactionZoneTooLarge),
            (r is Ok) <==> (safe_threshold_bps <= BPS && safe_threshold_bps + inaction_zone_bps
                <= BPS && inaction_zone_bps < safe_threshold_bps),
            r matches Ok(c) ==> c.safe_threshold_bps == safe_threshold_bps
                && c.inaction_zone_bps == inaction_zone_bps && c.valid(),
    {
        if safe_threshold_bps > BPS {
            Err(VaultError::SafeThresholdTooHigh)
        } else if inaction_zone_bps > BPS - safe_threshold_bps {
            Err(VaultError::InactionZoneUpperBoundTooHigh)
        } else if inaction_zone_bps >= safe_threshold_bps {
            Err(VaultError::InactionZoneTooLarge)
        } else {
            Ok(RiskConfig { safe_threshold_bps, inaction_zone_bps })
        }
    }
}

impl Default for RiskConfig {
    /// The band the vault starts with: a 40% threshold with a 5% zone.
    fn default() -> (r: Self)
        ensures
            r.safe_threshold_bps == DEFAULT_SAFE_THRESHOLD_BPS,
            r.inaction_zone_bps == DEFAULT_INACTION_ZONE_BPS,
            r.valid(),
    {
        RiskConfig {
            safe_threshold_bps: DEFAULT_SAFE_THRESHOLD_BPS,
            inaction_zone_bps: DEFAULT_INACTION_ZONE_BPS,
        }
    }
}

/// A whole number of basis points as a decimal at basis-point precision.
pub open spec fn bps_decimal(bps: u64) -> FixedDecimal {
    (FixedDecimal { raw: (bps * 10_000) as u128, precision: BPS_PRECISION })
}

/// The band's lower bound, `safe - zone`, at the shared precision.
pub open spec fn band_lower(safe: FixedDecimal, zone: FixedDecimal) -> FixedDecimal {
    (FixedDecimal { raw: (safe.raw - zone.raw) as u128, precision: safe.precision })
}

/// The band's upper bound, `safe + zone`, at the shared precision.
pub open spec fn band_upper(safe: FixedDecimal, zone: FixedDecimal) -> FixedDecimal {
    (FixedDecimal { raw: (safe.raw + zone.raw) as u128, precision: safe.precision })
}

/// The loan-to-value ratio `debt * 10000 / collateral` in basis points:
/// zero when there is no collateral, otherwise the integer-truncated
/// quotient at precision `debt.precision + BPS_PRECISION`.
pub open spec fn ltv_ratio_bps_spec(collateral: FixedDecimal, debt: FixedDecimal) -> FixedDecimal {
    if collateral.raw == 0 {
        (FixedDecimal { raw: 0, precision: BPS_PRECISION })
    } else {
        (FixedDecimal {
            raw: ((debt.raw * 100_000_000 * pow10(collateral.precision as nat)) as int / (
            collateral.raw as int)) as u128,
            precision: (debt.precision + BPS_PRECISION) as u32,
        })
    }
}

/// Computes the current loan-to-value ratio in basis points.
///
/// Returns zero (fully unleveraged) when the collateral is zero and
/// `debt * 10000 / collateral` otherwise, truncating toward zero at the
/// precision of the scaled debt.
pub fn calculate_ltv_ratio_bps(
    total_collateral_in_egld: FixedDecimal,
    total_debt_in_egld: FixedDecimal,
) -> (r: FixedDecimal)
    requires
        total_collateral_in_egld.raw > 0 ==> total_debt_in_egld.raw * 100_000_000 <= u128::MAX
            && total_debt_in_egld.precision + BPS_PRECISION <= u32::MAX
            && total_collateral_in_egld.precision <= MAX_POW10
            && total_collateral_in_egld.raw <= u128::MAX / 2 && (total_debt_in_egld.raw
            * 100_000_000 * pow10(total_collateral_in_egld.precision as nat)) as int / (
        total_collateral_in_egld.raw as int) <= u128::MAX,
    ensures
        r == ltv_ratio_bps_spec(total_collateral_in_egld, total_debt_in_egld),
{
    let bps_multiplier = FixedDecimal::from_bps(BPS);
    if total_collateral_in_egld.is_gt_zero() {
        let debt_scaled = total_debt_in_egld.mul(bps_multiplier);
        debt_scaled.try_div(total_collateral_in_egld).unwrap()
    } else {
        FixedDecimal::zero(BPS_PRECISION)
    }
}

/// Computes the inaction-zone bounds `(target - zone, target + zone)`.
pub fn get_ltv_ratio_zone_bounds(
    target_ltv_ratio_bps: FixedDecimal,
    inaction_zone_bps: FixedDecimal,
) -> (r: (FixedDecimal, FixedDecimal))
    requires
        target_ltv_ratio_bps.precision == inaction_zone_bps.precision,
        inaction_zone_bps.raw <= target_ltv_ratio_bps.raw,
        target_ltv_ratio_bps.raw + inaction_zone_bps.raw <= u128::MAX,
    ensures
        r.0 == band_lower(target_ltv_ratio_bps, inaction_zone_bps),
        r.1 == band_upper(target_ltv_ratio_bps, inaction_zone_bps),
{
    let lower = target_ltv_ratio_bps.try_sub(inaction_zone_bps).unwrap();
    let upper = target_ltv_ratio_bps.try_add(inaction_zone_bps).unwrap();
    (lower, upper)
}

/// Checks that a caller-chosen target ratio lies inside the band that the
/// configured safe threshold and inaction zone suggest.
pub fn require_target_ltv_ratio_within_suggested_bounds(
    target_ltv_ratio_bps: &FixedDecimal,
    safe_threshold_bps: &FixedDecimal,
    inaction_zone_bps: &FixedDecimal,
) -> (r: Result<(), VaultError>)
    requires
        safe_threshold_bps.precision == inaction_zone_bps.precision,
        inaction_zone_bps.raw <= safe_threshold_bps.raw,
        safe_threshold_bps.raw + inaction_zone_bps.raw <= u128::MAX,
    ensures
        (r is Ok) <==> (band_lower(*safe_threshold_bps, *inaction_zone_bps).le_spec(
            *target_ltv_ratio_bps,
        ) && target_ltv_ratio_bps.le_spec(band_upper(*safe_threshold_bps, *inaction_zone_bps))),
        r is Err ==> (r matches Err(e) && e == VaultError::InvalidTargetLtvRatioBps),
{
    let (lower, upper) = get_ltv_ratio_zone_bounds(*safe_threshold_bps, *inaction_zone_bps);
    if target_ltv_ratio_bps.ge(&lower) && target_ltv_ratio_bps.le(&upper) {
        Ok(())
    } else {
        Err(VaultError::InvalidTargetLtvRatioBps)
    }
}

/// Picks the action for the current ratio against the zone bounds.
///
/// The upper bound is exclusive for deleverage (only a strictly greater
/// ratio triggers it) and the lower bound is inclusive for inaction, so a
/// ratio exactly on either bound is treated as safe.
pub fn decide_action(
    current_ltv_ratio_bps: &FixedDecimal,
    inaction_lower_bound_bps: &FixedDecimal,
    inaction_upper_bound_bps: &FixedDecimal,
) -> (r: BotAction)
    ensures
        (r == BotAction::Deleverage) <==> inaction_upper_bound_bps.lt_spec(*current_ltv_ratio_bps),
        (r == BotAction::Inaction) <==> (!inaction_upper_bound_bps.lt_spec(*current_ltv_ratio_bps)
            && inaction_lower_bound_bps.le_spec(*current_ltv_ratio_bps)),
        (r == BotAction::Leverage) <==> (!inaction_upper_bound_bps.lt_spec(*current_ltv_ratio_bps)
            && !inaction_lower_bound_bps.le_spec(*current_ltv_ratio_bps)),
{
    if current_ltv_ratio_bps.gt(inaction_upper_bound_bps) {
        BotAction::Deleverage
    } else if current_ltv_ratio_bps.ge(inaction_lower_bound_bps) {
        BotAction::Inaction
    } else {
        BotAction::Leverage
    }
}

/// Raw payload (at precision `collateral.precision + BPS_PRECISION`) of
/// the debt level that would put the ratio exactly at the target:
/// `collateral * target / 10000`.
pub open spec fn desired_debt_raw(collateral: FixedDecimal, target: FixedDecimal) -> int {
    (collateral.raw * target.raw * 10_000) / 100_000_000
}

/// Raw payload (at precision `collateral.precision + 2 * BPS_PRECISION`)
/// of the corrective move `|debt - desiredDebt| * 10000 / (10000 - target)`.
pub open spec fn adjustment_amount_raw(
    collateral: FixedDecimal,
    debt: FixedDecimal,
    target: FixedDecimal,
) -> int {
    let scaled_debt = debt.raw * 10_000;
    let desired = desired_debt_raw(collateral, target);
    let diff = if scaled_debt >= desired {
        scaled_debt - desired
    } else {
        desired - scaled_debt
    };
    (diff * 100_000_000 * 10_000) / (100_000_000 - target.raw)
}

/// Sizes the move that brings the ratio to exactly the target:
/// `|debt - collateral * target| / (1 - target)`, the amount that must be
/// borrowed (debt below the desired level) or repaid (debt above it) when
/// the same move lands on both debt and collateral.
///
/// A target of exactly 100% leaves nothing to divide by and is reported
/// as a division by zero; in practice the band validation rejects such a
/// target first.
pub fn calculate_adjustment_amount_in_egld(
    total_collateral_in_egld: FixedDecimal,
    total_debt_in_egld: FixedDecimal,
    target_ltv_ratio_bps: FixedDecimal,
) -> (r: Result<FixedDecimal, crate::decimal::DecimalError>)
    requires
        target_ltv_ratio_bps.precision == BPS_PRECISION,
        target_ltv_ratio_bps.raw <= 100_000_000,
        total_collateral_in_egld.precision == total_debt_in_egld.precision,
        total_collateral_in_egld.precision + 8 <= u32::MAX,
        total_debt_in_egld.raw * 10_000_000_000_000_000 <= u128::MAX,
        total_collateral_in_egld.raw * target_ltv_ratio_bps.raw * 100_000_000 <= u128::MAX,
    ensures
        target_ltv_ratio_bps.raw == 100_000_000 ==> (r matches Err(e) && e
            == crate::decimal::DecimalError::DivisionByZero),
        target_ltv_ratio_bps.raw < 100_000_000 ==> (r matches Ok(v) && v.precision
            == total_collateral_in_egld.precision + 8 && v.raw == adjustment_amount_raw(
            total_collateral_in_egld,
            total_debt_in_egld,
            target_ltv_ratio_bps,
        )),
{
    proof {
        crate::decimal::lemma_pow10_small_values();
    }
    let bps_multiplier = FixedDecimal::from_bps(BPS);
    let complement = match bps_multiplier.try_sub(target_ltv_ratio_bps) {
        Ok(v) => v,
        Err(_) => {
            proof {
                assert(false);
            }
            return Err(crate::decimal::DecimalError::DivisionByZero);
        },
    };
    let c = total_collateral_in_egld;
    let d = total_debt_in_egld;
    let t = target_ltv_ratio_bps;
    proof {
        // the scaled product fits: c.raw * t.raw <= c.raw * t.raw * 1e8
        assert(c.raw * t.raw <= c.raw * t.raw * 100_000_000 || c.raw * t.raw == 0)
            by (nonlinear_arith);
        // quotient of the desired-debt division stays at or below c.raw * t.raw
        assert((c.raw * t.raw * 10_000) <= (c.raw * t.raw) * 100_000_000) by (nonlinear_arith);
        lemma_div_is_ordered(
            (c.raw * t.raw * 10_000) as int,
            ((c.raw * t.raw) * 100_000_000) as int,
            100_000_000,
        );
        lemma_div_by_multiple((c.raw * t.raw) as int, 100_000_000);
    }
    let desired_debt = c.mul(t).try_div(bps_multiplier).unwrap();
    proof {
        // the rescaled debt fits: d.raw * 1e4 <= d.raw * 1e16
        assert(d.raw * 10_000 <= d.raw * 10_000_000_000_000_000) by (nonlinear_arith);
    }
    let debt_rescaled = d.rescale(d.scale() + BPS_PRECISION);
    let diff = debt_rescaled.try_abs_diff(desired_debt).unwrap();
    proof {
        // bound the difference by whichever operand is larger
        assert(desired_debt.raw * 100_000_000 <= c.raw * t.raw * 10_000) by {
            lemma_mul_quotient_upper((c.raw * t.raw * 10_000) as int, 100_000_000);
        }
        assert(c.raw * t.raw * 10_000 <= c.raw * t.raw * 100_000_000) by (nonlinear_arith);
        assert(d.raw * 10_000 * 100_000_000 == d.raw * 1_000_000_000_000) by (nonlinear_arith);
        assert(d.raw * 1_000_000_000_000 <= d.raw * 10_000_000_000_000_000) by (nonlinear_arith);
        assert(diff.raw * 100_000_000 <= u128::MAX) by (nonlinear_arith)
            requires
                diff.raw <= d.raw * 10_000 || diff.raw <= desired_debt.raw,
                d.raw * 10_000 * 100_000_000 <= u128::MAX,
                desired_debt.raw * 100_000_000 <= u128::MAX,
        ;
    }
    let numerator = diff.mul(bps_multiplier);
    proof {
        // the final quotient is bounded by its dividend scaled once more
        assert(diff.raw * 100_000_000 * 10_000 == diff.raw * 1_000_000_000_000)
            by (nonlinear_arith);
        assert(d.raw * 10_000 * 1_000_000_000_000 == d.raw * 10_000_000_000_000_000)
            by (nonlinear_arith);
        assert(diff.raw * 1_000_000_000_000 <= u128::MAX) by (nonlinear_arith)
            requires
                diff.raw <= d.raw * 10_000 || diff.raw <= desired_debt.raw,
                d.raw * 10_000 * 1_000_000_000_000 <= u128::MAX,
                desired_debt.raw * 100_000_000 <= u128::MAX,
                desired_debt.raw * 1_000_000_000_000 <= u128::MAX,
        ;
        if complement.raw != 0 {
            lemma_div_pos_is_pos((numerator.raw * pow10(4)) as int, complement.raw as int);
            lemma_div_nonincreasing((numerator.raw * pow10(4)) as int, complement.raw as int);
        }
    }
    numerator.try_div(complement)
}

/// The three decision regions partition the whole range of ratios: every
/// ratio falls in exactly one of "above the upper bound", "inside the
/// band, bounds included", and "below the lower bound", with no gap or
/// overlap at either boundary.
pub proof fn lemma_decide_action_partition(
    current: FixedDecimal,
    lower: FixedDecimal,
    upper: FixedDecimal,
)
    requires
        lower.le_spec(upper),
    ensures
        upper.lt_spec(current) || (lower.le_spec(current) && current.le_spec(upper))
            || current.lt_spec(lower),
        !(upper.lt_spec(current) && current.lt_spec(lower)),
        upper.lt_spec(current) ==> !(lower.le_spec(current) && current.le_spec(upper)),
        current.lt_spec(lower) ==> !(lower.le_spec(current) && current.le_spec(upper)),
{
    lemma_value_order_trans(lower, upper, current);
}

/// Everything the leverage bot needs to decide and size its next move.
#[derive(Clone, Copy, Debug, PartialEq, Eq, Structural)]
pub struct BotInfo {
    /// The action the current ratio calls for.
    pub suggested_action: BotAction,
    /// The current loan-to-value ratio in basis points.
    pub current_ltv_ratio_bps: FixedDecimal,
    /// The configured safe threshold at basis-point precision.
    pub safe_threshold_bps_md: FixedDecimal,
    /// The configured inaction zone at basis-point precision.
    pub inaction_zone_bps: FixedDecimal,
    /// Size of the move that would bring the ratio to the target.
    pub adjustment_amount_in_egld: FixedDecimal,
    /// Collateral value backing the position.
    pub total_collateral_in_egld: FixedDecimal,
    /// Debt value owed by the position.
    pub total_debt_in_egld: FixedDecimal,
    /// Oracle price of the collateral token.
    pub supplied_token_price_in_egld: FixedDecimal,
    /// Oracle price of the borrowed token.
    pub borrowed_token_price_in_egld: FixedDecimal,
    /// Whether the lending protocol reports the position as liquidatable.
    pub can_be_liquidated: bool,
}

impl BotInfo {
    /// Bundles the decision inputs and outputs into one report.
    #[allow(clippy::too_many_arguments)]
    pub fn new(
        suggested_action: BotAction,
        current_ltv_ratio_bps: FixedDecimal,
        safe_threshold_bps_md: FixedDecimal,
        inaction_zone_bps: FixedDecimal,
        adjustment_amount_in_egld: FixedDecimal,
        total_collateral_in_egld: FixedDecimal,
        total_debt_in_egld: FixedDecimal,
        supplied_token_price_in_egld: FixedDecimal,
        borrowed_token_price_in_egld: FixedDecimal,
        can_be_liquidated: bool,
    ) -> (r: Self)
        ensures
            r.suggested_action == suggested_action,
            r.current_ltv_ratio_bps == current_ltv_ratio_bps,
            r.safe_threshold_bps_md == safe_threshold_bps_md,
            r.inaction_zone_bps == inaction_zone_bps,
            r.adjustment_amount_in_egld == adjustment_amount_in_egld,
            r.total_collateral_in_egld == total_collateral_in_egld,
            r.total_debt_in_egld == total_debt_in_egld,
            r.supplied_token_price_in_egld == supplied_token_price_in_egld,
            r.borrowed_token_price_in_egld == borrowed_token_price_in_egld,
            r.can_be_liquidated == can_be_liquidated,
    {
        BotInfo {
            suggested_action,
            current_ltv_ratio_bps,
            safe_threshold_bps_md,
            inaction_zone_bps,
            adjustment_amount_in_egld,
            total_collateral_in_egld,
            total_debt_in_egld,
            supplied_token_price_in_egld,
            borrowed_token_price_in_egld,
            can_be_liquidated,
        }
    }
}

/// The report's fields, flattened in declaration order for hosts whose
/// interface wants the values one by one.
pub type BotInfoType = (
    BotAction,
    FixedDecimal,
    FixedDecimal,
    FixedDecimal,
    FixedDecimal,
    FixedDecimal,
    FixedDecimal,
    FixedDecimal,
    FixedDecimal,
    bool,
);

impl BotInfo {
    /// Flattens the report into a tuple of its fields.
    pub fn into_multi_value(self) -> (r: BotInfoType)
        ensures
            r == (
                self.suggested_action,
                self.current_ltv_ratio_bps,
                self.safe_threshold_bps_md,
                self.inaction_zone_bps,
                self.adjustment_amount_in_egld,
                self.total_collateral_in_egld,
                self.total_debt_in_egld,
                self.supplied_token_price_in_egld,
                self.borrowed_token_price_in_egld,
                self.can_be_liquidated,
            ),
    {
        (
            self.suggested_action,
            self.current_ltv_ratio_bps,
            self.safe_threshold_bps_md,
            self.inaction_zone_bps,
            self.adjustment_amount_in_egld,
            self.total_collateral_in_egld,
            self.total_debt_in_egld,
            self.supplied_token_price_in_egld,
            self.borrowed_token_price_in_egld,
            self.can_be_liquidated,
        )
    }
}

/// The target ratio a risk evaluation works toward: the caller's choice,
/// or the configured safe threshold when none was given.
pub open spec fn effective_target_bps(config: RiskConfig, opt_target: Option<u64>) -> u64 {
    match opt_target {
        Some(t) => t,
        None => config.safe_threshold_bps,
    }
}

/// Evaluates the position's risk: validates the chosen target against the
/// configured band, computes the current ratio, decides the action by the
/// zone around the target, and sizes the corrective move.
///
/// The preconditions rule out the two inputs on which the host layer
/// aborts mid-computation: a target narrower than the zone (its lower
/// bound would drop below zero) and an effective target of exactly 100%
/// that the band validation would let through (its complement is zero).
#[allow(clippy::too_many_arguments)]
pub fn get_bot_info(
    config: RiskConfig,
    opt_target_ltv_ratio_bps: Option<u64>,
    total_collateral_in_egld: FixedDecimal,
    total_debt_in_egld: FixedDecimal,
    supplied_token_price_in_egld: FixedDecimal,
    borrowed_token_price_in_egld: FixedDecimal,
    can_be_liquidated: bool,
) -> (r: Result<BotInfo, VaultError>)
    requires
        config.valid(),
        opt_target_ltv_ratio_bps matches Some(t) ==> t >= config.inaction_zone_bps,
        opt_target_ltv_ratio_bps matches Some(t) ==> !(t == BPS && config.safe_threshold_bps
            + config.inaction_zone_bps == BPS),
        opt_target_ltv_ratio_bps is None ==> config.safe_threshold_bps != BPS,
        total_collateral_in_egld.precision == total_debt_in_egld.precision,
        total_collateral_in_egld.precision <= MAX_POW10,
        total_collateral_in_egld.precision + 8 <= u32::MAX,
        total_collateral_in_egld.raw <= u128::MAX / 2,
        total_collateral_in_egld.raw > 0 ==> (total_debt_in_egld.raw * 100_000_000 * pow10(
            total_collateral_in_egld.precision as nat,
        )) as int / (total_collateral_in_egld.raw as int) <= u128::MAX,
        total_debt_in_egld.raw * 10_000_000_000_000_000 <= u128::MAX,
        total_collateral_in_egld.raw * 10_000_000_000_000_000 <= u128::MAX,
    ensures
        (r is Ok) <==> (effective_target_bps(config, opt_target_ltv_ratio_bps)
            >= config.safe_threshold_bps - config.inaction_zone_bps && effective_target_bps(
            config,
            opt_target_ltv_ratio_bps,
        ) <= config.safe_threshold_bps + config.inaction_zone_bps),
        r is Err ==> (r matches Err(e) && e == VaultError::InvalidTargetLtvRatioBps),
        r matches Ok(info) ==> ({
            let t_eff = effective_target_bps(config, opt_target_ltv_ratio_bps);
            let ltv = ltv_ratio_bps_spec(total_collateral_in_egld, total_debt_in_egld);
            let lower = bps_decimal((t_eff - config.inaction_zone_bps) as u64);
            let upper = bps_decimal((t_eff + config.inaction_zone_bps) as u64);
            &&& info.current_ltv_ratio_bps == ltv
            &&& info.safe_threshold_bps_md == bps_decimal(config.safe_threshold_bps)
            &&& info.inaction_zone_bps == bps_decimal(config.inaction_zone_bps)
            &&& info.total_collateral_in_egld == total_collateral_in_egld
            &&& info.total_debt_in_egld == total_debt_in_egld
            &&& info.supplied_token_price_in_egld == supplied_token_price_in_egld
            &&& info.borrowed_token_price_in_egld == borrowed_token_price_in_egld
            &&& info.can_be_liquidated == can_be_liquidated
            &&& (info.suggested_action == BotAction::Deleverage) <==> upper.lt_spec(ltv)
            &&& (info.suggested_action == BotAction::Inaction) <==> (!upper.lt_spec(ltv)
                && lower.le_spec(ltv))
            &&& (info.suggested_action == BotAction::Leverage) <==> (!upper.lt_spec(ltv)
                && !lower.le_spec(ltv))
            &&& info.adjustment_amount_in_egld.precision == total_collateral_in_egld.precision
                + 8
            &&& info.adjustment_amount_in_egld.raw == adjustment_amount_raw(
                total_collateral_in_egld,
                total_debt_in_egld,
                bps_decimal(t_eff),
            )
        }),
{
    proof {
        lemma_pow10_small_values();
    }
    let safe_threshold_bps_md = FixedDecimal::from_bps(config.safe_threshold_bps);
    let inaction_zone_bps_md = FixedDecimal::from_bps(config.inaction_zone_bps);
    let target_ltv_ratio_bps_md = match opt_target_ltv_ratio_bps {
        Some(value) => FixedDecimal::from_bps(value),
        None => safe_threshold_bps_md,
    };
    let ghost t_eff = effective_target_bps(config, opt_target_ltv_ratio_bps);
    let ghost zone = config.inaction_zone_bps;
    let ghost safe = config.safe_threshold_bps;
    let bounds = get_ltv_ratio_zone_bounds(target_ltv_ratio_bps_md, inaction_zone_bps_md);
    let inaction_lower_bound_bps_md = bounds.0;
    let inaction_upper_bound_bps_md = bounds.1;
    proof {
        // the value-level band test agrees with the basis-point one
        assert(band_lower(safe_threshold_bps_md, inaction_zone_bps_md).le_spec(
            target_ltv_ratio_bps_md,
        ) <==> safe - zone <= t_eff) by (nonlinear_arith)
            requires
                pow10(BPS_PRECISION as nat) == 10_000,
                target_ltv_ratio_bps_md == bps_decimal(t_eff),
                safe_threshold_bps_md.raw == safe * 10_000,
                inaction_zone_bps_md.raw == zone * 10_000,
                safe_threshold_bps_md.precision == BPS_PRECISION,
                inaction_zone_bps_md.precision == BPS_PRECISION,
                zone <= safe,
        ;
        assert(target_ltv_ratio_bps_md.le_spec(
            band_upper(safe_threshold_bps_md, inaction_zone_bps_md),
        ) <==> t_eff <= safe + zone) by (nonlinear_arith)
            requires
                pow10(BPS_PRECISION as nat) == 10_000,
                target_ltv_ratio_bps_md == bps_decimal(t_eff),
                safe_threshold_bps_md.raw == safe * 10_000,
                inaction_zone_bps_md.raw == zone * 10_000,
                safe_threshold_bps_md.precision == BPS_PRECISION,
                inaction_zone_bps_md.precision == BPS_PRECISION,
        ;
    }
    match require_target_ltv_ratio_within_suggested_bounds(
        &target_ltv_ratio_bps_md,
        &safe_threshold_bps_md,
        &inaction_zone_bps_md,
    ) {
        Ok(()) => (),
        Err(e) => {
            return Err(e);
        },
    }
    proof {
        // inside the band the target stays a whole number of basis points
        assert(t_eff <= safe + zone);
        assert(bounds.0 == bps_decimal((t_eff - zone) as u64));
        assert(bounds.1 == bps_decimal((t_eff + zone) as u64));
        // a target of exactly 100% cannot have passed the validation
        assert(t_eff < BPS);
        assert(target_ltv_ratio_bps_md.raw < 100_000_000);
        // the sizing formula's inputs fit the machine limits
        assert(total_collateral_in_egld.raw * target_ltv_ratio_bps_md.raw * 100_000_000
            <= total_collateral_in_egld.raw * 10_000_000_000_000_000) by (nonlinear_arith)
            requires
                target_ltv_ratio_bps_md.raw <= 100_000_000,
        ;
    }
    let current_ltv_ratio_bps = calculate_ltv_ratio_bps(
        total_collateral_in_egld,
        total_debt_in_egld,
    );
    let suggested_action = decide_action(
        &current_ltv_ratio_bps,
        &inaction_lower_bound_bps_md,
        &inaction_upper_bound_bps_md,
    );
    let adjustment_amount_in_egld = calculate_adjustment_amount_in_egld(
        total_collateral_in_egld,
        total_debt_in_egld,
        target_ltv_ratio_bps_md,
    ).unwrap();
    Ok(
        BotInfo::new(
            suggested_action,
            current_ltv_ratio_bps,
            safe_threshold_bps_md,
            inaction_zone_bps_md,
            adjustment_amount_in_egld,
            total_collateral_in_egld,
            total_debt_in_egld,
            supplied_token_price_in_egld,
            borrowed_token_price_in_egld,
            can_be_liquidated,
        ),
    )
}

/// A decimal with the same precision and `add` more raw units.
pub open spec fn raised(v: FixedDecimal, add: int) -> FixedDecimal {
    (FixedDecimal { raw: (v.raw + add) as u128, precision: v.precision })
}

/// A decimal with the same precision and `sub` fewer raw units.
pub open spec fn lowered(v: FixedDecimal, sub: int) -> FixedDecimal {
    (FixedDecimal { raw: (v.raw - sub) as u128, precision: v.precision })
}

/// Whether a ratio sits inside the configured band, bounds included.
pub open spec fn ltv_within_config_band(config: RiskConfig, ltv: FixedDecimal) -> bool {
    bps_decimal((config.safe_threshold_bps - config.inaction_zone_bps) as u64).le_spec(ltv)
        && ltv.le_spec(bps_decimal((config.safe_threshold_bps + config.inaction_zone_bps) as u64))
}

/// The outcome a leverage move would have, validated against the band.
#[derive(Clone, Copy, Debug, PartialEq, Eq, Structural)]
pub struct LeveragePlan {
    /// Value of the borrowed amount, converted to the common unit.
    pub borrow_amount_in_egld: FixedDecimal,
    /// Collateral value after borrowing and supplying the proceeds.
    pub new_total_collateral_in_egld: FixedDecimal,
    /// Debt value after borrowing.
    pub new_total_debt_in_egld: FixedDecimal,
    /// The ratio the move would land on.
    pub new_ltv_ratio_bps: FixedDecimal,
}

/// Raw payload of `amount * price`, truncated to the collateral's
/// precision (the shift drops the surplus fractional digits).
pub open spec fn converted_raw(amount: FixedDecimal, price: FixedDecimal, shift: nat) -> int {
    (amount.raw * price.raw) as int / (pow10(shift) as int)
}

/// Validates a leverage move: the borrowed value lands on both debt and
/// collateral, and the resulting ratio must still sit inside the band.
/// The move is only a plan; the host layer executes it afterwards.
pub fn plan_leverage(
    config: RiskConfig,
    total_collateral_in_egld: FixedDecimal,
    total_debt_in_egld: FixedDecimal,
    borrowed_amount: FixedDecimal,
    borrowed_token_price_in_egld: FixedDecimal,
) -> (r: Result<LeveragePlan, VaultError>)
    requires
        config.valid(),
        total_collateral_in_egld.precision == total_debt_in_egld.precision,
        total_collateral_in_egld.precision <= MAX_POW10,
        total_collateral_in_egld.precision + 8 <= u32::MAX,
        borrowed_amount.precision + borrowed_token_price_in_egld.precision
            >= total_collateral_in_egld.precision,
        borrowed_amount.precision + borrowed_token_price_in_egld.precision
            - total_collateral_in_egld.precision <= MAX_POW10,
        borrowed_amount.raw * borrowed_token_price_in_egld.raw <= u128::MAX,
        ({
            let add = converted_raw(
                borrowed_amount,
                borrowed_token_price_in_egld,
                (borrowed_amount.precision + borrowed_token_price_in_egld.precision
                    - total_collateral_in_egld.precision) as nat,
            );
            &&& total_collateral_in_egld.raw + add <= u128::MAX / 2
            &&& total_debt_in_egld.raw + add <= u128::MAX
            &&& (total_debt_in_egld.raw + add) * 100_000_000 <= u128::MAX
            &&& (total_collateral_in_egld.raw + add > 0 ==> ((total_debt_in_egld.raw + add)
                * 100_000_000 * pow10(total_collateral_in_egld.precision as nat)) as int / (
            total_collateral_in_egld.raw + add) <= u128::MAX)
        }),
    ensures
        ({
            let add = converted_raw(
                borrowed_amount,
                borrowed_token_price_in_egld,
                (borrowed_amount.precision + borrowed_token_price_in_egld.precision
                    - total_collateral_in_egld.precision) as nat,
            );
            let new_c = raised(total_collateral_in_egld, add);
            let new_d = raised(total_debt_in_egld, add);
            let new_ltv = ltv_ratio_bps_spec(new_c, new_d);
            &&& ((r is Ok) <==> ltv_within_config_band(config, new_ltv))
            &&& (r matches Ok(plan) ==> plan == (LeveragePlan {
                borrow_amount_in_egld: (FixedDecimal {
                    raw: add as u128,
                    precision: total_collateral_in_egld.precision,
                }),
                new_total_collateral_in_egld: new_c,
                new_total_debt_in_egld: new_d,
                new_ltv_ratio_bps: new_ltv,
            }))
            &&& (r is Err ==> (r matches Err(e) && e == VaultError::InvalidTargetLtvRatioBps))
        }),
{
    proof {
        lemma_pow10_small_values();
        crate::decimal::lemma_pow10_38_value();
        crate::decimal::lemma_pow10_increases(
            (borrowed_amount.precision + borrowed_token_price_in_egld.precision
                - total_collateral_in_egld.precision) as nat,
            38nat,
        );
        crate::decimal::lemma_pow10_pos(
            (borrowed_amount.precision + borrowed_token_price_in_egld.precision
                - total_collateral_in_egld.precision) as nat,
        );
        lemma_div_pos_is_pos(
            (borrowed_amount.raw * borrowed_token_price_in_egld.raw) as int,
            pow10(
                (borrowed_amount.precision + borrowed_token_price_in_egld.precision
                    - total_collateral_in_egld.precision) as nat,
            ) as int,
        );
        lemma_div_nonincreasing(
            (borrowed_amount.raw * borrowed_token_price_in_egld.raw) as int,
            pow10(
                (borrowed_amount.precision + borrowed_token_price_in_egld.precision
                    - total_collateral_in_egld.precision) as nat,
            ) as int,
        );
    }
    let shift: u32 = borrowed_amount.scale() + borrowed_token_price_in_egld.scale()
        - total_collateral_in_egld.scale();
    let unit = FixedDecimal::one(shift);
    let borrow_amount_in_egld = borrowed_amount.mul_div(
        borrowed_token_price_in_egld,
        unit,
    ).unwrap();
    let new_total_collateral_in_egld = total_collateral_in_egld.try_add(
        borrow_amount_in_egld,
    ).unwrap();
    let new_total_debt_in_egld = total_debt_in_egld.try_add(borrow_amount_in_egld).unwrap();
    let new_ltv_ratio_bps = calculate_ltv_ratio_bps(
        new_total_collateral_in_egld,
        new_total_debt_in_egld,
    );
    let safe_threshold_bps_md = FixedDecimal::from_bps(config.safe_threshold_bps);
    let inaction_zone_bps_md = FixedDecimal::from_bps(config.inaction_zone_bps);
    match require_target_ltv_ratio_within_suggested_bounds(
        &new_ltv_ratio_bps,
        &safe_threshold_bps_md,
        &inaction_zone_bps_md,
    ) {
        Ok(()) => Ok(
            LeveragePlan {
                borrow_amount_in_egld,
                new_total_collateral_in_egld,
                new_total_debt_in_egld,
                new_ltv_ratio_bps,
            },
        ),
        Err(e) => Err(e),
    }
}

/// The outcome a deleverage move would have, validated against the band.
#[derive(Clone, Copy, Debug, PartialEq, Eq, Structural)]
pub struct DeleveragePlan {
    /// Value of the withdrawn collateral, in the common unit.
    pub collateral_to_withdraw_in_egld: FixedDecimal,
    /// Collateral value after the repayment.
    pub new_total_collateral_in_egld: FixedDecimal,
    /// Debt value after the repayment.
    pub new_total_debt_in_egld: FixedDecimal,
    /// The ratio the move would land on.
    pub new_ltv_ratio_bps: FixedDecimal,
}

/// Raw payload of the withdrawn collateral's value in the common unit,
/// the proportional part `amount * totalValue / totalCollateral`.
pub open spec fn withdraw_value_raw(
    collateral_amount: FixedDecimal,
    total_collateral_in_egld: FixedDecimal,
    total_collateral: FixedDecimal,
) -> int {
    (collateral_amount.raw * total_collateral_in_egld.raw) as int / (total_collateral.raw as int)
}

/// Validates a deleverage move: the withdrawn collateral's value repays
/// debt one for one, so it must not exceed the collateral held or the
/// debt owed, and the resulting ratio must still sit inside the band.
pub fn plan_deleverage(
    config: RiskConfig,
    collateral_amount: FixedDecimal,
    total_collateral: FixedDecimal,
    total_collateral_in_egld: FixedDecimal,
    total_debt_in_egld: FixedDecimal,
) -> (r: Result<DeleveragePlan, VaultError>)
    requires
        config.valid(),
        total_collateral.raw > 0,
        total_collateral.raw <= u128::MAX / 2,
        collateral_amount.precision == total_collateral.precision,
        total_collateral_in_egld.precision == total_debt_in_egld.precision,
        total_collateral_in_egld.precision <= MAX_POW10,
        total_collateral_in_egld.precision + 8 <= u32::MAX,
        collateral_amount.precision + total_collateral_in_egld.precision <= u32::MAX,
        total_debt_in_egld.raw * 100_000_000 <= u128::MAX,
        total_collateral_in_egld.raw <= u128::MAX / 2,
        ({
            let cw = withdraw_value_raw(
                collateral_amount,
                total_collateral_in_egld,
                total_collateral,
            );
            collateral_amount.raw <= total_collateral.raw && cw <= total_debt_in_egld.raw
                && total_collateral_in_egld.raw - cw > 0 ==> ((total_debt_in_egld.raw - cw)
                * 100_000_000 * pow10(total_collateral_in_egld.precision as nat)) as int / (
            total_collateral_in_egld.raw - cw) <= u128::MAX
        }),
    ensures
        ({
            let cw = withdraw_value_raw(
                collateral_amount,
                total_collateral_in_egld,
                total_collateral,
            );
            let new_c = lowered(total_collateral_in_egld, cw);
            let new_d = lowered(total_debt_in_egld, cw);
            let new_ltv = ltv_ratio_bps_spec(new_c, new_d);
            &&& (collateral_amount.raw > total_collateral.raw ==> (r matches Err(e) && e
                == VaultError::InvalidCollateralToWithdraw))
            &&& (collateral_amount.raw <= total_collateral.raw && cw > total_debt_in_egld.raw
                ==> (r matches Err(e) && e == VaultError::InvalidCollateralToWithdrawWrtDebt))
            &&& (collateral_amount.raw <= total_collateral.raw && cw <= total_debt_in_egld.raw
                ==> ((r is Ok) <==> ltv_within_config_band(config, new_ltv)))
            &&& (collateral_amount.raw <= total_collateral.raw && cw <= total_debt_in_egld.raw
                && r is Err ==> (r matches Err(e) && e == VaultError::InvalidTargetLtvRatioBps))
            &&& (r matches Ok(plan) ==> plan == (DeleveragePlan {
                collateral_to_withdraw_in_egld: (FixedDecimal {
                    raw: cw as u128,
                    precision: total_collateral_in_egld.precision,
                }),
                new_total_collateral_in_egld: new_c,
                new_total_debt_in_egld: new_d,
                new_ltv_ratio_bps: new_ltv,
            }))
        }),
{
    if !collateral_amount.le(&total_collateral) {
        proof {
            // at one precision, the value order is the raw order
            crate::decimal::lemma_pow10_pos(collateral_amount.precision as nat);
            assert(collateral_amount.raw > total_collateral.raw) by (nonlinear_arith)
                requires
                    !collateral_amount.le_spec(total_collateral),
                    collateral_amount.precision == total_collateral.precision,
                    pow10(collateral_amount.precision as nat) >= 1,
            ;
        }
        return Err(VaultError::InvalidCollateralToWithdraw);
    }
    proof {
        crate::decimal::lemma_pow10_pos(collateral_amount.precision as nat);
        assert(collateral_amount.raw <= total_collateral.raw) by (nonlinear_arith)
            requires
                collateral_amount.le_spec(total_collateral),
                collateral_amount.precision == total_collateral.precision,
                pow10(collateral_amount.precision as nat) >= 1,
        ;
        // the proportional value cannot exceed the whole position's value
        assert(collateral_amount.raw * total_collateral_in_egld.raw <= total_collateral.raw
            * total_collateral_in_egld.raw) by (nonlinear_arith)
            requires
                collateral_amount.raw <= total_collateral.raw,
        ;
        lemma_div_is_ordered(
            (collateral_amount.raw * total_collateral_in_egld.raw) as int,
            (total_collateral.raw * total_collateral_in_egld.raw) as int,
            total_collateral.raw as int,
        );
        lemma_div_by_multiple(
            total_collateral_in_egld.raw as int,
            total_collateral.raw as int,
        );
        assert((total_collateral.raw * total_collateral_in_egld.raw) as int / (
        total_collateral.raw as int) == total_collateral_in_egld.raw as int)
            by (nonlinear_arith)
            requires
                total_collateral.raw > 0,
                (total_collateral_in_egld.raw * total_collateral.raw) as int / (
                total_collateral.raw as int) == total_collateral_in_egld.raw as int,
        ;
    }
    let collateral_to_withdraw_in_egld = collateral_amount.mul_div(
        total_collateral_in_egld,
        total_collateral,
    ).unwrap();
    if !collateral_to_withdraw_in_egld.le(&total_debt_in_egld) {
        proof {
            crate::decimal::lemma_pow10_pos(total_debt_in_egld.precision as nat);
            assert(collateral_to_withdraw_in_egld.raw > total_debt_in_egld.raw)
                by (nonlinear_arith)
                requires
                    !collateral_to_withdraw_in_egld.le_spec(total_debt_in_egld),
                    collateral_to_withdraw_in_egld.precision == total_debt_in_egld.precision,
                    pow10(total_debt_in_egld.precision as nat) >= 1,
            ;
        }
        return Err(VaultError::InvalidCollateralToWithdrawWrtDebt);
    }
    proof {
        crate::decimal::lemma_pow10_pos(total_debt_in_egld.precision as nat);
        assert(collateral_to_withdraw_in_egld.raw <= total_debt_in_egld.raw)
            by (nonlinear_arith)
            requires
                collateral_to_withdraw_in_egld.le_spec(total_debt_in_egld),
                collateral_to_withdraw_in_egld.precision == total_debt_in_egld.precision,
                pow10(total_debt_in_egld.precision as nat) >= 1,
        ;
    }
    let new_total_collateral_in_egld = total_collateral_in_egld.try_sub(
        collateral_to_withdraw_in_egld,
    ).unwrap();
    let new_total_debt_in_egld = total_debt_in_egld.try_sub(
        collateral_to_withdraw_in_egld,
    ).unwrap();
    let new_ltv_ratio_bps = calculate_ltv_ratio_bps(
        new_total_collateral_in_egld,
        new_total_debt_in_egld,
    );
    let safe_threshold_bps_md = FixedDecimal::from_bps(config.safe_threshold_bps);
    let inaction_zone_bps_md = FixedDecimal::from_bps(config.inaction_zone_bps);
    match require_target_ltv_ratio_within_suggested_bounds(
        &new_ltv_ratio_bps,
        &safe_threshold_bps_md,
        &inaction_zone_bps_md,
    ) {
        Ok(()) => Ok(
            DeleveragePlan {
                collateral_to_withdraw_in_egld,
                new_total_collateral_in_egld,
                new_total_debt_in_egld,
                new_ltv_ratio_bps,
            },
        ),
        Err(e) => Err(e),
    }
}

/// For every valid configuration, the suggested band straddles the safe
/// threshold: `lower <= safeThreshold <= upper` with `lower >= 0`, and the
/// upper bound stays at or below 100%.
pub proof fn lemma_band_bounds_straddle_threshold(config: RiskConfig)
    requires
        config.valid(),
    ensures
        0 <= band_lower(
            bps_decimal(config.safe_threshold_bps),
            bps_decimal(config.inaction_zone_bps),
        ).raw,
        band_lower(
            bps_decimal(config.safe_threshold_bps),
            bps_decimal(config.inaction_zone_bps),
        ).raw <= bps_decimal(config.safe_threshold_bps).raw,
        bps_decimal(config.safe_threshold_bps).raw <= band_upper(
            bps_decimal(config.safe_threshold_bps),
            bps_decimal(config.inaction_zone_bps),
        ).raw,
        band_upper(
            bps_decimal(config.safe_threshold_bps),
            bps_decimal(config.inaction_zone_bps),
        ).raw <= 100_000_000,
{
}

} // verus!
