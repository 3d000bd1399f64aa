//! Share-based equity accounting for deposits and withdrawals.
//!
//! Depositors pool into one leveraged position and hold shares of its
//! equity (collateral minus debt). A deposit mints shares at the current
//! equity-per-share price; a withdrawal burns shares and claims the same
//! proportion of both collateral and debt, repaying the debt share out of
//! the collateral share before anything is paid out.

use vstd::prelude::*;

verus! {

use vstd::arithmetic::div_mod::{
    lemma_div_by_multiple,
    lemma_div_is_ordered,
    lemma_fundamental_div_mod,
    lemma_mod_pos_bound,
};

use crate::decimal::{
    lemma_claim_within_total,
    lemma_pow10_pos,
    pow10,
    FixedDecimal,
    MAX_POW10,
};
use crate::errors::VaultError;

/// The vault-wide count of outstanding shares.
///
/// The total only moves through [`ShareLedger::mint`] and
/// [`ShareLedger::burn`], so over any sequence of deposits and
/// withdrawals it equals the initial total plus all minted less all
/// burned shares.
#[derive(Clone, Copy, Debug, PartialEq, Eq, Structural)]
pub struct ShareLedger {
    /// Total outstanding shares, at the share token's precision.
    pub total_shares: FixedDecimal,
}

impl ShareLedger {
    /// An empty ledger at the share token's precision.
    pub fn new(precision: u32) -> (r: Self)
        ensures
            r.total_shares.raw == 0,
            r.total_shares.precision == precision,
    {
        ShareLedger { total_shares: FixedDecimal::zero(precision) }
    }

    /// Adds freshly minted shares to the total.
    pub fn mint(&mut self, amount: FixedDecimal)
        requires
            old(self).total_shares.precision == amount.precision,
            old(self).total_shares.raw + amount.raw <= u128::MAX,
        ensures
            final(self).total_shares.raw == old(self).total_shares.raw + amount.raw,
            final(self).total_shares.precision == old(self).total_shares.precision,
    {
        self.total_shares = self.total_shares.try_add(amount).unwrap();
    }

    /// Removes burned shares from the total.
    pub fn burn(&mut self, amount: FixedDecimal)
        requires
            old(self).total_shares.precision == amount.precision,
            amount.raw <= old(self).total_shares.raw,
        ensures
            final(self).total_shares.raw == old(self).total_shares.raw - amount.raw,
            final(self).total_shares.precision == old(self).total_shares.precision,
    {
        self.total_shares = self.total_shares.try_sub(amount).unwrap();
    }
}

/// One movement of the share total.
#[derive(Clone, Copy, Debug, PartialEq, Eq, Structural)]
pub enum ShareEvent {
    /// A deposit minted this many raw share units.
    Mint(u128),
    /// A withdrawal burned this many raw share units.
    Burn(u128),
}

/// The share total after applying the events in order, as an integer (a
/// burn of more than the balance would be rejected by [`ShareLedger::burn`]).
pub open spec fn ledger_total_after(initial: int, events: Seq<ShareEvent>) -> int
    decreases events.len(),
{
    if events.len() == 0 {
        initial
    } else {
        match events.last() {
            ShareEvent::Mint(a) => ledger_total_after(initial, events.drop_last()) + a,
            ShareEvent::Burn(a) => ledger_total_after(initial, events.drop_last()) - a,
        }
    }
}

/// Sum of all shares minted by the events.
pub open spec fn minted_sum(events: Seq<ShareEvent>) -> int
    decreases events.len(),
{
    if events.len() == 0 {
        0
    } else {
        minted_sum(events.drop_last()) + match events.last() {
            ShareEvent::Mint(a) => a as int,
            ShareEvent::Burn(_) => 0,
        }
    }
}

/// Sum of all shares burned by the events.
pub open spec fn burned_sum(events: Seq<ShareEvent>) -> int
    decreases events.len(),
{
    if events.len() == 0 {
        0
    } else {
        burned_sum(events.drop_last()) + match events.last() {
            ShareEvent::Mint(_) => 0,
            ShareEvent::Burn(a) => a as int,
        }
    }
}

/// Share conservation: over any sequence of deposits and withdrawals the
/// outstanding total is the initial total plus everything minted less
/// everything burned.
pub proof fn lemma_share_conservation(initial: int, events: Seq<ShareEvent>)
    ensures
        ledger_total_after(initial, events) == initial + minted_sum(events) - burned_sum(events),
    decreases events.len(),
{
    if events.len() > 0 {
        lemma_share_conservation(initial, events.drop_last());
    }
}

/// Sum of the proportional claims `totalCollateral * s / totalShares`
/// over a sequence of holdings `s`.
pub open spec fn claims_sum(holdings: Seq<u128>, total_collateral: int, total_shares: int) -> int
    decreases holdings.len(),
{
    if holdings.len() == 0 {
        0
    } else {
        claims_sum(holdings.drop_last(), total_collateral, total_shares) + (total_collateral
            * holdings.last()) / total_shares
    }
}

/// Sum of a sequence of holdings.
pub open spec fn holdings_sum(holdings: Seq<u128>) -> int
    decreases holdings.len(),
{
    if holdings.len() == 0 {
        0
    } else {
        holdings_sum(holdings.drop_last()) + holdings.last()
    }
}

/// One step of the claims bound: each truncated claim loses less than
/// one raw unit against the exact proportion.
proof fn lemma_claims_sum_bounds(holdings: Seq<u128>, total_collateral: int, total_shares: int)
    requires
        total_shares > 0,
        total_collateral >= 0,
    ensures
        claims_sum(holdings, total_collateral, total_shares) <= (total_collateral * holdings_sum(
            holdings,
        )) / total_shares,
        claims_sum(holdings, total_collateral, total_shares) >= (total_collateral * holdings_sum(
            holdings,
        )) / total_shares - holdings.len(),
    decreases holdings.len(),
{
    if holdings.len() == 0 {
        assert(total_collateral * 0 == 0) by (nonlinear_arith);
    } else {
        let rest = holdings.drop_last();
        let s_last = holdings.last() as int;
        let s_rest = holdings_sum(rest);
        lemma_claims_sum_bounds(rest, total_collateral, total_shares);
        assert(s_rest >= 0) by {
            lemma_holdings_sum_nonneg(rest);
        }
        assert(total_collateral * s_rest >= 0 && total_collateral * s_last >= 0)
            by (nonlinear_arith)
            requires
                total_collateral >= 0,
                s_rest >= 0,
                s_last >= 0,
        ;
        assert(total_collateral * (s_rest + s_last) == total_collateral * s_rest
            + total_collateral * s_last) by (nonlinear_arith);
        lemma_div_sum_bounds(total_collateral * s_rest, total_collateral * s_last, total_shares);
        assert(claims_sum(holdings, total_collateral, total_shares) == claims_sum(
            rest,
            total_collateral,
            total_shares,
        ) + (total_collateral * s_last) / total_shares);
        assert(holdings_sum(holdings) == s_rest + s_last);
        assert(total_collateral * holdings_sum(holdings) == total_collateral * s_rest
            + total_collateral * s_last);
        assert((total_collateral * s_rest) / total_shares + (total_collateral * s_last)
            / total_shares >= (total_collateral * s_rest + total_collateral * s_last)
            / total_shares - 1);
    }
}

/// Nonnegativity of a holdings sum.
proof fn lemma_holdings_sum_nonneg(holdings: Seq<u128>)
    ensures
        holdings_sum(holdings) >= 0,
    decreases holdings.len(),
{
    if holdings.len() > 0 {
        lemma_holdings_sum_nonneg(holdings.drop_last());
    }
}

/// Truncated division loses less than one unit per summand:
/// `(a+b)/d - 1 < a/d + b/d <= (a+b)/d`.
proof fn lemma_div_sum_bounds(a: int, b: int, d: int)
    requires
        a >= 0,
        b >= 0,
        d > 0,
    ensures
        a / d + b / d <= (a + b) / d,
        a / d + b / d > (a + b) / d - 2,
        a % d + b % d < d ==> a / d + b / d == (a + b) / d,
    decreases 0int,
{
    lemma_fundamental_div_mod(a, d);
    lemma_fundamental_div_mod(b, d);
    lemma_mod_pos_bound(a, d);
    lemma_mod_pos_bound(b, d);
    let qa = a / d;
    let qb = b / d;
    let ra = a % d;
    let rb = b % d;
    assert(a + b == (qa + qb) * d + (ra + rb)) by (nonlinear_arith)
        requires
            a == d * qa + ra,
            b == d * qb + rb,
    ;
    if ra + rb < d {
        vstd::arithmetic::div_mod::lemma_fundamental_div_mod_converse(
            a + b,
            d,
            qa + qb,
            ra + rb,
        );
    } else {
        assert(a + b == (qa + qb + 1) * d + (ra + rb - d)) by (nonlinear_arith)
            requires
                a + b == (qa + qb) * d + (ra + rb),
        ;
        vstd::arithmetic::div_mod::lemma_fundamental_div_mod_converse(
            a + b,
            d,
            qa + qb + 1,
            ra + rb - d,
        );
    }
}

/// Proportional fairness of withdrawals: when holdings covering the whole
/// share supply each claim `totalCollateral * s / totalShares` (the very
/// amount [`calculate_collateral_share_to_withdraw`] grants), the claims
/// add up to the whole collateral, short of it by at most one raw unit
/// per holder (the loss to integer truncation).
pub proof fn lemma_proportional_claims_cover_collateral(
    holdings: Seq<u128>,
    total_collateral: int,
    total_shares: int,
)
    requires
        total_shares > 0,
        total_collateral >= 0,
        holdings_sum(holdings) == total_shares,
    ensures
        claims_sum(holdings, total_collateral, total_shares) <= total_collateral,
        claims_sum(holdings, total_collateral, total_shares) >= total_collateral
            - holdings.len(),
{
    lemma_claims_sum_bounds(holdings, total_collateral, total_shares);
    lemma_div_by_multiple(total_collateral, total_shares);
    assert(total_collateral * total_shares == total_shares * total_collateral)
        by (nonlinear_arith);
}

/// Shares minted for a follow-up deposit: the deposit buys shares at the
/// current equity-per-share price, `totalShares * deposit / equity` with
/// `equity = totalCollateral - totalDebt`, truncated at the share
/// precision. An insolvent position (no positive equity) cannot be
/// joined.
pub fn calculate_deposit_share_amount(
    total_shares: FixedDecimal,
    added_supply_in_egld: FixedDecimal,
    total_current_supply_in_egld: FixedDecimal,
    total_current_debt_in_egld: FixedDecimal,
) -> (r: Result<FixedDecimal, VaultError>)
    requires
        total_shares.precision == added_supply_in_egld.precision,
        total_shares.precision == total_current_supply_in_egld.precision,
        total_shares.precision == total_current_debt_in_egld.precision,
        total_shares.precision + total_shares.precision <= u32::MAX,
        total_current_supply_in_egld.raw <= u128::MAX / 2,
        total_current_supply_in_egld.raw > total_current_debt_in_egld.raw ==> (total_shares.raw
            * added_supply_in_egld.raw) as int / (total_current_supply_in_egld.raw
            - total_current_debt_in_egld.raw) <= u128::MAX,
    ensures
        (r is Ok) <==> total_current_supply_in_egld.raw > total_current_debt_in_egld.raw,
        r is Err ==> (r matches Err(e) && e == VaultError::InvalidCollateralToDebtRatio),
        r matches Ok(v) ==> v.precision == total_shares.precision && v.raw == (total_shares.raw
            * added_supply_in_egld.raw) as int / (total_current_supply_in_egld.raw
            - total_current_debt_in_egld.raw),
{
    proof {
        lemma_pow10_pos(total_current_supply_in_egld.precision as nat);
    }
    if !total_current_supply_in_egld.gt(&total_current_debt_in_egld) {
        proof {
            assert(total_current_supply_in_egld.raw <= total_current_debt_in_egld.raw)
                by (nonlinear_arith)
                requires
                    !total_current_debt_in_egld.lt_spec(total_current_supply_in_egld),
                    total_current_supply_in_egld.precision
                        == total_current_debt_in_egld.precision,
                    pow10(total_current_supply_in_egld.precision as nat) >= 1,
            ;
        }
        return Err(VaultError::InvalidCollateralToDebtRatio);
    }
    proof {
        assert(total_current_supply_in_egld.raw > total_current_debt_in_egld.raw)
            by (nonlinear_arith)
            requires
                total_current_debt_in_egld.lt_spec(total_current_supply_in_egld),
                total_current_supply_in_egld.precision == total_current_debt_in_egld.precision,
                pow10(total_current_supply_in_egld.precision as nat) >= 1,
        ;
    }
    let equity = total_current_supply_in_egld.try_sub(total_current_debt_in_egld).unwrap();
    Ok(total_shares.mul_div(added_supply_in_egld, equity).unwrap())
}

/// The withdrawer's proportional claim on the collateral:
/// `totalCollateral * shareAmount / totalShares`, truncated at the
/// collateral's precision.
pub fn calculate_collateral_share_to_withdraw(
    total_shares: FixedDecimal,
    share_amount: FixedDecimal,
    total_collateral: FixedDecimal,
) -> (r: FixedDecimal)
    requires
        total_shares.raw > 0,
        total_shares.raw <= u128::MAX / 2,
        share_amount.precision == total_shares.precision,
        total_collateral.precision + share_amount.precision <= u32::MAX,
        (total_collateral.raw * share_amount.raw) as int / (total_shares.raw as int)
            <= u128::MAX,
    ensures
        r.precision == total_collateral.precision,
        r.raw == (total_collateral.raw * share_amount.raw) as int / (total_shares.raw as int),
{
    total_collateral.mul_div(share_amount, total_shares).unwrap()
}

/// The withdrawer's proportional share of the debt:
/// `totalDebt * shareAmount / totalShares`, truncated at the debt's
/// precision.
pub fn calculate_debt_share_to_repay(
    total_shares: FixedDecimal,
    share_amount: FixedDecimal,
    total_debt: FixedDecimal,
) -> (r: FixedDecimal)
    requires
        total_shares.raw > 0,
        total_shares.raw <= u128::MAX / 2,
        share_amount.precision == total_shares.precision,
        total_debt.precision + share_amount.precision <= u32::MAX,
        (total_debt.raw * share_amount.raw) as int / (total_shares.raw as int) <= u128::MAX,
    ensures
        r.precision == total_debt.precision,
        r.raw == (total_debt.raw * share_amount.raw) as int / (total_shares.raw as int),
{
    total_debt.mul_div(share_amount, total_shares).unwrap()
}

/// The shares a deposit mints.
///
/// The first deposit into an empty ledger mints shares one for one with
/// the supplied amount and must find no lending position open; every
/// later deposit buys shares at the current equity-per-share price and
/// must find one open. A deposit of zero, or one small enough to mint no
/// shares at all, is rejected.
pub fn plan_deposit(
    total_shares: FixedDecimal,
    supply_amount: FixedDecimal,
    supply_value_in_egld: FixedDecimal,
    total_supplied_in_egld: FixedDecimal,
    total_borrowed_in_egld: FixedDecimal,
    lending_position_nonce: u64,
) -> (r: Result<FixedDecimal, VaultError>)
    requires
        total_shares.precision == supply_amount.precision,
        total_shares.precision == supply_value_in_egld.precision,
        total_shares.precision == total_supplied_in_egld.precision,
        total_shares.precision == total_borrowed_in_egld.precision,
        total_shares.precision + total_shares.precision <= u32::MAX,
        total_supplied_in_egld.raw <= u128::MAX / 2,
        total_supplied_in_egld.raw > total_borrowed_in_egld.raw ==> (total_shares.raw
            * supply_value_in_egld.raw) as int / (total_supplied_in_egld.raw
            - total_borrowed_in_egld.raw) <= u128::MAX,
    ensures
        supply_amount.raw == 0 ==> (r matches Err(e) && e == VaultError::InvalidDepositAmount),
        supply_amount.raw > 0 && total_shares.raw == 0 && lending_position_nonce != 0 ==> (
        r matches Err(e) && e == VaultError::LendingPositionAlreadyExists),
        supply_amount.raw > 0 && total_shares.raw == 0 && lending_position_nonce == 0 ==> (
        r matches Ok(v) && v == supply_amount),
        supply_amount.raw > 0 && total_shares.raw > 0 && lending_position_nonce == 0 ==> (
        r matches Err(e) && e == VaultError::LendingPositionDoesNotExist),
        supply_amount.raw > 0 && total_shares.raw > 0 && lending_position_nonce != 0 ==> ({
            let minted = (total_shares.raw * supply_value_in_egld.raw) as int / (
            total_supplied_in_egld.raw - total_borrowed_in_egld.raw);
            &&& (total_supplied_in_egld.raw <= total_borrowed_in_egld.raw ==> (r matches Err(e)
                && e == VaultError::InvalidCollateralToDebtRatio))
            &&& (total_supplied_in_egld.raw > total_borrowed_in_egld.raw && minted == 0 ==> (
            r matches Err(e) && e == VaultError::InvalidDepositAmount))
            &&& (total_supplied_in_egld.raw > total_borrowed_in_egld.raw && minted > 0 ==> (
            r matches Ok(v) && v.raw == minted && v.precision == total_shares.precision))
        }),
{
    if !supply_amount.is_gt_zero() {
        return Err(VaultError::InvalidDepositAmount);
    }
    if total_shares.is_zero() {
        if lending_position_nonce != 0 {
            return Err(VaultError::LendingPositionAlreadyExists);
        }
        Ok(supply_amount)
    } else {
        if lending_position_nonce == 0 {
            return Err(VaultError::LendingPositionDoesNotExist);
        }
        let share_amount = match calculate_deposit_share_amount(
            total_shares,
            supply_value_in_egld,
            total_supplied_in_egld,
            total_borrowed_in_egld,
        ) {
            Ok(v) => v,
            Err(e) => {
                return Err(e);
            },
        };
        if !share_amount.is_gt_zero() {
            return Err(VaultError::InvalidDepositAmount);
        }
        Ok(share_amount)
    }
}

/// What a withdrawal settles and pays out.
#[derive(Clone, Copy, Debug, PartialEq, Eq, Structural)]
pub struct WithdrawPlan {
    /// The withdrawer's proportional claim on the collateral.
    pub user_collateral_share: FixedDecimal,
    /// The withdrawer's proportional share of the debt.
    pub user_debt_share_in_egld: FixedDecimal,
    /// Collateral that must repay the debt share first (zero when the
    /// position carries no debt).
    pub collateral_needed_for_repayment: FixedDecimal,
    /// What is actually sent to the withdrawer.
    pub amount_to_send: FixedDecimal,
}

/// Settles a withdrawal of `shareAmount` shares.
///
/// The withdrawer claims `shareAmount / totalShares` of both collateral
/// and debt. When the position carries debt, the collateral share must
/// first cover repaying the debt share, converted into collateral units
/// at the collateral token's price; only the remainder is paid out.
pub fn plan_withdraw(
    total_shares: FixedDecimal,
    share_amount: FixedDecimal,
    total_collateral: FixedDecimal,
    total_debt_in_egld: FixedDecimal,
    supplied_token_price_in_egld: FixedDecimal,
    has_debt: bool,
) -> (r: Result<WithdrawPlan, VaultError>)
    requires
        total_shares.precision == share_amount.precision,
        total_shares.precision == total_collateral.precision,
        total_shares.precision == total_debt_in_egld.precision,
        total_shares.precision == supplied_token_price_in_egld.precision,
        total_shares.precision <= MAX_POW10,
        total_shares.precision + total_shares.precision <= u32::MAX,
        share_amount.raw <= total_shares.raw,
        total_shares.raw <= u128::MAX / 2,
        has_debt && total_debt_in_egld.raw > 0 ==> supplied_token_price_in_egld.raw > 0
            && supplied_token_price_in_egld.raw <= u128::MAX / 2 && (total_debt_in_egld.raw
            * pow10(total_shares.precision as nat)) as int / (
        supplied_token_price_in_egld.raw as int) <= u128::MAX,
    ensures
        share_amount.raw == 0 ==> (r matches Err(e) && e == VaultError::InvalidShareTokenPayment),
        share_amount.raw > 0 ==> ({
            let cs = (total_collateral.raw * share_amount.raw) as int / (total_shares.raw as int);
            let ds = (total_debt_in_egld.raw * share_amount.raw) as int / (
            total_shares.raw as int);
            let settling = has_debt && ds > 0;
            let needed = if settling {
                (ds * pow10(total_shares.precision as nat)) as int / (
                supplied_token_price_in_egld.raw as int)
            } else {
                0
            };
            &&& (cs == 0 ==> (r matches Err(e) && e == VaultError::InvalidCollateralToWithdraw))
            &&& (cs > 0 && settling && cs < needed ==> (r matches Err(e) && e
                == VaultError::InsufficientCollateralForDebt))
            &&& (cs > 0 && needed <= cs ==> (r matches Ok(plan)
                && plan.user_collateral_share.raw == cs && plan.user_debt_share_in_egld.raw == ds
                && plan.collateral_needed_for_repayment.raw == needed && plan.amount_to_send.raw
                == cs - needed && plan.user_collateral_share.precision
                == total_collateral.precision && plan.user_debt_share_in_egld.precision
                == total_debt_in_egld.precision && plan.collateral_needed_for_repayment.precision
                == total_shares.precision && plan.amount_to_send.precision
                == total_collateral.precision))
        }),
{
    if !share_amount.is_gt_zero() {
        return Err(VaultError::InvalidShareTokenPayment);
    }
    proof {
        lemma_claim_within_total(
            total_collateral.raw as int,
            share_amount.raw as int,
            total_shares.raw as int,
        );
        lemma_claim_within_total(
            total_debt_in_egld.raw as int,
            share_amount.raw as int,
            total_shares.raw as int,
        );
    }
    let user_collateral_share = calculate_collateral_share_to_withdraw(
        total_shares,
        share_amount,
        total_collateral,
    );
    if !user_collateral_share.is_gt_zero() {
        return Err(VaultError::InvalidCollateralToWithdraw);
    }
    let user_debt_share_in_egld = calculate_debt_share_to_repay(
        total_shares,
        share_amount,
        total_debt_in_egld,
    );
    if user_debt_share_in_egld.is_gt_zero() && has_debt {
        proof {
            // a positive debt share means the position carries debt
            assert(total_debt_in_egld.raw > 0) by (nonlinear_arith)
                requires
                    (total_debt_in_egld.raw * share_amount.raw) as int / (
                    total_shares.raw as int) > 0,
                    total_shares.raw > 0,
                    total_debt_in_egld.raw == 0 ==> total_debt_in_egld.raw * share_amount.raw
                        == 0,
            ;
            assert(total_debt_in_egld.raw * share_amount.raw == 0 || total_debt_in_egld.raw > 0)
                by (nonlinear_arith);
            // the conversion's quotient is monotone in the debt share
            lemma_pow10_pos(total_shares.precision as nat);
            assert(user_debt_share_in_egld.raw * pow10(total_shares.precision as nat)
                <= total_debt_in_egld.raw * pow10(total_shares.precision as nat))
                by (nonlinear_arith)
                requires
                    user_debt_share_in_egld.raw <= total_debt_in_egld.raw,
            ;
            lemma_div_is_ordered(
                (user_debt_share_in_egld.raw * pow10(total_shares.precision as nat)) as int,
                (total_debt_in_egld.raw * pow10(total_shares.precision as nat)) as int,
                supplied_token_price_in_egld.raw as int,
            );
        }
        let one_unit = FixedDecimal::one(total_shares.scale());
        let collateral_needed_for_repayment = user_debt_share_in_egld.mul_div(
            one_unit,
            supplied_token_price_in_egld,
        ).unwrap();
        proof {
            crate::decimal::lemma_same_precision_order(
                collateral_needed_for_repayment,
                user_collateral_share,
            );
        }
        if user_collateral_share.ge(&collateral_needed_for_repayment) {
            let amount_to_send = user_collateral_share.try_sub(
                collateral_needed_for_repayment,
            ).unwrap();
            Ok(
                WithdrawPlan {
                    user_collateral_share,
                    user_debt_share_in_egld,
                    collateral_needed_for_repayment,
                    amount_to_send,
                },
            )
        } else {
            Err(VaultError::InsufficientCollateralForDebt)
        }
    } else {
        Ok(
            WithdrawPlan {
                user_collateral_share,
                user_debt_share_in_egld,
                collateral_needed_for_repayment: FixedDecimal::zero(total_shares.scale()),
                amount_to_send: user_collateral_share,
            },
        )
    }
}

/// The vault's lending position as the lending protocol reports it,
/// together with the oracle prices needed to value it.
#[derive(Clone, Copy, Debug, PartialEq, Eq, Structural)]
pub struct LendingInfo {
    /// Collateral held, in collateral token units.
    pub total_supplied: FixedDecimal,
    /// Oracle price of the collateral token in dollars.
    pub supplied_token_price_in_usd: FixedDecimal,
    /// Collateral value in the common unit.
    pub total_supply_in_egld: FixedDecimal,
    /// Debt owed, in borrowed token units.
    pub total_borrowed: FixedDecimal,
    /// Oracle price of the borrowed token in dollars.
    pub borrowed_token_price_in_usd: FixedDecimal,
    /// Debt value in the common unit.
    pub total_debt_in_egld: FixedDecimal,
    /// Oracle price of the common unit in dollars.
    pub egld_price_in_usd: FixedDecimal,
    /// The lending protocol's health factor for the position.
    pub health_factor: FixedDecimal,
    /// Whether the position can currently be liquidated.
    pub can_be_liquidated: bool,
    /// Collateral value liquidators could seize, in the common unit.
    pub liquidation_collateral_available_in_egld: FixedDecimal,
}

impl LendingInfo {
    /// Bundles the queried position state into one report.
    #[allow(clippy::too_many_arguments)]
    pub fn new(
        total_supplied: FixedDecimal,
        supplied_token_price_in_usd: FixedDecimal,
        total_supply_in_egld: FixedDecimal,
        total_borrowed: FixedDecimal,
        borrowed_token_price_in_usd: FixedDecimal,
        total_debt_in_egld: FixedDecimal,
        egld_price_in_usd: FixedDecimal,
        health_factor: FixedDecimal,
        can_be_liquidated: bool,
        liquidation_collateral_available_in_egld: FixedDecimal,
    ) -> (r: Self)
        ensures
            r.total_supplied == total_supplied,
            r.supplied_token_price_in_usd == supplied_token_price_in_usd,
            r.total_supply_in_egld == total_supply_in_egld,
            r.total_borrowed == total_borrowed,
            r.borrowed_token_price_in_usd == borrowed_token_price_in_usd,
            r.total_debt_in_egld == total_debt_in_egld,
            r.egld_price_in_usd == egld_price_in_usd,
            r.health_factor == health_factor,
            r.can_be_liquidated == can_be_liquidated,
            r.liquidation_collateral_available_in_egld
                == liquidation_collateral_available_in_egld,
    {
        LendingInfo {
            total_supplied,
            supplied_token_price_in_usd,
            total_supply_in_egld,
            total_borrowed,
            borrowed_token_price_in_usd,
            total_debt_in_egld,
            egld_price_in_usd,
            health_factor,
            can_be_liquidated,
            liquidation_collateral_available_in_egld,
        }
    }
}

/// The report's fields, flattened in declaration order for hosts whose
/// interface wants the values one by one.
pub type LendingInfoMultiValue = (
    FixedDecimal,
    FixedDecimal,
    FixedDecimal,
    FixedDecimal,
    FixedDecimal,
    FixedDecimal,
    FixedDecimal,
    FixedDecimal,
    bool,
    FixedDecimal,
);

impl LendingInfo {
    /// Flattens the report into a tuple of its fields.
    pub fn into_multi_value(self) -> (r: LendingInfoMultiValue)
        ensures
            r == (
                self.total_supplied,
                self.supplied_token_price_in_usd,
                self.total_supply_in_egld,
                self.total_borrowed,
                self.borrowed_token_price_in_usd,
                self.total_debt_in_egld,
                self.egld_price_in_usd,
                self.health_factor,
                self.can_be_liquidated,
                self.liquidation_collateral_available_in_egld,
            ),
    {
        (
            self.total_supplied,
            self.supplied_token_price_in_usd,
            self.total_supply_in_egld,
            self.total_borrowed,
            self.borrowed_token_price_in_usd,
            self.total_debt_in_egld,
            self.egld_price_in_usd,
            self.health_factor,
            self.can_be_liquidated,
            self.liquidation_collateral_available_in_egld,
        )
    }
}

/// Total value locked in dollars: the supplied value less the borrowed
/// value, each token total priced by its oracle price.
pub fn get_tvl(lending_info: &LendingInfo) -> (r: FixedDecimal)
    requires
        lending_info.total_supplied.raw * lending_info.supplied_token_price_in_usd.raw
            <= u128::MAX,
        lending_info.total_supplied.precision + lending_info.supplied_token_price_in_usd.precision
            <= u32::MAX,
        lending_info.total_borrowed.precision + lending_info.borrowed_token_price_in_usd.precision
            == lending_info.total_supplied.precision
            + lending_info.supplied_token_price_in_usd.precision,
        lending_info.total_borrowed.raw * lending_info.borrowed_token_price_in_usd.raw
            <= lending_info.total_supplied.raw * lending_info.supplied_token_price_in_usd.raw,
    ensures
        r.raw == lending_info.total_supplied.raw * lending_info.supplied_token_price_in_usd.raw
            - lending_info.total_borrowed.raw * lending_info.borrowed_token_price_in_usd.raw,
        r.precision == lending_info.total_supplied.precision
            + lending_info.supplied_token_price_in_usd.precision,
{
    let total_supplied_value = lending_info.total_supplied.mul(
        lending_info.supplied_token_price_in_usd,
    );
    let total_borrowed_value = lending_info.total_borrowed.mul(
        lending_info.borrowed_token_price_in_usd,
    );
    total_supplied_value.try_sub(total_borrowed_value).unwrap()
}

} // verus!
