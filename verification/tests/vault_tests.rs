//! Exercises the share ledger and the deposit/withdraw accounting.

use liquorix::decimal::FixedDecimal;
use liquorix::errors::VaultError;
use liquorix::vault::{
    calculate_collateral_share_to_withdraw, calculate_debt_share_to_repay,
    calculate_deposit_share_amount, get_tvl, plan_deposit, plan_withdraw, LendingInfo,
    ShareLedger,
};

#[test]
fn test_deposit_fails_with_zero_amount() {
    // Deposit should fail with zero amount
    let r = plan_deposit(
        FixedDecimal::zero(18),
        FixedDecimal::zero(18),
        FixedDecimal::zero(18),
        FixedDecimal::zero(18),
        FixedDecimal::zero(18),
        0,
    );
    assert_eq!(r, Err(VaultError::InvalidDepositAmount));
    assert_eq!(
        r.unwrap_err().message(),
        "Invalid deposit: Amount must be greater than zero."
    );
}

#[test]
fn first_deposit_mints_one_share_per_unit() {
    // depositing V into an empty ledger mints exactly V shares
    let deposit = FixedDecimal::from_raw_units(123_456_789, 18);
    let minted = plan_deposit(
        FixedDecimal::zero(18),
        deposit,
        FixedDecimal::zero(18),
        FixedDecimal::zero(18),
        FixedDecimal::zero(18),
        0,
    )
    .unwrap();
    assert_eq!(minted, deposit);
}

#[test]
fn first_deposit_needs_no_open_position() {
    let deposit = FixedDecimal::from_raw_units(100, 18);
    let r = plan_deposit(
        FixedDecimal::zero(18),
        deposit,
        FixedDecimal::zero(18),
        FixedDecimal::zero(18),
        FixedDecimal::zero(18),
        7,
    );
    assert_eq!(r, Err(VaultError::LendingPositionAlreadyExists));
}

#[test]
fn follow_up_deposit_needs_an_open_position() {
    let total_shares = FixedDecimal::from_raw_units(1000, 0);
    let deposit = FixedDecimal::from_raw_units(100, 0);
    let r = plan_deposit(
        total_shares,
        deposit,
        deposit,
        FixedDecimal::from_raw_units(1000, 0),
        FixedDecimal::from_raw_units(400, 0),
        0,
    );
    assert_eq!(r, Err(VaultError::LendingPositionDoesNotExist));
}

#[test]
fn follow_up_deposit_buys_shares_at_the_equity_price() {
    // equity 600 for 1000 shares; a deposit worth 120 buys 200 shares
    let total_shares = FixedDecimal::from_raw_units(1000, 0);
    let minted = plan_deposit(
        total_shares,
        FixedDecimal::from_raw_units(120, 0),
        FixedDecimal::from_raw_units(120, 0),
        FixedDecimal::from_raw_units(1000, 0),
        FixedDecimal::from_raw_units(400, 0),
        1,
    )
    .unwrap();
    assert_eq!(minted.into_raw_units(), 200);
}

#[test]
fn insolvent_position_cannot_be_joined() {
    let total_shares = FixedDecimal::from_raw_units(1000, 0);
    let r = calculate_deposit_share_amount(
        total_shares,
        FixedDecimal::from_raw_units(120, 0),
        FixedDecimal::from_raw_units(400, 0),
        FixedDecimal::from_raw_units(400, 0),
    );
    assert_eq!(r, Err(VaultError::InvalidCollateralToDebtRatio));
    assert_eq!(
        r.unwrap_err().message(),
        "Invalid collateral: Total supply must be greater than total debt."
    );
}

#[test]
fn proportional_shares_of_collateral_and_debt() {
    let total_shares = FixedDecimal::from_raw_units(1000, 0);
    let share_amount = FixedDecimal::from_raw_units(100, 0);
    let collateral = calculate_collateral_share_to_withdraw(
        total_shares,
        share_amount,
        FixedDecimal::from_raw_units(1000, 0),
    );
    assert_eq!(collateral.into_raw_units(), 100);
    let debt = calculate_debt_share_to_repay(
        total_shares,
        share_amount,
        FixedDecimal::from_raw_units(400, 0),
    );
    assert_eq!(debt.into_raw_units(), 40);
}

#[test]
fn withdraw_with_debt_settles_before_paying_out() {
    // 100 of 1000 shares, collateral 1000, debt 400, price one to one:
    // collateral share 100, debt share 40, amount sent 60
    let plan = plan_withdraw(
        FixedDecimal::from_raw_units(1000, 0),
        FixedDecimal::from_raw_units(100, 0),
        FixedDecimal::from_raw_units(1000, 0),
        FixedDecimal::from_raw_units(400, 0),
        FixedDecimal::one(0),
        true,
    )
    .unwrap();
    assert_eq!(plan.user_collateral_share.into_raw_units(), 100);
    assert_eq!(plan.user_debt_share_in_egld.into_raw_units(), 40);
    assert_eq!(plan.collateral_needed_for_repayment.into_raw_units(), 40);
    assert_eq!(plan.amount_to_send.into_raw_units(), 60);
}

#[test]
fn withdraw_without_debt_pays_the_whole_collateral_share() {
    let plan = plan_withdraw(
        FixedDecimal::from_raw_units(1000, 0),
        FixedDecimal::from_raw_units(100, 0),
        FixedDecimal::from_raw_units(1000, 0),
        FixedDecimal::zero(0),
        FixedDecimal::one(0),
        false,
    )
    .unwrap();
    assert_eq!(plan.user_debt_share_in_egld.into_raw_units(), 0);
    assert_eq!(plan.collateral_needed_for_repayment.into_raw_units(), 0);
    assert_eq!(plan.amount_to_send.into_raw_units(), 100);
}

#[test]
fn withdraw_rejects_zero_shares_and_uncovered_debt() {
    let r = plan_withdraw(
        FixedDecimal::from_raw_units(1000, 0),
        FixedDecimal::zero(0),
        FixedDecimal::from_raw_units(1000, 0),
        FixedDecimal::from_raw_units(400, 0),
        FixedDecimal::one(0),
        true,
    );
    assert_eq!(r, Err(VaultError::InvalidShareTokenPayment));

    // a collateral share of zero cannot cover anything
    let r = plan_withdraw(
        FixedDecimal::from_raw_units(1000, 0),
        FixedDecimal::from_raw_units(5, 0),
        FixedDecimal::from_raw_units(100, 0),
        FixedDecimal::from_raw_units(400, 0),
        FixedDecimal::one(0),
        true,
    );
    assert_eq!(r, Err(VaultError::InvalidCollateralToWithdraw));

    // debt worth more than the collateral share: price of the
    // collateral token is halved, doubling the collateral needed
    let r = plan_withdraw(
        FixedDecimal::from_raw_units(1000, 2),
        FixedDecimal::from_raw_units(100, 2),
        FixedDecimal::from_raw_units(1000, 2),
        FixedDecimal::from_raw_units(6000, 2),
        FixedDecimal::from_raw_units(50, 2),
        true,
    );
    assert_eq!(r, Err(VaultError::InsufficientCollateralForDebt));
}

#[test]
fn ledger_total_follows_mints_and_burns() {
    let mut ledger = ShareLedger::new(18);
    assert!(ledger.total_shares.is_zero());
    ledger.mint(FixedDecimal::from_raw_units(1000, 18));
    ledger.mint(FixedDecimal::from_raw_units(500, 18));
    ledger.burn(FixedDecimal::from_raw_units(300, 18));
    // 0 + (1000 + 500) - 300
    assert_eq!(ledger.total_shares.into_raw_units(), 1200);
    assert_eq!(ledger.total_shares.scale(), 18);
}

#[test]
fn claims_of_all_holders_cover_the_collateral() {
    // three holders of 500, 300 and 200 of 1000 shares claim 333, 200
    // and 133 of 667 collateral; one unit is lost to truncation
    let total_shares = FixedDecimal::from_raw_units(1000, 0);
    let collateral = FixedDecimal::from_raw_units(667, 0);
    let holdings: Vec<u128> = vec![500, 300, 200];
    let mut sum: u128 = 0;
    let mut idx: usize = 0;
    while idx < holdings.len() {
        let claim = calculate_collateral_share_to_withdraw(
            total_shares,
            FixedDecimal::from_raw_units(holdings[idx], 0),
            collateral,
        );
        sum += claim.into_raw_units();
        idx += 1;
    }
    assert_eq!(sum, 666);
    assert!(sum <= 667 && sum + (holdings.len() as u128) > 667);
}

#[test]
fn deposit_and_withdraw_round_trip_conserves_shares() {
    // a first deposit of 1000 and a follow-up worth 250 against equity
    // 1250, then both holders withdraw everything: the ledger returns
    // to zero and all shares minted were burned
    let mut ledger = ShareLedger::new(0);
    let first = plan_deposit(
        ledger.total_shares,
        FixedDecimal::from_raw_units(1000, 0),
        FixedDecimal::from_raw_units(1000, 0),
        FixedDecimal::zero(0),
        FixedDecimal::zero(0),
        0,
    )
    .unwrap();
    ledger.mint(first);
    assert_eq!(ledger.total_shares.into_raw_units(), 1000);

    // the vault leveraged up meanwhile: collateral 1500, debt 250
    let second = plan_deposit(
        ledger.total_shares,
        FixedDecimal::from_raw_units(250, 0),
        FixedDecimal::from_raw_units(250, 0),
        FixedDecimal::from_raw_units(1500, 0),
        FixedDecimal::from_raw_units(250, 0),
        1,
    )
    .unwrap();
    // 1000 * 250 / 1250 = 200 shares
    assert_eq!(second.into_raw_units(), 200);
    ledger.mint(second);
    assert_eq!(ledger.total_shares.into_raw_units(), 1200);

    ledger.burn(second);
    ledger.burn(first);
    assert!(ledger.total_shares.is_zero());
}

#[test]
fn test_get_tvl_view() {
    // 1000 supplied at 5 dollars less 400 borrowed at 2 dollars
    let info = LendingInfo::new(
        FixedDecimal::from_raw_units(1000, 0),
        FixedDecimal::from_raw_units(5, 0),
        FixedDecimal::from_raw_units(1000, 0),
        FixedDecimal::from_raw_units(400, 0),
        FixedDecimal::from_raw_units(2, 0),
        FixedDecimal::from_raw_units(400, 0),
        FixedDecimal::from_raw_units(10, 0),
        FixedDecimal::one(0),
        false,
        FixedDecimal::zero(0),
    );
    let tvl = get_tvl(&info);
    assert_eq!(tvl.into_raw_units(), 4200);
    assert_eq!(tvl.scale(), 0);
}
