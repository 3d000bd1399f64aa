//! Exercises the validation of collaborator back transfers and the
//! partitioning of swap returns.

use liquorix::errors::VaultError;
use liquorix::transfers::{
    check_back_transfers, check_position_back_transfer, partition_swap_returns,
    position_nonce_from_back_transfers, Payment,
};

const POSITION_TOKEN: u64 = 1;
const SUPPLIED_TOKEN: u64 = 2;
const BORROWED_TOKEN: u64 = 3;
const STRANGE_TOKEN: u64 = 9;

#[test]
fn clean_back_transfers_pass() {
    let payments = vec![
        Payment { token_id: POSITION_TOKEN, nonce: 7, amount: 1 },
        Payment { token_id: SUPPLIED_TOKEN, nonce: 0, amount: 500 },
    ];
    assert!(check_back_transfers(&payments, POSITION_TOKEN, 7, SUPPLIED_TOKEN, 500).is_ok());
}

#[test]
fn wrong_nonce_amount_or_token_abort() {
    let wrong_nonce = vec![Payment { token_id: POSITION_TOKEN, nonce: 8, amount: 1 }];
    assert_eq!(
        check_back_transfers(&wrong_nonce, POSITION_TOKEN, 7, SUPPLIED_TOKEN, 500),
        Err(VaultError::InvalidLendingPositionNonce)
    );

    let wrong_amount = vec![Payment { token_id: SUPPLIED_TOKEN, nonce: 0, amount: 499 }];
    let r = check_back_transfers(&wrong_amount, POSITION_TOKEN, 7, SUPPLIED_TOKEN, 500);
    assert_eq!(r, Err(VaultError::ReceivedAmountMismatch));
    assert_eq!(
        r.unwrap_err().message(),
        "Mismatch in received amount: Received amount does not match expected value."
    );

    let stranger = vec![
        Payment { token_id: POSITION_TOKEN, nonce: 7, amount: 1 },
        Payment { token_id: STRANGE_TOKEN, nonce: 0, amount: 5 },
    ];
    assert_eq!(
        check_back_transfers(&stranger, POSITION_TOKEN, 7, SUPPLIED_TOKEN, 500),
        Err(VaultError::UnexpectedBackTransfer)
    );
}

#[test]
fn repay_back_transfer_must_be_the_position_token() {
    let good = Payment { token_id: POSITION_TOKEN, nonce: 7, amount: 1 };
    assert!(check_position_back_transfer(&good, POSITION_TOKEN, 7).is_ok());
    let wrong_token = Payment { token_id: STRANGE_TOKEN, nonce: 7, amount: 1 };
    assert_eq!(
        check_position_back_transfer(&wrong_token, POSITION_TOKEN, 7),
        Err(VaultError::InvalidLendingPositionToken)
    );
    let wrong_nonce = Payment { token_id: POSITION_TOKEN, nonce: 8, amount: 1 };
    assert_eq!(
        check_position_back_transfer(&wrong_nonce, POSITION_TOKEN, 7),
        Err(VaultError::InvalidLendingPositionNonce)
    );
}

#[test]
fn fresh_position_nonce_comes_from_the_last_transfer() {
    let payments = vec![
        Payment { token_id: SUPPLIED_TOKEN, nonce: 0, amount: 500 },
        Payment { token_id: POSITION_TOKEN, nonce: 42, amount: 1 },
    ];
    assert_eq!(
        position_nonce_from_back_transfers(&payments, POSITION_TOKEN),
        Ok(42)
    );
    let wrong = vec![Payment { token_id: STRANGE_TOKEN, nonce: 42, amount: 1 }];
    let r = position_nonce_from_back_transfers(&wrong, POSITION_TOKEN);
    assert_eq!(r, Err(VaultError::InvalidLendingPositionToken));
    assert_eq!(
        r.unwrap_err().message(),
        "Invalid lending position token: Cannot create lending position without a valid token."
    );
}

#[test]
fn swap_returns_are_split_into_wanted_and_refunds() {
    let payments = vec![
        Payment { token_id: BORROWED_TOKEN, nonce: 0, amount: 500 }, // the echo
        Payment { token_id: SUPPLIED_TOKEN, nonce: 0, amount: 300 },
        Payment { token_id: STRANGE_TOKEN, nonce: 0, amount: 5 },
        Payment { token_id: SUPPLIED_TOKEN, nonce: 0, amount: 200 },
        Payment { token_id: BORROWED_TOKEN, nonce: 0, amount: 7 }, // partial: a refund
    ];
    let (wanted, refunds) =
        partition_swap_returns(&payments, BORROWED_TOKEN, 500, SUPPLIED_TOKEN);
    assert_eq!(wanted, 500);
    assert_eq!(refunds.len(), 2);
    assert_eq!(refunds[0], Payment { token_id: STRANGE_TOKEN, nonce: 0, amount: 5 });
    assert_eq!(refunds[1], Payment { token_id: BORROWED_TOKEN, nonce: 0, amount: 7 });
}

#[test]
fn swap_with_no_returns_yields_nothing() {
    let payments: Vec<Payment> = vec![];
    let (wanted, refunds) =
        partition_swap_returns(&payments, BORROWED_TOKEN, 500, SUPPLIED_TOKEN);
    assert_eq!(wanted, 0);
    assert!(refunds.is_empty());
}
