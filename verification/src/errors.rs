//! Error taxonomy of the vault's validation and solvency checks.
//!
//! Every failing check aborts the whole operation in the host layer, so each
//! variant carries a stable descriptive message for the caller. Arithmetic
//! failures have their own type, [`crate::decimal::DecimalError`].

use vstd::prelude::*;

verus! {

/// A rejected vault operation, reported before any state is changed.
#[derive(Clone, Copy, Debug, PartialEq, Eq, Structural)]
pub enum VaultError {
    /// The configured safe threshold exceeds 100%.
    SafeThresholdTooHigh,
    /// Safe threshold plus inaction zone exceeds 100%.
    InactionZoneUpperBoundTooHigh,
    /// The inaction zone is not strictly below the safe threshold.
    InactionZoneTooLarge,
    /// A caller-chosen target ratio lies outside the suggested zone bounds.
    InvalidTargetLtvRatioBps,
    /// A deposit of zero, or one that would mint no shares.
    InvalidDepositAmount,
    /// The position is insolvent: total collateral does not exceed total debt.
    InvalidCollateralToDebtRatio,
    /// A withdrawal whose collateral share is zero or beyond what is held.
    InvalidCollateralToWithdraw,
    /// A deleverage that would withdraw more collateral value than the debt.
    InvalidCollateralToWithdrawWrtDebt,
    /// A withdrawal paid with no share tokens.
    InvalidShareTokenPayment,
    /// The withdrawer's collateral share cannot cover their debt share.
    InsufficientCollateralForDebt,
    /// A first deposit was attempted while a lending position already exists.
    LendingPositionAlreadyExists,
    /// A follow-up deposit was attempted with no lending position open.
    LendingPositionDoesNotExist,
    /// A collaborator returned a different amount than was requested.
    ReceivedAmountMismatch,
    /// A collaborator returned a token that was neither the position token
    /// nor the requested one.
    UnexpectedBackTransfer,
    /// A collaborator returned a position token other than the expected one.
    InvalidLendingPositionToken,
    /// A collaborator returned a position nonce other than the expected one.
    InvalidLendingPositionNonce,
}

impl VaultError {
    /// The stable message surfaced to the caller for this error.
    pub fn message(&self) -> &'static str {
        match self {
            VaultError::SafeThresholdTooHigh => {
                "Invalid threshold: Safe threshold must be <= 100% (10000 BPS)."
            },
            VaultError::InactionZoneUpperBoundTooHigh => {
                "Invalid threshold: Upper bound of inaction zone must be <= 100% (10000 BPS)."
            },
            VaultError::InactionZoneTooLarge => {
                "Invalid threshold: Inaction zone must be less than safe threshold."
            },
            VaultError::InvalidTargetLtvRatioBps => {
                "Invalid target LTV ratio: Must be within the suggested zone bounds."
            },
            VaultError::InvalidDepositAmount => {
                "Invalid deposit: Amount must be greater than zero."
            },
            VaultError::InvalidCollateralToDebtRatio => {
                "Invalid collateral: Total supply must be greater than total debt."
            },
            VaultError::InvalidCollateralToWithdraw => {
                "Invalid collateral: Amount to withdraw must be greater than zero and less than or equal to available collateral."
            },
            VaultError::InvalidCollateralToWithdrawWrtDebt => {
                "Invalid withdrawal: Cannot withdraw collateral that would cause LTV ratio to exceed safe threshold with respect to outstanding debt."
            },
            VaultError::InvalidShareTokenPayment => {
                "Invalid share token: Withdrawal requires valid share token payment."
            },
            VaultError::InsufficientCollateralForDebt => {
                "Insufficient collateral: User's share of collateral is less than their share of debt."
            },
            VaultError::LendingPositionAlreadyExists => {
                "Lending position already exists: Cannot create lending position with an existing token."
            },
            VaultError::LendingPositionDoesNotExist => {
                "Lending position does not exist: Cannot operate on a non-existent lending position."
            },
            VaultError::ReceivedAmountMismatch => {
                "Mismatch in received amount: Received amount does not match expected value."
            },
            VaultError::UnexpectedBackTransfer => {
                "Unexpected back transfer received from borrow operation."
            },
            VaultError::InvalidLendingPositionToken => {
                "Invalid lending position token: Cannot create lending position without a valid token."
            },
            VaultError::InvalidLendingPositionNonce => {
                "Invalid lending position nonce: Cannot operate on a lending position with an invalid nonce."
            },
        }
    }
}

} // verus!
