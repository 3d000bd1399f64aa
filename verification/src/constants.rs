//! Precision constants shared by the vault's decimal arithmetic.

use vstd::prelude::*;

verus! {

/// Scale factor `1e18`, the standard scaling of token amounts.
pub const WAD: u128 = 1_000_000_000_000_000_000;

/// Precision (fractional digits) of token amounts.
pub const WAD_PRECISION: u32 = 18;

/// Basis points making up 100%.
pub const BPS: u64 = 10_000;

/// Precision (fractional digits) used for basis-point quantities.
pub const BPS_PRECISION: u32 = 4;

/// Default safe threshold for the loan-to-value ratio, in basis points (40%).
pub const DEFAULT_SAFE_THRESHOLD_BPS: u64 = 4_000;

/// Default inaction zone around the safe threshold, in basis points (5%).
pub const DEFAULT_INACTION_ZONE_BPS: u64 = 500;

} // verus!
