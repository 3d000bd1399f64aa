//! Per-share-batch snapshots and profit-and-loss valuation.
//!
//! Every minted share batch records the ledger-wide totals right after
//! its deposit was folded in. A partial withdrawal shrinks both recorded
//! totals proportionally, so the batch's implied price per share is kept;
//! a profit-and-loss query values each batch once against its snapshot
//! (its cost basis) and once against the live totals. Because all
//! quantities are unsigned, the loss or gain is reported as a magnitude
//! with its direction.

use vstd::prelude::*;

verus! {

use vstd::arithmetic::div_mod::lemma_div_pos_is_pos;
use vstd::arithmetic::mul::lemma_mul_nonnegative;

use crate::constants::WAD_PRECISION;
use crate::decimal::{
    lemma_claim_within_total,
    lemma_pow10_38_value,
    lemma_pow10_increases,
    lemma_pow10_pos,
    pow10,
    FixedDecimal,
    MAX_POW10,
};

/// Timestamps are carried as milliseconds.
pub type TimestampInMillis = u64;

/// The empty snapshot, used for batches that do not exist.
pub open spec fn default_attributes() -> ShareTokenAttributes {
    ShareTokenAttributes {
        total_share_supply: (FixedDecimal { raw: 0, precision: WAD_PRECISION }),
        total_initial_supplied_amount: (FixedDecimal { raw: 0, precision: WAD_PRECISION }),
        last_interaction_ts_millis: 0,
    }
}

/// The ledger state recorded for one minted share batch.
#[derive(Clone, Copy, Debug, PartialEq, Eq, Structural)]
pub struct ShareTokenAttributes {
    /// Total share supply right after this batch was minted.
    pub total_share_supply: FixedDecimal,
    /// Total supplied amount in the vault right after this batch was
    /// minted.
    pub total_initial_supplied_amount: FixedDecimal,
    /// When the batch was last minted or partially withdrawn.
    pub last_interaction_ts_millis: TimestampInMillis,
}

impl Default for ShareTokenAttributes {
    /// The empty snapshot used for batches that do not exist.
    fn default() -> (r: Self)
        ensures
            r == default_attributes(),
    {
        ShareTokenAttributes {
            total_share_supply: FixedDecimal::from_raw_units(0, WAD_PRECISION),
            total_initial_supplied_amount: FixedDecimal::from_raw_units(0, WAD_PRECISION),
            last_interaction_ts_millis: 0,
        }
    }
}

impl ShareTokenAttributes {
    /// Records the snapshot for a freshly minted batch.
    pub fn new(
        total_share_supply: FixedDecimal,
        total_initial_supplied_amount: FixedDecimal,
        last_interaction_ts_millis: TimestampInMillis,
    ) -> (r: Self)
        ensures
            r.total_share_supply == total_share_supply,
            r.total_initial_supplied_amount == total_initial_supplied_amount,
            r.last_interaction_ts_millis == last_interaction_ts_millis,
    {
        ShareTokenAttributes {
            total_share_supply,
            total_initial_supplied_amount,
            last_interaction_ts_millis,
        }
    }

    /// Replaces the snapshot's fields.
    pub fn update(
        &mut self,
        total_share_supply: FixedDecimal,
        total_initial_supplied_amount: FixedDecimal,
        last_interaction_ts_millis: TimestampInMillis,
    )
        ensures
            final(self).total_share_supply == total_share_supply,
            final(self).total_initial_supplied_amount == total_initial_supplied_amount,
            final(self).last_interaction_ts_millis == last_interaction_ts_millis,
    {
        self.total_share_supply = total_share_supply;
        self.total_initial_supplied_amount = total_initial_supplied_amount;
        self.last_interaction_ts_millis = last_interaction_ts_millis;
    }
}

/// Shrinks a batch's snapshot after a partial withdrawal.
///
/// The withdrawn fraction of the recorded initial amount is
/// `initial * withdrawn / supply`; both recorded totals drop by their
/// withdrawn part, so the snapshot's implied price per share stays put
/// up to integer truncation.
pub fn process_new_share_attributes(
    share_attributes: &ShareTokenAttributes,
    share_withdraw_amount: FixedDecimal,
    now_ts_millis: TimestampInMillis,
) -> (r: ShareTokenAttributes)
    requires
        share_attributes.total_share_supply.precision == share_withdraw_amount.precision,
        share_attributes.total_share_supply.precision
            == share_attributes.total_initial_supplied_amount.precision,
        share_attributes.total_share_supply.precision
            + share_attributes.total_share_supply.precision <= u32::MAX,
        share_withdraw_amount.raw <= share_attributes.total_share_supply.raw,
        share_attributes.total_share_supply.raw > 0,
        share_attributes.total_share_supply.raw <= u128::MAX / 2,
    ensures
        r.total_share_supply.raw == share_attributes.total_share_supply.raw
            - share_withdraw_amount.raw,
        r.total_share_supply.precision == share_attributes.total_share_supply.precision,
        r.total_initial_supplied_amount.raw
            == share_attributes.total_initial_supplied_amount.raw - (
        share_attributes.total_initial_supplied_amount.raw * share_withdraw_amount.raw) as int / (
        share_attributes.total_share_supply.raw as int),
        r.total_initial_supplied_amount.precision
            == share_attributes.total_initial_supplied_amount.precision,
        r.last_interaction_ts_millis == now_ts_millis,
{
    proof {
        lemma_claim_within_total(
            share_attributes.total_initial_supplied_amount.raw as int,
            share_withdraw_amount.raw as int,
            share_attributes.total_share_supply.raw as int,
        );
    }
    let new_total_share_supply = share_attributes.total_share_supply.try_sub(
        share_withdraw_amount,
    ).unwrap();
    let withdrawn_part_of_initial_supplied_amount = share_attributes
        .total_initial_supplied_amount
        .mul_div(share_withdraw_amount, share_attributes.total_share_supply)
        .unwrap();
    let new_total_initial_supplied_amount = share_attributes
        .total_initial_supplied_amount
        .try_sub(withdrawn_part_of_initial_supplied_amount)
        .unwrap();
    ShareTokenAttributes::new(
        new_total_share_supply,
        new_total_initial_supplied_amount,
        now_ts_millis,
    )
}

/// One share batch held by the queried address: its balance and the
/// snapshot stored with it.
#[derive(Clone, Copy, Debug, PartialEq, Eq, Structural)]
pub struct PositionBatch {
    /// The address's balance of this batch's share token.
    pub share_amount: FixedDecimal,
    /// The batch's recorded snapshot.
    pub attributes: ShareTokenAttributes,
}

/// The two sides of a profit-and-loss query, and their signed difference
/// expressed as a magnitude with a direction.
#[derive(Clone, Copy, Debug, PartialEq, Eq, Structural)]
pub struct PnlReport {
    /// The batches valued against the live ledger totals.
    pub total_share_current_value: FixedDecimal,
    /// The batches valued against their recorded snapshots.
    pub total_share_initial_value: FixedDecimal,
    /// `|current - initial|`.
    pub pnl_abs: FixedDecimal,
    /// Whether the current value is at least the initial one.
    pub is_gain: bool,
}

/// Raw payload of one batch's cost basis:
/// `shareAmount * initialSuppliedAtMint / shareSupplyAtMint`, then priced.
/// A batch with no balance counts as zero and its snapshot is not read.
pub open spec fn batch_initial_value_raw(batch: PositionBatch, price: FixedDecimal) -> int {
    if batch.share_amount.raw == 0 {
        0
    } else {
        let based = (batch.share_amount.raw
            * batch.attributes.total_initial_supplied_amount.raw) as int / (
        batch.attributes.total_share_supply.raw as int);
        (based * price.raw) / (pow10(price.precision as nat) as int)
    }
}

/// Raw payload of one batch's current value:
/// `shareAmount * totalSuppliedNow / totalSharesNow`, then priced.
pub open spec fn batch_current_value_raw(
    batch: PositionBatch,
    total_shares: FixedDecimal,
    total_supplied: FixedDecimal,
    price: FixedDecimal,
) -> int {
    if batch.share_amount.raw == 0 {
        0
    } else {
        let based = (batch.share_amount.raw * total_supplied.raw) as int / (
        total_shares.raw as int);
        (based * price.raw) / (pow10(price.precision as nat) as int)
    }
}

/// Sum of the cost bases of a sequence of batches.
pub open spec fn initial_values_sum(batches: Seq<PositionBatch>, price: FixedDecimal) -> int
    decreases batches.len(),
{
    if batches.len() == 0 {
        0
    } else {
        initial_values_sum(batches.drop_last(), price) + batch_initial_value_raw(
            batches.last(),
            price,
        )
    }
}

/// Sum of the current values of a sequence of batches.
pub open spec fn current_values_sum(
    batches: Seq<PositionBatch>,
    total_shares: FixedDecimal,
    total_supplied: FixedDecimal,
    price: FixedDecimal,
) -> int
    decreases batches.len(),
{
    if batches.len() == 0 {
        0
    } else {
        current_values_sum(batches.drop_last(), total_shares, total_supplied, price)
            + batch_current_value_raw(batches.last(), total_shares, total_supplied, price)
    }
}

/// What must hold of one queried batch for the valuation to go through:
/// matching precisions and quotients that fit the 128-bit payload.
pub open spec fn batch_fits(
    batch: PositionBatch,
    total_shares: FixedDecimal,
    total_supplied: FixedDecimal,
    price: FixedDecimal,
) -> bool {
    &&& batch.share_amount.precision == total_shares.precision
    &&& batch.attributes.total_share_supply.precision == total_shares.precision
    &&& batch.attributes.total_initial_supplied_amount.precision == total_shares.precision
    &&& (batch.share_amount.raw > 0 ==> {
        let based_initial = (batch.share_amount.raw
            * batch.attributes.total_initial_supplied_amount.raw) as int / (
        batch.attributes.total_share_supply.raw as int);
        let based_current = (batch.share_amount.raw * total_supplied.raw) as int / (
        total_shares.raw as int);
        &&& batch.attributes.total_share_supply.raw > 0
        &&& batch.attributes.total_share_supply.raw <= u128::MAX / 2
        &&& (batch.share_amount.raw * batch.attributes.total_initial_supplied_amount.raw) as int
            / (batch.attributes.total_share_supply.raw as int) <= u128::MAX
        &&& (based_initial * price.raw) / (pow10(price.precision as nat) as int) <= u128::MAX
        &&& total_shares.raw > 0
        &&& total_shares.raw <= u128::MAX / 2
        &&& (batch.share_amount.raw * total_supplied.raw) as int / (total_shares.raw as int)
            <= u128::MAX
        &&& (based_current * price.raw) / (pow10(price.precision as nat) as int) <= u128::MAX
    })
}

/// Every batch value is non-negative.
proof fn lemma_batch_values_nonneg(
    batch: PositionBatch,
    total_shares: FixedDecimal,
    total_supplied: FixedDecimal,
    price: FixedDecimal,
)
    requires
        batch_fits(batch, total_shares, total_supplied, price),
    ensures
        batch_initial_value_raw(batch, price) >= 0,
        batch_current_value_raw(batch, total_shares, total_supplied, price) >= 0,
{
    lemma_pow10_pos(price.precision as nat);
    if batch.share_amount.raw != 0 {
        if batch.attributes.total_share_supply.raw != 0 {
            lemma_div_pos_is_pos(
                (batch.share_amount.raw * batch.attributes.total_initial_supplied_amount.raw)
                    as int,
                batch.attributes.total_share_supply.raw as int,
            );
        }
        if total_shares.raw != 0 {
            lemma_div_pos_is_pos(
                (batch.share_amount.raw * total_supplied.raw) as int,
                total_shares.raw as int,
            );
        }
        let based_initial = (batch.share_amount.raw
            * batch.attributes.total_initial_supplied_amount.raw) as int / (
        batch.attributes.total_share_supply.raw as int);
        let based_current = (batch.share_amount.raw * total_supplied.raw) as int / (
        total_shares.raw as int);
        if based_initial >= 0 {
            lemma_mul_nonnegative(based_initial, price.raw as int);
            lemma_div_pos_is_pos(based_initial * price.raw, pow10(price.precision as nat) as int);
        }
        if based_current >= 0 {
            lemma_mul_nonnegative(based_current, price.raw as int);
            lemma_div_pos_is_pos(based_current * price.raw, pow10(price.precision as nat) as int);
        }
    }
}

/// Prefix sums never exceed the whole sums.
proof fn lemma_value_sums_monotone(
    batches: Seq<PositionBatch>,
    n: int,
    total_shares: FixedDecimal,
    total_supplied: FixedDecimal,
    price: FixedDecimal,
)
    requires
        0 <= n <= batches.len(),
        forall|i: int| 0 <= i < batches.len() ==> #[trigger] batch_fits(
            batches[i],
            total_shares,
            total_supplied,
            price,
        ),
    ensures
        initial_values_sum(batches.take(n), price) <= initial_values_sum(batches, price),
        current_values_sum(batches.take(n), total_shares, total_supplied, price)
            <= current_values_sum(batches, total_shares, total_supplied, price),
        initial_values_sum(batches.take(n), price) >= 0,
        current_values_sum(batches.take(n), total_shares, total_supplied, price) >= 0,
    decreases batches.len(),
{
    if batches.len() == 0 {
        assert(batches.take(n) =~= batches);
    } else {
        assert forall|i: int| 0 <= i < batches.drop_last().len() implies #[trigger] batch_fits(
            batches.drop_last()[i],
            total_shares,
            total_supplied,
            price,
        ) by {
            assert(batches.drop_last()[i] == batches[i]);
        }
        if n == batches.len() {
            assert(batches.take(n) =~= batches);
            lemma_value_sums_monotone(
                batches.drop_last(),
                n - 1,
                total_shares,
                total_supplied,
                price,
            );
            lemma_batch_values_nonneg(batches.last(), total_shares, total_supplied, price);
            assert(batches.drop_last().take(n - 1) =~= batches.drop_last());
        } else {
            assert(batches.take(n) =~= batches.drop_last().take(n));
            lemma_value_sums_monotone(batches.drop_last(), n, total_shares, total_supplied, price);
            lemma_batch_values_nonneg(batches.last(), total_shares, total_supplied, price);
        }
    }
}

/// Values every batch held by an address against its cost basis and the
/// live totals, and reports the summed difference.
///
/// For each batch: the cost basis is its proportional claim on the
/// vault's supplied amount when it was minted, the current value its
/// claim on the supplied amount now, both priced in dollars. Batches
/// with no balance are skipped. The result carries both totals and their
/// difference as a magnitude with a direction, since values are
/// unsigned.
pub fn get_positions_pnl(
    positions: &Vec<PositionBatch>,
    total_shares: FixedDecimal,
    total_supplied: FixedDecimal,
    supplied_token_price_in_usd: FixedDecimal,
) -> (r: PnlReport)
    requires
        supplied_token_price_in_usd.precision == total_shares.precision,
        total_supplied.precision == total_shares.precision,
        total_shares.precision <= MAX_POW10,
        total_shares.precision + total_shares.precision <= u32::MAX,
        forall|i: int|
            0 <= i < positions@.len() ==> #[trigger] batch_fits(
                positions@[i],
                total_shares,
                total_supplied,
                supplied_token_price_in_usd,
            ),
        initial_values_sum(positions@, supplied_token_price_in_usd) <= u128::MAX,
        current_values_sum(positions@, total_shares, total_supplied, supplied_token_price_in_usd)
            <= u128::MAX,
    ensures
        r.total_share_initial_value.raw == initial_values_sum(
            positions@,
            supplied_token_price_in_usd,
        ),
        r.total_share_current_value.raw == current_values_sum(
            positions@,
            total_shares,
            total_supplied,
            supplied_token_price_in_usd,
        ),
        r.total_share_initial_value.precision == total_shares.precision,
        r.total_share_current_value.precision == total_shares.precision,
        r.is_gain <==> r.total_share_initial_value.raw <= r.total_share_current_value.raw,
        r.pnl_abs.raw == if r.total_share_current_value.raw >= r.total_share_initial_value.raw {
            r.total_share_current_value.raw - r.total_share_initial_value.raw
        } else {
            r.total_share_initial_value.raw - r.total_share_current_value.raw
        },
        r.pnl_abs.precision == total_shares.precision,
{
    let precision = total_shares.scale();
    let mut total_share_initial_value = FixedDecimal::zero(precision);
    let mut total_share_current_value = FixedDecimal::zero(precision);
    let mut i: usize = 0;
    proof {
        assert(positions@.take(0int) =~= Seq::<PositionBatch>::empty());
    }
    while i < positions.len()
        invariant
            0 <= i <= positions@.len(),
            supplied_token_price_in_usd.precision == total_shares.precision,
            total_supplied.precision == total_shares.precision,
            total_shares.precision <= MAX_POW10,
            total_shares.precision + total_shares.precision <= u32::MAX,
            forall|j: int|
                0 <= j < positions@.len() ==> #[trigger] batch_fits(
                    positions@[j],
                    total_shares,
                    total_supplied,
                    supplied_token_price_in_usd,
                ),
            initial_values_sum(positions@, supplied_token_price_in_usd) <= u128::MAX,
            current_values_sum(
                positions@,
                total_shares,
                total_supplied,
                supplied_token_price_in_usd,
            ) <= u128::MAX,
            total_share_initial_value.raw == initial_values_sum(
                positions@.take(i as int),
                supplied_token_price_in_usd,
            ),
            total_share_current_value.raw == current_values_sum(
                positions@.take(i as int),
                total_shares,
                total_supplied,
                supplied_token_price_in_usd,
            ),
            total_share_initial_value.precision == total_shares.precision,
            total_share_current_value.precision == total_shares.precision,
            precision == total_shares.precision,
        decreases positions@.len() - i,
    {
        let batch = positions[i];
        proof {
            assert(batch_fits(
                positions@[i as int],
                total_shares,
                total_supplied,
                supplied_token_price_in_usd,
            ));
            assert(positions@.take(i + 1int).drop_last() =~= positions@.take(i as int));
            assert(positions@.take(i + 1int).last() == positions@[i as int]);
            lemma_value_sums_monotone(
                positions@,
                i + 1int,
                total_shares,
                total_supplied,
                supplied_token_price_in_usd,
            );
            lemma_batch_values_nonneg(
                batch,
                total_shares,
                total_supplied,
                supplied_token_price_in_usd,
            );
            lemma_value_sums_monotone(
                positions@,
                i as int,
                total_shares,
                total_supplied,
                supplied_token_price_in_usd,
            );
            lemma_pow10_38_value();
            lemma_pow10_increases(total_shares.precision as nat, 38nat);
            lemma_pow10_pos(total_shares.precision as nat);
        }
        if batch.share_amount.is_gt_zero() {
            let one_unit = FixedDecimal::one(precision);
            let based_initial = batch.share_amount.mul_div(
                batch.attributes.total_initial_supplied_amount,
                batch.attributes.total_share_supply,
            ).unwrap();
            let share_initial_value = based_initial.mul_div(
                supplied_token_price_in_usd,
                one_unit,
            ).unwrap();
            let based_current = batch.share_amount.mul_div(total_supplied, total_shares).unwrap();
            let share_current_value = based_current.mul_div(
                supplied_token_price_in_usd,
                one_unit,
            ).unwrap();
            proof {
                assert(share_initial_value.raw == batch_initial_value_raw(
                    positions@[i as int],
                    supplied_token_price_in_usd,
                ));
                assert(share_current_value.raw == batch_current_value_raw(
                    positions@[i as int],
                    total_shares,
                    total_supplied,
                    supplied_token_price_in_usd,
                ));
                assert(initial_values_sum(positions@.take(i + 1int), supplied_token_price_in_usd)
                    == total_share_initial_value.raw + share_initial_value.raw);
                assert(current_values_sum(
                    positions@.take(i + 1int),
                    total_shares,
                    total_supplied,
                    supplied_token_price_in_usd,
                ) == total_share_current_value.raw + share_current_value.raw);
            }
            total_share_initial_value = total_share_initial_value.try_add(
                share_initial_value,
            ).unwrap();
            total_share_current_value = total_share_current_value.try_add(
                share_current_value,
            ).unwrap();
        }
        i = i + 1;
    }
    proof {
        assert(positions@.take(positions@.len() as int) =~= positions@);
    }
    let pnl_abs = total_share_current_value.try_abs_diff(total_share_initial_value).unwrap();
    let is_gain = total_share_initial_value.le(&total_share_current_value);
    proof {
        crate::decimal::lemma_same_precision_order(
            total_share_initial_value,
            total_share_current_value,
        );
    }
    PnlReport { total_share_current_value, total_share_initial_value, pnl_abs, is_gain }
}

} // verus!
