//! Exercises the share-batch snapshots, their byte encoding and the
//! profit-and-loss valuation.

use liquorix::codec::{attributes_from_buffer, attributes_from_buffer_or_default, attributes_to_buffer};
use liquorix::decimal::FixedDecimal;
use liquorix::snapshot::{
    get_positions_pnl, process_new_share_attributes, PositionBatch, ShareTokenAttributes,
};

#[test]
fn new_and_update_store_the_fields() {
    let supply = FixedDecimal::from_raw_units(1000, 18);
    let initial = FixedDecimal::from_raw_units(800, 18);
    let mut attrs = ShareTokenAttributes::new(supply, initial, 42);
    assert_eq!(attrs.total_share_supply, supply);
    assert_eq!(attrs.total_initial_supplied_amount, initial);
    assert_eq!(attrs.last_interaction_ts_millis, 42);
    let supply2 = FixedDecimal::from_raw_units(900, 18);
    let initial2 = FixedDecimal::from_raw_units(720, 18);
    attrs.update(supply2, initial2, 43);
    assert_eq!(attrs.total_share_supply, supply2);
    assert_eq!(attrs.total_initial_supplied_amount, initial2);
    assert_eq!(attrs.last_interaction_ts_millis, 43);
}

#[test]
fn default_snapshot_is_empty() {
    let attrs = ShareTokenAttributes::default();
    assert!(attrs.total_share_supply.is_zero());
    assert!(attrs.total_initial_supplied_amount.is_zero());
    assert_eq!(attrs.total_share_supply.scale(), 18);
    assert_eq!(attrs.last_interaction_ts_millis, 0);
}

#[test]
fn partial_withdrawal_shrinks_both_totals_proportionally() {
    // withdrawing 250 of 1000 shares takes a quarter of the 800 initial
    let attrs = ShareTokenAttributes::new(
        FixedDecimal::from_raw_units(1000, 0),
        FixedDecimal::from_raw_units(800, 0),
        5,
    );
    let updated =
        process_new_share_attributes(&attrs, FixedDecimal::from_raw_units(250, 0), 9);
    assert_eq!(updated.total_share_supply.into_raw_units(), 750);
    assert_eq!(updated.total_initial_supplied_amount.into_raw_units(), 600);
    assert_eq!(updated.last_interaction_ts_millis, 9);
    // the implied price per share is unchanged: 800/1000 == 600/750
}

#[test]
fn full_withdrawal_empties_the_snapshot() {
    let attrs = ShareTokenAttributes::new(
        FixedDecimal::from_raw_units(1000, 0),
        FixedDecimal::from_raw_units(800, 0),
        5,
    );
    let updated =
        process_new_share_attributes(&attrs, FixedDecimal::from_raw_units(1000, 0), 9);
    assert!(updated.total_share_supply.is_zero());
    assert!(updated.total_initial_supplied_amount.is_zero());
}

#[test]
fn attributes_roundtrip_through_the_buffer() {
    // encoding then decoding a snapshot yields an identical snapshot
    let attrs = ShareTokenAttributes::new(
        FixedDecimal::from_raw_units(123_456_789_012_345_678_901_234_567_890, 18),
        FixedDecimal::from_raw_units(u128::MAX, 4),
        u64::MAX - 1,
    );
    let buffer = attributes_to_buffer(&attrs);
    assert_eq!(buffer.len(), 48);
    assert_eq!(attributes_from_buffer(&buffer), Some(attrs));
    assert_eq!(attributes_from_buffer_or_default(&buffer), attrs);
}

#[test]
fn decoding_rejects_buffers_of_the_wrong_length() {
    let attrs = ShareTokenAttributes::new(
        FixedDecimal::from_raw_units(1000, 18),
        FixedDecimal::from_raw_units(800, 18),
        7,
    );
    let mut buffer = attributes_to_buffer(&attrs);
    buffer.pop();
    assert_eq!(attributes_from_buffer(&buffer), None);
    assert_eq!(
        attributes_from_buffer_or_default(&buffer),
        ShareTokenAttributes::default()
    );
}

#[test]
fn pnl_reports_a_gain_when_the_vault_grew() {
    // one batch: 100 shares minted when 1000 shares backed 1000 supplied;
    // now 1000 shares back 1200 supplied, price 3 dollars
    let batch = PositionBatch {
        share_amount: FixedDecimal::from_raw_units(100, 0),
        attributes: ShareTokenAttributes::new(
            FixedDecimal::from_raw_units(1000, 0),
            FixedDecimal::from_raw_units(1000, 0),
            0,
        ),
    };
    let report = get_positions_pnl(
        &vec![batch],
        FixedDecimal::from_raw_units(1000, 0),
        FixedDecimal::from_raw_units(1200, 0),
        FixedDecimal::from_raw_units(3, 0),
    );
    // cost basis 100 * 3, current 120 * 3
    assert_eq!(report.total_share_initial_value.into_raw_units(), 300);
    assert_eq!(report.total_share_current_value.into_raw_units(), 360);
    assert!(report.is_gain);
    assert_eq!(report.pnl_abs.into_raw_units(), 60);
}

#[test]
fn pnl_reports_a_loss_and_skips_empty_batches() {
    // the vault shrank from 1000 to 900 supplied; a second batch with no
    // balance contributes nothing
    let held = PositionBatch {
        share_amount: FixedDecimal::from_raw_units(200, 0),
        attributes: ShareTokenAttributes::new(
            FixedDecimal::from_raw_units(1000, 0),
            FixedDecimal::from_raw_units(1000, 0),
            0,
        ),
    };
    let empty = PositionBatch {
        share_amount: FixedDecimal::zero(0),
        attributes: ShareTokenAttributes::new(FixedDecimal::zero(0), FixedDecimal::zero(0), 0),
    };
    let report = get_positions_pnl(
        &vec![held, empty],
        FixedDecimal::from_raw_units(1000, 0),
        FixedDecimal::from_raw_units(900, 0),
        FixedDecimal::from_raw_units(2, 0),
    );
    assert_eq!(report.total_share_initial_value.into_raw_units(), 400);
    assert_eq!(report.total_share_current_value.into_raw_units(), 360);
    assert!(!report.is_gain);
    assert_eq!(report.pnl_abs.into_raw_units(), 40);
}
