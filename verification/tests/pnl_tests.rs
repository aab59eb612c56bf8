// Prices are fixed point in units of 1/10_000 of the quoted price
// (0.6 is 6_000); quantities are whole units; PnL amounts are in
// price-units times quantity (0.5 is 5_000).

use arb_engine::pnl::{MarkPrices, PnlTracker, Position};
use arb_engine::strategy::Outcome;

#[test]
fn test_pnl_tracker_multi_outcome() {
    let mut tracker = PnlTracker::new();

    // Buy 10 Yes @ 0.6
    tracker.process_trade(Outcome::Yes, 10, 6_000);
    // Buy 10 No @ 0.4
    tracker.process_trade(Outcome::No, 10, 4_000);

    assert_eq!(tracker.get_total_position_abs(), 20);

    // Sell 5 Yes @ 0.7: (0.7 - 0.6) * 5 = 0.5
    let r1 = tracker.process_trade(Outcome::Yes, -5, 7_000);
    assert_eq!(r1, 5_000);

    let prices = MarkPrices { yes: Some(8_000), no: Some(3_000) };

    // Unrealized:
    // Yes: (0.8 - 0.6) * 5 = 1.0
    // No: (0.3 - 0.4) * 10 = -1.0
    // Total = 0.0
    assert_eq!(tracker.get_total_unrealized_pnl(&prices), 0);
}

#[test]
fn test_realization_and_remaining_position() {
    let mut tracker = PnlTracker::new();
    tracker.process_trade(Outcome::Yes, 10, 6_000);
    let realized = tracker.process_trade(Outcome::Yes, -5, 7_000);
    assert_eq!(realized, 5_000);
    assert_eq!(tracker.pos_yes.quantity, 5);
    assert_eq!(tracker.pos_yes.cost_basis, 30_000);
    assert_eq!(tracker.pos_yes.avg_entry_price(), 6_000);
    assert_eq!(tracker.realized_pnl, 5_000);
}

#[test]
fn test_flat_reset() {
    let mut tracker = PnlTracker::new();
    tracker.process_trade(Outcome::No, 10, 6_000);
    tracker.process_trade(Outcome::No, -10, 7_000);
    assert_eq!(tracker.pos_no.quantity, 0);
    assert_eq!(tracker.pos_no.cost_basis, 0);
    assert_eq!(tracker.pos_no.avg_entry_price(), 0);
    assert_eq!(tracker.realized_pnl, 10_000);
}

#[test]
fn test_flip() {
    let mut tracker = PnlTracker::new();
    // long 5 at avg 0.6, then sell 8 at 0.7
    tracker.process_trade(Outcome::Yes, 5, 6_000);
    let realized = tracker.process_trade(Outcome::Yes, -8, 7_000);
    // realized = (0.7 - 0.6) * 5 = 0.5
    assert_eq!(realized, 5_000);
    // resulting position: short 3 at avg 0.7
    assert_eq!(tracker.pos_yes.quantity, -3);
    assert_eq!(tracker.pos_yes.cost_basis, -21_000);
    assert_eq!(tracker.pos_yes.avg_entry_price(), 7_000);
}

#[test]
fn test_average_cost_same_direction() {
    let mut tracker = PnlTracker::new();
    let r1 = tracker.process_trade(Outcome::Yes, 2, 6_000);
    let r2 = tracker.process_trade(Outcome::Yes, 3, 7_000);
    assert_eq!(r1, 0);
    assert_eq!(r2, 0);
    assert_eq!(tracker.realized_pnl, 0);
    // quantity-weighted mean: (2*0.6 + 3*0.7) / 5 = 0.66
    assert_eq!(tracker.pos_yes.quantity, 5);
    assert_eq!(tracker.pos_yes.cost_basis, 33_000);
    assert_eq!(tracker.pos_yes.avg_entry_price(), 6_600);
}

#[test]
fn test_short_side_accounting() {
    let mut tracker = PnlTracker::new();
    // sell short 5 at 0.6, buy back 3 at 0.5: (0.6 - 0.5) * 3 = 0.3
    tracker.process_trade(Outcome::Yes, -5, 6_000);
    let realized = tracker.process_trade(Outcome::Yes, 3, 5_000);
    assert_eq!(realized, 3_000);
    assert_eq!(tracker.pos_yes.quantity, -2);
    assert_eq!(tracker.pos_yes.cost_basis, -12_000);
    assert_eq!(tracker.pos_yes.avg_entry_price(), 6_000);
}

#[test]
fn test_zero_quantity_is_noop() {
    let mut tracker = PnlTracker::new();
    tracker.process_trade(Outcome::Yes, 10, 6_000);
    let realized = tracker.process_trade(Outcome::Yes, 0, 9_000);
    assert_eq!(realized, 0);
    assert_eq!(tracker.pos_yes.quantity, 10);
    assert_eq!(tracker.pos_yes.cost_basis, 60_000);
    assert_eq!(tracker.realized_pnl, 0);
}

#[test]
fn test_unrealized_skips_missing_mark() {
    let mut tracker = PnlTracker::new();
    tracker.process_trade(Outcome::Yes, 5, 6_000);
    tracker.process_trade(Outcome::No, 10, 4_000);
    // only No has a mark: (0.3 - 0.4) * 10 = -1.0
    let prices = MarkPrices { yes: None, no: Some(3_000) };
    assert_eq!(tracker.get_total_unrealized_pnl(&prices), -10_000);
    let none_at_all = MarkPrices { yes: None, no: None };
    assert_eq!(tracker.get_total_unrealized_pnl(&none_at_all), 0);
}

#[test]
fn test_position_abs_mixed_signs() {
    let mut tracker = PnlTracker::new();
    tracker.process_trade(Outcome::Yes, 7, 6_000);
    tracker.process_trade(Outcome::No, -4, 4_000);
    assert_eq!(tracker.get_total_position_abs(), 11);
    let flat = Position { quantity: 0, cost_basis: 0 };
    assert_eq!(flat.avg_entry_price(), 0);
}
