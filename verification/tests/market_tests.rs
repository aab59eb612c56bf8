// Prices are fixed point in units of 1/10_000 of the quoted price
// (100.0 is 1_000_000); quantities are whole units.

use arb_engine::market::{Exchange, Level, OrderBook, Side};

#[test]
fn test_generated_book_shape() {
    let ex = Exchange::new("Exchange A", 1_000_000, 1_000);
    assert_eq!(ex.order_book.bids.len(), 10);
    assert_eq!(ex.order_book.asks.len(), 10);
    // level i: touch price minus/plus i ticks, quantity 10 + i
    for i in 0..10usize {
        let o = 100 * i as i64;
        assert_eq!(ex.order_book.bids[i].price, 999_500 - o);
        assert_eq!(ex.order_book.bids[i].quantity, 10 + i as i64);
        assert_eq!(ex.order_book.asks[i].price, 1_000_500 + o);
        assert_eq!(ex.order_book.asks[i].quantity, 10 + i as i64);
    }
    let tob = ex.get_tob();
    assert_eq!(tob.best_bid, 999_500);
    assert_eq!(tob.best_ask, 1_000_500);
}

#[test]
fn test_empty_book_defaults() {
    let book = OrderBook::new();
    assert!(book.best_bid().is_none());
    assert!(book.best_ask().is_none());
}

#[test]
fn test_fill_order_partial_level() {
    let mut ex = Exchange::new("A", 1_000_000, 1_000);
    let fills = ex.fill_order(Side::Buy, 25);
    // consumes level 0 (qty 10), level 1 (qty 11), then 4 of level 2
    assert_eq!(fills, vec![(1_000_500, 10), (1_000_600, 11), (1_000_700, 4)]);
    let total: i64 = fills.iter().map(|f| f.1).sum();
    assert_eq!(total, 25);
    // consumed levels drained; partial level keeps the remainder
    assert_eq!(ex.order_book.asks.len(), 8);
    assert_eq!(ex.order_book.asks[0], Level { price: 1_000_700, quantity: 8 });
    // the bid side is untouched
    assert_eq!(ex.order_book.bids.len(), 10);
}

#[test]
fn test_fill_order_exhausts_side() {
    let mut ex = Exchange::new("A", 1_000_000, 1_000);
    // total liquidity per side is 10 + 11 + ... + 19 = 145
    let fills = ex.fill_order(Side::Sell, 10_000);
    let total: i64 = fills.iter().map(|f| f.1).sum();
    assert_eq!(total, 145);
    assert_eq!(ex.order_book.bids.len(), 0);
    // degenerate empty-side default in the top-of-book read
    let tob = ex.get_tob();
    assert_eq!(tob.best_bid, 0);
    assert_eq!(tob.best_ask, 1_000_500);
}

#[test]
fn test_fill_order_exact_liquidity() {
    let mut ex = Exchange::new("A", 1_000_000, 1_000);
    let fills = ex.fill_order(Side::Buy, 145);
    let total: i64 = fills.iter().map(|f| f.1).sum();
    assert_eq!(total, 145);
    assert_eq!(ex.order_book.asks.len(), 0);
}

#[test]
fn test_step_mid_applies_walk_and_regenerates() {
    let mut ex = Exchange::new("A", 1_000_000, 1_000);
    ex.step_mid(250);
    assert_eq!(ex.mid_price, 1_000_250);
    assert_eq!(ex.get_tob().best_bid, 999_750);
    assert_eq!(ex.get_tob().best_ask, 1_000_750);
    // a drop below the spread is floored at the spread
    ex.step_mid(-2_000_000);
    assert_eq!(ex.mid_price, 1_000);
    assert_eq!(ex.get_tob().best_bid, 500);
    assert_eq!(ex.get_tob().best_ask, 1_500);
}

#[test]
fn test_update_price_stays_within_step_bound() {
    let mut ex = Exchange::new("A", 1_000_000, 1_000);
    let mut prev = ex.mid_price;
    for _ in 0..50 {
        ex.update_price();
        let m = ex.mid_price;
        // one uniform step of at most 0.05, floored at the spread
        assert!(m >= prev - 500);
        assert!(m < prev + 500 || m == ex.spread);
        assert!(m >= ex.spread);
        // the book is regenerated around the new mid price
        let tob = ex.get_tob();
        assert_eq!(tob.best_bid, m - 500);
        assert_eq!(tob.best_ask, m + 500);
        prev = m;
    }
}

#[test]
fn test_deep_bids_may_go_nonpositive_at_the_floor() {
    // the mid price is floored at the spread, which still lets deep bid
    // levels fall to or below zero; this boundary is kept as-is
    let ex = Exchange::new("A", 1_000, 1_000);
    assert_eq!(ex.order_book.bids[0].price, 500);
    assert_eq!(ex.order_book.bids[9].price, -400);
    assert_eq!(ex.order_book.asks[0].price, 1_500);
}
