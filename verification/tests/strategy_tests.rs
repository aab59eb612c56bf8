// Prices are fixed point in units of 1/10_000 of the quoted price;
// net profits carry one more factor of 10_000 so fee and slippage
// fractions stay exact integers.

use arb_engine::market::{Exchange, Level, OrderBook};
use arb_engine::strategy::{check_arb, detect_arbitrage, vwap_fill_cost, Outcome};

fn one_level_book(bid: Option<(i64, i64)>, ask: Option<(i64, i64)>) -> OrderBook {
    let mut book = OrderBook::new();
    if let Some((p, q)) = bid {
        book.bids.push(Level { price: p, quantity: q });
    }
    if let Some((p, q)) = ask {
        book.asks.push(Level { price: p, quantity: q });
    }
    book
}

#[test]
fn test_vwap_liquidity_boundary() {
    let ex = Exchange::new("A", 1_000_000, 1_000);
    // total ask liquidity is 145: exactly that much succeeds
    let all = vwap_fill_cost(&ex.order_book.asks, 145);
    assert_eq!(all, Some(145_146_000));
    // one unit more fails
    assert!(vwap_fill_cost(&ex.order_book.asks, 146).is_none());
}

#[test]
fn test_vwap_walks_levels_in_order() {
    let ex = Exchange::new("A", 1_000_000, 1_000);
    // 10 @ 100.05 + 11 @ 100.06 + 4 @ 100.07
    assert_eq!(vwap_fill_cost(&ex.order_book.asks, 25), Some(25_014_400));
    assert_eq!(vwap_fill_cost(&ex.order_book.asks, 0), Some(0));
}

#[test]
fn test_detect_arbitrage_profitable_direction() {
    let book_a = one_level_book(Some((4_000, 10)), Some((5_000, 10)));
    let book_b = one_level_book(Some((6_000, 10)), Some((7_000, 10)));
    let signal = detect_arbitrage("A", &book_a, "B", &book_b, 5).unwrap();
    // buy 5 @ 0.5 on A, sell 5 @ 0.6 on B:
    // scaled net = 10000*(30000-25000) - 15*(30000+25000)
    assert_eq!(signal.buy_exchange, "A");
    assert_eq!(signal.sell_exchange, "B");
    assert_eq!(signal.outcome, Outcome::Yes);
    assert_eq!(signal.quantity, 5);
    assert_eq!(signal.net_profit, 49_175_000);
    assert!(signal.net_profit > 0);

    // the reverse layout picks the other direction
    let signal2 = detect_arbitrage("A", &book_b, "B", &book_a, 5).unwrap();
    assert_eq!(signal2.buy_exchange, "B");
    assert_eq!(signal2.sell_exchange, "A");
    assert_eq!(signal2.net_profit, 49_175_000);
    assert!(signal2.net_profit > 0);
}

#[test]
fn test_detect_arbitrage_rejects_unprofitable() {
    // identical books: the spread is negative after fees, no signal
    let book_a = one_level_book(Some((5_900, 10)), Some((6_000, 10)));
    let book_b = one_level_book(Some((5_900, 10)), Some((6_000, 10)));
    assert!(detect_arbitrage("A", &book_a, "B", &book_b, 5).is_none());
}

#[test]
fn test_net_profit_zero_is_rejected() {
    // chosen so that 10000*(sell-buy) == 15*(buy+sell) exactly:
    // gross profit exactly cancels fees plus slippage, and the strict
    // test emits nothing
    let book_a = one_level_book(None, Some((1_997_000, 5)));
    let book_b = one_level_book(Some((2_003_000, 5)), None);
    assert!(check_arb("A", &book_a, "B", &book_b, Outcome::Yes, 1).is_none());
    assert!(detect_arbitrage("A", &book_a, "B", &book_b, 1).is_none());
}

#[test]
fn test_detect_arbitrage_insufficient_liquidity() {
    // profitable prices, but the sell side holds only 3 units
    let book_a = one_level_book(None, Some((5_000, 10)));
    let book_b = one_level_book(Some((6_000, 3)), None);
    assert!(detect_arbitrage("A", &book_a, "B", &book_b, 5).is_none());
    // at the available size the signal appears
    let signal = detect_arbitrage("A", &book_a, "B", &book_b, 3).unwrap();
    assert_eq!(signal.quantity, 3);
    assert!(signal.net_profit > 0);
}

#[test]
fn test_first_match_direction_priority() {
    // both directions are profitable; the buy-on-A / sell-on-B direction
    // is scanned first and must win
    let book_a = one_level_book(Some((6_000, 10)), Some((5_000, 10)));
    let book_b = one_level_book(Some((6_000, 10)), Some((5_000, 10)));
    let signal = detect_arbitrage("A", &book_a, "B", &book_b, 5).unwrap();
    assert_eq!(signal.buy_exchange, "A");
    assert_eq!(signal.sell_exchange, "B");
    assert_eq!(signal.outcome, Outcome::Yes);
}
