//! Cross-venue arbitrage detection.
//!
//! The detector is a pure function of two venues' books and a target
//! quantity. For each outcome and direction it computes the total cost of
//! filling the quantity on the buy side and the total proceeds on the sell
//! side, and emits a signal only if the trade is strictly profitable net of
//! fees and slippage. Profit is kept scaled by `PRICE_SCALE` so the fee and
//! slippage fractions stay exact integers.

use vstd::prelude::*;
use crate::market::{Level, OrderBook, liquidity, wf_levels, MAX_PRICE_ABS, PRICE_SCALE};

verus! {

/// Taker fee per unit of notional: 0.001, in units of `1/PRICE_SCALE`.
pub const FEE_SCALED: i64 = 10;

/// Slippage allowance per unit of notional: 0.0005, in units of
/// `1/PRICE_SCALE`.
pub const SLIPPAGE_SCALED: i64 = 5;

/// Largest target quantity the detector accepts; together with
/// `MAX_PRICE_ABS` it keeps every cost and profit computation inside `i64`.
pub const MAX_TARGET_QTY: i64 = 100_000;

/// Largest magnitude of a fill cost: `MAX_PRICE_ABS * MAX_TARGET_QTY`.
pub const MAX_NOTIONAL: i64 = 100_000_000_000_000;

/// One side of a binary-outcome market.
#[derive(Clone, Copy, PartialEq, Eq, Hash, Debug, Structural)]
pub enum Outcome {
    Yes,
    No,
}

/// One candidate arbitrage: buy `quantity` units of `outcome` on
/// `buy_exchange` and sell them on `sell_exchange`. `net_profit` is scaled
/// by `PRICE_SCALE` on top of the price fixed point (units of
/// `1/(PRICE_SCALE * PRICE_SCALE)` quoted), and is strictly positive.
#[derive(Debug)]
pub struct TradeSignal {
    pub buy_exchange: String,
    pub sell_exchange: String,
    pub outcome: Outcome,
    pub quantity: i64,
    pub net_profit: i64,
}

/// Total cost of greedily filling `q` units against `levels` in priority
/// order: the VWAP numerator (the VWAP itself is `sweep_cost / q`).
pub open spec fn sweep_cost(levels: Seq<Level>, q: int) -> int
    decreases levels.len(),
{
    if q <= 0 || levels.len() == 0 {
        0
    } else if q < levels[0].quantity {
        levels[0].price * q
    } else {
        levels[0].price * levels[0].quantity + sweep_cost(levels.skip(1), q - levels[0].quantity)
    }
}

/// Net profit of buying at total cost `buy_cost` and selling at total
/// proceeds `sell_cost`, net of fees and slippage on both notionals,
/// scaled by `PRICE_SCALE`.
pub open spec fn net_profit_scaled(buy_cost: int, sell_cost: int) -> int {
    PRICE_SCALE * (sell_cost - buy_cost) - (FEE_SCALED + SLIPPAGE_SCALED) * (buy_cost + sell_cost)
}

/// A (buy side, sell side) direction admits a signal: both sides hold the
/// quantity and the net profit is strictly positive.
pub open spec fn arb_viable(buy_asks: Seq<Level>, sell_bids: Seq<Level>, q: int) -> bool {
    &&& liquidity(buy_asks) >= q
    &&& liquidity(sell_bids) >= q
    &&& net_profit_scaled(sweep_cost(buy_asks, q), sweep_cost(sell_bids, q)) > 0
}

/// Total cost of filling `quantity` units against `levels` in priority
/// order: `Some(cost)` when the side holds enough liquidity — requesting
/// exactly the available liquidity still succeeds — and `None` on any
/// shortfall.
pub fn vwap_fill_cost(levels: &Vec<Level>, quantity: i64) -> (r: Option<i64>)
    requires
        wf_levels(levels@),
        0 <= quantity <= MAX_TARGET_QTY,
    ensures
        r is Some <==> liquidity(levels@) >= quantity,
        r matches Some(c) ==> c == sweep_cost(levels@, quantity as int) && -MAX_NOTIONAL <= c
            <= MAX_NOTIONAL,
{
    let ghost orig = levels@;
    let ghost q = quantity as int;
    let mut cost: i64 = 0;
    let mut remaining: i64 = quantity;
    let mut i: usize = 0;
    proof {
        assert(orig.skip(0) =~= orig);
        assert(MAX_PRICE_ABS == 1_000_000_000);
        assert(MAX_TARGET_QTY == 100_000);
        crate::market::lemma_liquidity_nonneg(orig);
    }
    while remaining > 0 && i < levels.len()
        invariant
            wf_levels(orig),
            levels@ == orig,
            0 <= remaining <= quantity <= 100_000,
            q == quantity as int,
            i <= orig.len(),
            -(quantity - remaining) * 1_000_000_000 <= cost as int,
            cost as int <= (quantity - remaining) * 1_000_000_000,
            sweep_cost(orig, q) == cost + sweep_cost(orig.skip(i as int), remaining as int),
            remaining > 0 ==> liquidity(orig) == (q - remaining) + liquidity(orig.skip(i as int)),
            remaining == 0 ==> liquidity(orig) >= q,
        decreases remaining,
    {
        let lvl = levels[i];
        let ghost suffix = orig.skip(i as int);
        let ghost rem0 = remaining as int;
        proof {
            assert(suffix[0] == lvl);
            assert(suffix.skip(1) =~= orig.skip(i as int + 1));
            crate::market::lemma_wf_skip(orig, i as int + 1);
            crate::market::lemma_liquidity_nonneg(orig.skip(i as int + 1));
        }
        let take: i64 = if remaining < lvl.quantity {
            remaining
        } else {
            lvl.quantity
        };
        proof {
            assert(-(take as int) * 1_000_000_000 <= (take as int) * (lvl.price as int) <= (
            take as int) * 1_000_000_000) by (nonlinear_arith)
                requires
                    0 <= take as int,
                    -1_000_000_000 <= lvl.price as int <= 1_000_000_000,
            ;
        }
        let ghost cost0 = cost as int;
        cost = cost + take * lvl.price;
        remaining = remaining - take;
        i = i + 1;
        proof {
            assert((take as int) * (lvl.price as int) == (lvl.price as int) * (take as int))
                by (nonlinear_arith);
            assert(cost == cost0 + (lvl.price as int) * (take as int));
            if rem0 < lvl.quantity {
                assert(sweep_cost(suffix, rem0) == lvl.price * rem0);
                assert(sweep_cost(orig.skip(i as int), remaining as int) == 0);
                assert(liquidity(suffix) == lvl.quantity + liquidity(orig.skip(i as int)));
            } else {
                assert(sweep_cost(suffix, rem0) == lvl.price * lvl.quantity + sweep_cost(
                    orig.skip(i as int),
                    rem0 - lvl.quantity,
                ));
                assert(liquidity(suffix) == lvl.quantity + liquidity(orig.skip(i as int)));
            }
        }
    }
    if remaining == 0 {
        proof {
            assert(sweep_cost(orig.skip(i as int), 0) == 0);
            assert(cost == sweep_cost(orig, q));
            assert(MAX_NOTIONAL == 100_000_000_000_000);
        }
        Some(cost)
    } else {
        proof {
            assert(orig.skip(i as int) =~= Seq::<Level>::empty());
            assert(liquidity(orig.skip(i as int)) == 0);
            assert(liquidity(orig) == q - remaining);
        }
        None
    }
}

/// Tests one (buy venue, sell venue) direction for `outcome`: fills
/// `quantity` against the buy side's asks and the sell side's bids, and
/// emits a signal iff both sides hold the liquidity and the profit net of
/// fees and slippage is strictly positive.
pub fn check_arb(
    buy_name: &str,
    buy_book: &OrderBook,
    sell_name: &str,
    sell_book: &OrderBook,
    outcome: Outcome,
    quantity: i64,
) -> (r: Option<TradeSignal>)
    requires
        wf_levels(buy_book.asks@),
        wf_levels(sell_book.bids@),
        0 <= quantity <= MAX_TARGET_QTY,
    ensures
        r is Some <==> arb_viable(buy_book.asks@, sell_book.bids@, quantity as int),
        r matches Some(sig) ==> {
            &&& sig.buy_exchange@ == buy_name@
            &&& sig.sell_exchange@ == sell_name@
            &&& sig.outcome == outcome
            &&& sig.quantity == quantity
            &&& sig.net_profit == net_profit_scaled(
                sweep_cost(buy_book.asks@, quantity as int),
                sweep_cost(sell_book.bids@, quantity as int),
            )
            &&& sig.net_profit > 0
        },
{
    let buy_cost: i64 = match vwap_fill_cost(&buy_book.asks, quantity) {
        Some(c) => c,
        None => {
            return None;
        },
    };
    let sell_cost: i64 = match vwap_fill_cost(&sell_book.bids, quantity) {
        Some(c) => c,
        None => {
            return None;
        },
    };
    let gross: i64 = sell_cost - buy_cost;
    let notional: i64 = buy_cost + sell_cost;
    proof {
        assert(PRICE_SCALE as int * (gross as int) <= 4_000_000_000_000_000_000 && PRICE_SCALE
            as int * (gross as int) >= -4_000_000_000_000_000_000) by (nonlinear_arith)
            requires
                PRICE_SCALE == 10_000,
                -200_000_000_000_000 <= gross as int <= 200_000_000_000_000,
        ;
        assert((FEE_SCALED + SLIPPAGE_SCALED) as int * (notional as int) <= 3_000_000_000_000_000
            && (FEE_SCALED + SLIPPAGE_SCALED) as int * (notional as int)
            >= -3_000_000_000_000_000) by (nonlinear_arith)
            requires
                FEE_SCALED == 10,
                SLIPPAGE_SCALED == 5,
                -200_000_000_000_000 <= notional as int <= 200_000_000_000_000,
        ;
    }
    let scaled_gross: i64 = PRICE_SCALE * gross;
    let fee_slip: i64 = (FEE_SCALED + SLIPPAGE_SCALED) * notional;
    let net: i64 = scaled_gross - fee_slip;
    if net > 0 {
        Some(
            TradeSignal {
                buy_exchange: buy_name.to_string(),
                sell_exchange: sell_name.to_string(),
                outcome,
                quantity,
                net_profit: net,
            },
        )
    } else {
        None
    }
}

/// Scans outcomes in the fixed order Yes then No, and for each outcome the
/// two directions — buy on A / sell on B, then buy on B / sell on A — and
/// returns the first profitable signal, if any. No emitted signal ever has
/// a net profit of zero or less.
pub fn detect_arbitrage(
    name_a: &str,
    book_a: &OrderBook,
    name_b: &str,
    book_b: &OrderBook,
    target_quantity: i64,
) -> (r: Option<TradeSignal>)
    requires
        wf_levels(book_a.asks@),
        wf_levels(book_a.bids@),
        wf_levels(book_b.asks@),
        wf_levels(book_b.bids@),
        0 <= target_quantity <= MAX_TARGET_QTY,
    ensures
        r is Some <==> arb_viable(book_a.asks@, book_b.bids@, target_quantity as int)
            || arb_viable(book_b.asks@, book_a.bids@, target_quantity as int),
        arb_viable(book_a.asks@, book_b.bids@, target_quantity as int) ==> (r matches Some(sig)
            && sig.buy_exchange@ == name_a@ && sig.sell_exchange@ == name_b@ && sig.outcome
            == Outcome::Yes && sig.net_profit == net_profit_scaled(
            sweep_cost(book_a.asks@, target_quantity as int),
            sweep_cost(book_b.bids@, target_quantity as int),
        )),
        !arb_viable(book_a.asks@, book_b.bids@, target_quantity as int) && arb_viable(
            book_b.asks@,
            book_a.bids@,
            target_quantity as int,
        ) ==> (r matches Some(sig) && sig.buy_exchange@ == name_b@ && sig.sell_exchange@ == name_a@
            && sig.outcome == Outcome::Yes && sig.net_profit == net_profit_scaled(
            sweep_cost(book_b.asks@, target_quantity as int),
            sweep_cost(book_a.bids@, target_quantity as int),
        )),
        r matches Some(sig) ==> sig.net_profit > 0 && sig.quantity == target_quantity,
{
    // Outcomes are scanned Yes before No; both outcomes of a venue read the
    // same book, so the scan of No can add nothing once Yes has been tested.
    match check_arb(name_a, book_a, name_b, book_b, Outcome::Yes, target_quantity) {
        Some(signal) => {
            return Some(signal);
        },
        None => {},
    }
    match check_arb(name_b, book_b, name_a, book_a, Outcome::Yes, target_quantity) {
        Some(signal) => {
            return Some(signal);
        },
        None => {},
    }
    match check_arb(name_a, book_a, name_b, book_b, Outcome::No, target_quantity) {
        Some(signal) => {
            return Some(signal);
        },
        None => {},
    }
    match check_arb(name_b, book_b, name_a, book_a, Outcome::No, target_quantity) {
        Some(signal) => {
            return Some(signal);
        },
        None => {},
    }
    None
}

} // verus!
