//! Order-book model and venue simulator.
//!
//! Prices are fixed-point integers in units of `1/PRICE_SCALE` of the quoted
//! price; quantities are whole units. A book side is a priority-ordered
//! sequence of levels: bids descending, asks ascending. Market orders consume
//! levels strictly in stored order.

use vstd::prelude::*;

verus! {

/// Fixed-point scale: one quoted price unit is `PRICE_SCALE` stored units.
pub const PRICE_SCALE: i64 = 10_000;

/// Distance between adjacent book levels (0.01 quoted).
pub const TICK_SIZE: i64 = 100;

/// Quantity of the level nearest the mid price; each deeper level adds one.
pub const BASE_QTY: i64 = 10;

/// Number of levels generated on each side of the book.
pub const BOOK_DEPTH: usize = 10;

/// Price distance from the touch to the deepest generated level:
/// `(BOOK_DEPTH - 1) * TICK_SIZE`.
pub const BOOK_EDGE: i64 = 900;

/// Bound on the magnitude of any stored price. It keeps every cost and
/// profit computation of the engine inside `i64`.
pub const MAX_PRICE_ABS: i64 = 1_000_000_000;

/// One price level of a book side.
#[derive(Clone, Copy, PartialEq, Eq, Debug, Structural)]
pub struct Level {
    pub price: i64,
    pub quantity: i64,
}

/// Every level holds a positive quantity and a price within the engine's
/// fixed-point range.
pub open spec fn wf_levels(levels: Seq<Level>) -> bool {
    forall|k: int|
        0 <= k < levels.len() ==> (#[trigger] levels[k]).quantity > 0
            && -MAX_PRICE_ABS <= levels[k].price <= MAX_PRICE_ABS
}

/// Prices never increase along the sequence (bid priority order).
pub open spec fn desc_prices(levels: Seq<Level>) -> bool {
    forall|i: int, j: int|
        0 <= i < j < levels.len() ==> (#[trigger] levels[i]).price >= (#[trigger] levels[j]).price
}

/// Prices never decrease along the sequence (ask priority order).
pub open spec fn asc_prices(levels: Seq<Level>) -> bool {
    forall|i: int, j: int|
        0 <= i < j < levels.len() ==> (#[trigger] levels[i]).price <= (#[trigger] levels[j]).price
}

/// Total quantity available on a book side.
pub open spec fn liquidity(levels: Seq<Level>) -> int
    decreases levels.len(),
{
    if levels.len() == 0 {
        0
    } else {
        levels[0].quantity + liquidity(levels.skip(1))
    }
}

/// The (price, quantity) pairs recorded when a market order for `q` units
/// consumes `levels` in priority order.
pub open spec fn fill_trace(levels: Seq<Level>, q: int) -> Seq<(i64, i64)>
    decreases levels.len(),
{
    if q <= 0 || levels.len() == 0 {
        Seq::empty()
    } else if q < levels[0].quantity {
        seq![(levels[0].price, q as i64)]
    } else {
        seq![(levels[0].price, levels[0].quantity)] + fill_trace(levels.skip(1), q - levels[0].quantity)
    }
}

/// The book side left after a market order for `q` units: fully consumed
/// levels are removed from the front, a partially consumed level remains
/// with its quantity reduced.
pub open spec fn levels_after_fill(levels: Seq<Level>, q: int) -> Seq<Level>
    decreases levels.len(),
{
    if q <= 0 || levels.len() == 0 {
        levels
    } else if q < levels[0].quantity {
        seq![Level { price: levels[0].price, quantity: (levels[0].quantity - q) as i64 }]
            + levels.skip(1)
    } else {
        levels_after_fill(levels.skip(1), q - levels[0].quantity)
    }
}

/// Sum of the quantities of a sequence of fills.
pub open spec fn filled_total(fills: Seq<(i64, i64)>) -> int
    decreases fills.len(),
{
    if fills.len() == 0 {
        0
    } else {
        fills[0].1 + filled_total(fills.skip(1))
    }
}

/// Dropping levels from the front keeps a side well formed.
pub proof fn lemma_wf_skip(levels: Seq<Level>, n: int)
    requires
        wf_levels(levels),
        0 <= n <= levels.len(),
    ensures
        wf_levels(levels.skip(n)),
{
    assert forall|k: int| 0 <= k < levels.skip(n).len() implies (#[trigger] levels.skip(
        n,
    )[k]).quantity > 0 && -MAX_PRICE_ABS <= levels.skip(n)[k].price <= MAX_PRICE_ABS by {
        assert(levels.skip(n)[k] == levels[n + k]);
    }
}

/// A side with positive level quantities offers nonnegative liquidity.
pub proof fn lemma_liquidity_nonneg(levels: Seq<Level>)
    requires
        wf_levels(levels),
    ensures
        liquidity(levels) >= 0,
    decreases levels.len(),
{
    if levels.len() > 0 {
        assert(wf_levels(levels.skip(1)));
        lemma_liquidity_nonneg(levels.skip(1));
    }
}

/// Fill conservation: a market order for `q` units fills exactly `q` units
/// when the side holds at least `q`, and exactly the available liquidity
/// otherwise. In particular the filled total never exceeds the request.
pub proof fn lemma_fill_conservation(levels: Seq<Level>, q: int)
    requires
        wf_levels(levels),
        q >= 0,
    ensures
        filled_total(fill_trace(levels, q)) == if q <= liquidity(levels) {
            q
        } else {
            liquidity(levels)
        },
    decreases levels.len(),
{
    lemma_liquidity_nonneg(levels);
    if q <= 0 || levels.len() == 0 {
    } else if q < levels[0].quantity {
        let t = fill_trace(levels, q);
        assert(t =~= seq![(levels[0].price, q as i64)]);
        assert(t.skip(1) =~= Seq::<(i64, i64)>::empty());
        assert(filled_total(t.skip(1)) == 0);
        assert(filled_total(t) == q);
        assert(wf_levels(levels.skip(1)));
        lemma_liquidity_nonneg(levels.skip(1));
        assert(liquidity(levels) == levels[0].quantity + liquidity(levels.skip(1)));
    } else {
        let head = (levels[0].price, levels[0].quantity);
        let rest = fill_trace(levels.skip(1), q - levels[0].quantity);
        let t = fill_trace(levels, q);
        assert(t == seq![head] + rest);
        assert(t[0] == head);
        assert(t.skip(1) =~= rest);
        assert(filled_total(t) == head.1 + filled_total(rest));
        assert(wf_levels(levels.skip(1)));
        lemma_fill_conservation(levels.skip(1), q - levels[0].quantity);
        assert(liquidity(levels) == levels[0].quantity + liquidity(levels.skip(1)));
    }
}

/// Filling preserves well-formedness and priority order of a book side.
pub proof fn lemma_fill_preserves_wf(levels: Seq<Level>, q: int)
    requires
        wf_levels(levels),
        q >= 0,
    ensures
        wf_levels(levels_after_fill(levels, q)),
        desc_prices(levels) ==> desc_prices(levels_after_fill(levels, q)),
        asc_prices(levels) ==> asc_prices(levels_after_fill(levels, q)),
    decreases levels.len(),
{
    if q <= 0 || levels.len() == 0 {
    } else if q < levels[0].quantity {
        let after = levels_after_fill(levels, q);
        assert(after[0].quantity == levels[0].quantity - q);
        assert(after[0].price == levels[0].price);
        assert(forall|k: int| 1 <= k < after.len() ==> after[k] == levels[k]);
        assert(wf_levels(after));
        if desc_prices(levels) {
            assert forall|i: int, j: int| 0 <= i < j < after.len() implies
                (#[trigger] after[i]).price >= (#[trigger] after[j]).price by {
                assert(after[i].price == levels[i].price);
                assert(after[j].price == levels[j].price);
            }
        }
        if asc_prices(levels) {
            assert forall|i: int, j: int| 0 <= i < j < after.len() implies
                (#[trigger] after[i]).price <= (#[trigger] after[j]).price by {
                assert(after[i].price == levels[i].price);
                assert(after[j].price == levels[j].price);
            }
        }
    } else {
        assert(wf_levels(levels.skip(1)));
        if desc_prices(levels) {
            assert(desc_prices(levels.skip(1)));
        }
        if asc_prices(levels) {
            assert(asc_prices(levels.skip(1)));
        }
        lemma_fill_preserves_wf(levels.skip(1), q - levels[0].quantity);
    }
}

/// Depth-ordered price/quantity levels for one venue: bids descending,
/// asks ascending.
#[derive(Clone, Debug)]
pub struct OrderBook {
    pub bids: Vec<Level>,
    pub asks: Vec<Level>,
}

impl OrderBook {
    /// Both sides are well formed and in priority order.
    pub open spec fn wf(&self) -> bool {
        wf_levels(self.bids@) && wf_levels(self.asks@) && desc_prices(self.bids@)
            && asc_prices(self.asks@)
    }

    pub fn new() -> (r: Self)
        ensures
            r.bids@ =~= Seq::<Level>::empty(),
            r.asks@ =~= Seq::<Level>::empty(),
            r.wf(),
    {
        Self { bids: Vec::new(), asks: Vec::new() }
    }

    /// Price of the first bid level, if the side is nonempty.
    pub fn best_bid(&self) -> (r: Option<i64>)
        ensures
            self.bids@.len() == 0 ==> r is None,
            self.bids@.len() > 0 ==> r == Some(self.bids@[0].price),
    {
        if self.bids.len() > 0 {
            Some(self.bids[0].price)
        } else {
            None
        }
    }

    /// Price of the first ask level, if the side is nonempty.
    pub fn best_ask(&self) -> (r: Option<i64>)
        ensures
            self.asks@.len() == 0 ==> r is None,
            self.asks@.len() > 0 ==> r == Some(self.asks@[0].price),
    {
        if self.asks.len() > 0 {
            Some(self.asks[0].price)
        } else {
            None
        }
    }
}

/// Direction of a market order.
#[derive(Clone, Copy, PartialEq, Eq, Debug, Structural)]
pub enum Side {
    Buy,
    Sell,
}

/// The bid side generated around mid price `mid` with half-spread `half`:
/// level `i` sits `i` ticks below the touch and offers `BASE_QTY + i` units.
pub open spec fn gen_bids(mid: int, half: int) -> Seq<Level> {
    Seq::new(
        BOOK_DEPTH as nat,
        |i: int|
            Level {
                price: (mid - half - i * (TICK_SIZE as int)) as i64,
                quantity: (BASE_QTY + i) as i64,
            },
    )
}

/// The ask side generated around mid price `mid` with half-spread `half`.
pub open spec fn gen_asks(mid: int, half: int) -> Seq<Level> {
    Seq::new(
        BOOK_DEPTH as nat,
        |i: int|
            Level {
                price: (mid + half + i * (TICK_SIZE as int)) as i64,
                quantity: (BASE_QTY + i) as i64,
            },
    )
}

/// The mid price after one random-walk step `d`, floored at the spread.
pub open spec fn stepped_mid(mid: int, d: int, spread: int) -> int {
    if mid + d < spread {
        spread
    } else {
        mid + d
    }
}

/// A simulated venue: a name, an owned order book, and the walk state the
/// book is regenerated from.
pub struct Exchange {
    pub name: String,
    pub order_book: OrderBook,
    pub mid_price: i64,
    pub spread: i64,
    pub depth: usize,
}

impl Exchange {
    /// The venue's simulation state stays inside the fixed-point range, so
    /// every generated book price does too, and the book is well formed.
    pub open spec fn wf(&self) -> bool {
        &&& self.depth == BOOK_DEPTH
        &&& 0 <= self.spread
        &&& self.spread + self.spread / 2 + BOOK_EDGE <= MAX_PRICE_ABS
        &&& -MAX_PRICE_ABS <= self.mid_price - self.spread / 2 - BOOK_EDGE
        &&& self.mid_price + self.spread / 2 + BOOK_EDGE <= MAX_PRICE_ABS
        &&& self.order_book.wf()
    }

    /// The book equals the one generated from the current walk state.
    pub open spec fn book_is_generated(&self) -> bool {
        self.order_book.bids@ == gen_bids(self.mid_price as int, self.spread as int / 2)
            && self.order_book.asks@ == gen_asks(self.mid_price as int, self.spread as int / 2)
    }

    pub fn new(name: &str, initial_price: i64, spread: i64) -> (r: Self)
        requires
            0 <= spread,
            spread + spread / 2 + BOOK_EDGE <= MAX_PRICE_ABS,
            -MAX_PRICE_ABS <= initial_price - spread / 2 - BOOK_EDGE,
            initial_price + spread / 2 + BOOK_EDGE <= MAX_PRICE_ABS,
        ensures
            r.wf(),
            r.name@ == name@,
            r.mid_price == initial_price,
            r.spread == spread,
            r.book_is_generated(),
    {
        let mut exchange = Self {
            name: name.to_string(),
            order_book: OrderBook::new(),
            mid_price: initial_price,
            spread,
            depth: BOOK_DEPTH,
        };
        exchange.generate_order_book();
        exchange
    }

    /// Rebuilds both sides of the book from the current mid price, spread
    /// and depth.
    fn generate_order_book(&mut self)
        requires
            old(self).depth == BOOK_DEPTH,
            0 <= old(self).spread,
            -MAX_PRICE_ABS <= old(self).mid_price - old(self).spread / 2 - BOOK_EDGE,
            old(self).mid_price + old(self).spread / 2 + BOOK_EDGE
                <= MAX_PRICE_ABS,
        ensures
            final(self).name@ == old(self).name@,
            final(self).mid_price == old(self).mid_price,
            final(self).spread == old(self).spread,
            final(self).depth == old(self).depth,
            final(self).book_is_generated(),
            final(self).order_book.wf(),
    {
        let half: i64 = ((self.spread as u64) / 2) as i64;
        let ghost m = self.mid_price as int;
        let ghost h = half as int;
        let mut bids: Vec<Level> = Vec::new();
        let mut asks: Vec<Level> = Vec::new();
        let mut i: usize = 0;
        while i < self.depth
            invariant
                self.depth == BOOK_DEPTH,
                0 <= self.spread,
                h == self.spread as int / 2,
                h == half as int,
                m == self.mid_price as int,
                -MAX_PRICE_ABS <= m - h - BOOK_EDGE,
                m + h + BOOK_EDGE <= MAX_PRICE_ABS,
                i <= BOOK_DEPTH,
                bids@.len() == i,
                asks@.len() == i,
                forall|k: int| 0 <= k < i ==> #[trigger] bids@[k] == gen_bids(m, h)[k],
                forall|k: int| 0 <= k < i ==> #[trigger] asks@[k] == gen_asks(m, h)[k],
            decreases BOOK_DEPTH - i,
        {
            let offset: i64 = (i as i64) * TICK_SIZE;
            proof {
                assert(0 <= (i as int) * (TICK_SIZE as int) <= BOOK_EDGE)
                    by (nonlinear_arith)
                    requires 0 <= i as int <= BOOK_DEPTH - 1, TICK_SIZE == 100, BOOK_DEPTH == 10, BOOK_EDGE == 900;
            }
            bids.push(Level { price: self.mid_price - half - offset, quantity: BASE_QTY + i as i64 });
            asks.push(Level { price: self.mid_price + half + offset, quantity: BASE_QTY + i as i64 });
            proof {
                let k = i as int;
                assert(gen_bids(m, h)[k] == (Level {
                    price: (m - h - k * (TICK_SIZE as int)) as i64,
                    quantity: (BASE_QTY + k) as i64,
                }));
                assert(gen_asks(m, h)[k] == (Level {
                    price: (m + h + k * (TICK_SIZE as int)) as i64,
                    quantity: (BASE_QTY + k) as i64,
                }));
                assert(bids@[k] == gen_bids(m, h)[k]);
                assert(asks@[k] == gen_asks(m, h)[k]);
            }
            i = i + 1;
        }
        proof {
            assert(bids@ =~= gen_bids(m, h));
            assert(asks@ =~= gen_asks(m, h));
            lemma_gen_book_wf(m, h);
        }
        self.order_book.bids = bids;
        self.order_book.asks = asks;
    }

    /// Draws one random-walk step, floors the mid price at the spread, and
    /// regenerates the order book.
    pub fn update_price(&mut self)
        requires
            old(self).wf(),
            old(self).mid_price + MID_STEP_BOUND + old(self).spread / 2 + BOOK_EDGE <= MAX_PRICE_ABS,
        ensures
            final(self).wf(),
            final(self).name@ == old(self).name@,
            final(self).spread == old(self).spread,
            final(self).depth == old(self).depth,
            final(self).book_is_generated(),
            exists|d: int|
                -MID_STEP_BOUND <= d < MID_STEP_BOUND && final(self).mid_price as int
                    == stepped_mid(old(self).mid_price as int, d, old(self).spread as int),
    {
        let change = sample_mid_price_step();
        self.step_mid(change);
        proof {
            assert(self.mid_price as int == stepped_mid(
                old(self).mid_price as int,
                change as int,
                old(self).spread as int,
            ));
        }
    }

    /// Applies one mid-price step `change` deterministically: the new mid
    /// price is `old mid + change`, floored at the spread, and the book is
    /// regenerated from it.
    pub fn step_mid(&mut self, change: i64)
        requires
            old(self).wf(),
            i64::MIN <= old(self).mid_price + change,
            old(self).mid_price + change + old(self).spread / 2 + BOOK_EDGE <= MAX_PRICE_ABS,
        ensures
            final(self).wf(),
            final(self).name@ == old(self).name@,
            final(self).spread == old(self).spread,
            final(self).depth == old(self).depth,
            final(self).mid_price as int == stepped_mid(
                old(self).mid_price as int,
                change as int,
                old(self).spread as int,
            ),
            final(self).book_is_generated(),
    {
        self.mid_price = self.mid_price + change;
        if self.mid_price < self.spread {
            self.mid_price = self.spread;
        }
        self.generate_order_book();
    }

    /// Fills a market order against the given side of the book, consuming
    /// levels in priority order and mutating the book in place. Returns the
    /// (price, quantity) pairs actually executed.
    pub fn fill_order(&mut self, side: Side, quantity: i64) -> (fills: Vec<(i64, i64)>)
        requires
            old(self).wf(),
            quantity >= 0,
        ensures
            final(self).wf(),
            final(self).name@ == old(self).name@,
            final(self).mid_price == old(self).mid_price,
            final(self).spread == old(self).spread,
            final(self).depth == old(self).depth,
            side == Side::Buy ==> {
                &&& fills@ == fill_trace(old(self).order_book.asks@, quantity as int)
                &&& final(self).order_book.asks@ == levels_after_fill(
                    old(self).order_book.asks@,
                    quantity as int,
                )
                &&& final(self).order_book.bids@ == old(self).order_book.bids@
            },
            side == Side::Sell ==> {
                &&& fills@ == fill_trace(old(self).order_book.bids@, quantity as int)
                &&& final(self).order_book.bids@ == levels_after_fill(
                    old(self).order_book.bids@,
                    quantity as int,
                )
                &&& final(self).order_book.asks@ == old(self).order_book.asks@
            },
    {
        match side {
            Side::Buy => {
                let fills = fill_side(&mut self.order_book.asks, quantity);
                proof {
                    lemma_fill_preserves_wf(old(self).order_book.asks@, quantity as int);
                }
                fills
            },
            Side::Sell => {
                let fills = fill_side(&mut self.order_book.bids, quantity);
                proof {
                    lemma_fill_preserves_wf(old(self).order_book.bids@, quantity as int);
                }
                fills
            },
        }
    }

    /// Current best bid and best ask, with 0 standing for an empty side.
    pub fn get_tob(&self) -> (r: TopOfBook)
        ensures
            r.best_bid == if self.order_book.bids@.len() == 0 {
                0
            } else {
                self.order_book.bids@[0].price
            },
            r.best_ask == if self.order_book.asks@.len() == 0 {
                0
            } else {
                self.order_book.asks@[0].price
            },
    {
        let bid = match self.order_book.best_bid() {
            Some(p) => p,
            None => 0,
        };
        let ask = match self.order_book.best_ask() {
            Some(p) => p,
            None => 0,
        };
        TopOfBook { best_bid: bid, best_ask: ask }
    }
}

/// Magnitude bound of one random mid-price step (0.05 quoted).
pub const MID_STEP_BOUND: i64 = 500;

/// Relies on `rand::rng` and `rand::Rng::random_range` over the half-open
/// integer range `-MID_STEP_BOUND..MID_STEP_BOUND`: the sample lies in that
/// range (the range is nonempty, so the call cannot panic). The draw is
/// random; nothing more is assumed of it.
#[verifier::external_body]
fn sample_mid_price_step() -> (r: i64)
    ensures
        -MID_STEP_BOUND <= r < MID_STEP_BOUND,
{
    let mut rng = rand::rng();
    rand::Rng::random_range(&mut rng, -MID_STEP_BOUND..MID_STEP_BOUND)
}

/// A generated book side is well formed: quantities positive, prices in
/// range and in priority order on both sides.
proof fn lemma_gen_book_wf(mid: int, half: int)
    requires
        0 <= half,
        -MAX_PRICE_ABS <= mid - half - BOOK_EDGE,
        mid + half + BOOK_EDGE <= MAX_PRICE_ABS,
    ensures
        wf_levels(gen_bids(mid, half)),
        wf_levels(gen_asks(mid, half)),
        desc_prices(gen_bids(mid, half)),
        asc_prices(gen_asks(mid, half)),
{
    let bids = gen_bids(mid, half);
    let asks = gen_asks(mid, half);
    assert forall|k: int| 0 <= k < bids.len() implies (#[trigger] bids[k]).quantity > 0
        && -MAX_PRICE_ABS <= bids[k].price <= MAX_PRICE_ABS by {
        assert(0 <= k * (TICK_SIZE as int) <= BOOK_EDGE)
            by (nonlinear_arith)
            requires 0 <= k <= BOOK_DEPTH - 1, TICK_SIZE == 100, BOOK_DEPTH == 10, BOOK_EDGE == 900;
    }
    assert forall|k: int| 0 <= k < asks.len() implies (#[trigger] asks[k]).quantity > 0
        && -MAX_PRICE_ABS <= asks[k].price <= MAX_PRICE_ABS by {
        assert(0 <= k * (TICK_SIZE as int) <= BOOK_EDGE)
            by (nonlinear_arith)
            requires 0 <= k <= BOOK_DEPTH - 1, TICK_SIZE == 100, BOOK_DEPTH == 10, BOOK_EDGE == 900;
    }
    assert forall|i: int, j: int| 0 <= i < j < bids.len() implies (#[trigger] bids[i]).price
        >= (#[trigger] bids[j]).price by {
        assert(i * (TICK_SIZE as int) < j * (TICK_SIZE as int)) by (nonlinear_arith)
            requires 0 <= i < j, TICK_SIZE == 100;
        assert(0 <= i * (TICK_SIZE as int) <= BOOK_EDGE)
            by (nonlinear_arith)
            requires 0 <= i <= BOOK_DEPTH - 1, TICK_SIZE == 100, BOOK_DEPTH == 10, BOOK_EDGE == 900;
        assert(0 <= j * (TICK_SIZE as int) <= BOOK_EDGE)
            by (nonlinear_arith)
            requires 0 <= j <= BOOK_DEPTH - 1, TICK_SIZE == 100, BOOK_DEPTH == 10, BOOK_EDGE == 900;
    }
    assert forall|i: int, j: int| 0 <= i < j < asks.len() implies (#[trigger] asks[i]).price
        <= (#[trigger] asks[j]).price by {
        assert(i * (TICK_SIZE as int) < j * (TICK_SIZE as int)) by (nonlinear_arith)
            requires 0 <= i < j, TICK_SIZE == 100;
        assert(0 <= i * (TICK_SIZE as int) <= BOOK_EDGE)
            by (nonlinear_arith)
            requires 0 <= i <= BOOK_DEPTH - 1, TICK_SIZE == 100, BOOK_DEPTH == 10, BOOK_EDGE == 900;
        assert(0 <= j * (TICK_SIZE as int) <= BOOK_EDGE)
            by (nonlinear_arith)
            requires 0 <= j <= BOOK_DEPTH - 1, TICK_SIZE == 100, BOOK_DEPTH == 10, BOOK_EDGE == 900;
    }
}

/// Consumes levels from the front of `levels` to fill `quantity` units,
/// recording each executed (price, quantity) pair. Fully consumed levels
/// are removed; a partially consumed one stays with its quantity reduced.
fn fill_side(levels: &mut Vec<Level>, quantity: i64) -> (fills: Vec<(i64, i64)>)
    requires
        wf_levels(old(levels)@),
        quantity >= 0,
    ensures
        fills@ == fill_trace(old(levels)@, quantity as int),
        final(levels)@ == levels_after_fill(old(levels)@, quantity as int),
{
    let ghost orig = levels@;
    let ghost q = quantity as int;
    let mut fills: Vec<(i64, i64)> = Vec::new();
    let mut remaining: i64 = quantity;
    let mut i: usize = 0;
    let mut partial: bool = false;
    let mut partial_qty: i64 = 0;
    proof {
        assert(orig.skip(0) =~= orig);
    }
    while remaining > 0 && i < levels.len()
        invariant
            wf_levels(orig),
            levels@ == orig,
            0 <= remaining <= quantity,
            i <= orig.len(),
            !partial ==> fill_trace(orig, q) == fills@ + fill_trace(
                orig.skip(i as int),
                remaining as int,
            ),
            !partial ==> levels_after_fill(orig, q) == levels_after_fill(
                orig.skip(i as int),
                remaining as int,
            ),
            partial ==> {
                &&& remaining == 0
                &&& i < orig.len()
                &&& 0 < partial_qty < orig[i as int].quantity
                &&& fill_trace(orig, q) == fills@
                &&& levels_after_fill(orig, q) == seq![
                    (Level { price: orig[i as int].price, quantity: partial_qty }),
                ] + orig.skip(i as int + 1)
            },
        decreases remaining,
    {
        let lvl = levels[i];
        let ghost suffix = orig.skip(i as int);
        proof {
            assert(suffix[0] == lvl);
            assert(suffix.skip(1) =~= orig.skip(i as int + 1));
        }
        let ghost pre_fills = fills@;
        if remaining < lvl.quantity {
            fills.push((lvl.price, remaining));
            partial_qty = lvl.quantity - remaining;
            partial = true;
            proof {
                assert(fill_trace(suffix, remaining as int) =~= seq![(lvl.price, remaining)]);
                assert(fills@ =~= pre_fills + fill_trace(suffix, remaining as int));
                assert(fills@ =~= fill_trace(orig, q));
                assert(levels_after_fill(suffix, remaining as int) =~= seq![
                    (Level { price: lvl.price, quantity: partial_qty }),
                ] + orig.skip(i as int + 1));
            }
            remaining = 0;
        } else {
            fills.push((lvl.price, lvl.quantity));
            proof {
                let head = (lvl.price, lvl.quantity);
                let rest = fill_trace(suffix.skip(1), remaining - lvl.quantity);
                assert(fill_trace(suffix, remaining as int) == seq![head] + rest);
                assert(fills@ =~= pre_fills + seq![head]);
                assert(pre_fills + (seq![head] + rest) =~= fills@ + rest);
                assert(fill_trace(orig, q) == fills@ + fill_trace(
                    orig.skip(i as int + 1),
                    remaining - lvl.quantity,
                ));
                assert(levels_after_fill(suffix, remaining as int) == levels_after_fill(
                    orig.skip(i as int + 1),
                    remaining - lvl.quantity,
                ));
            }
            remaining = remaining - lvl.quantity;
            i = i + 1;
        }
    }
    let ghost target = levels_after_fill(orig, q);
    let mut rest: Vec<Level> = Vec::new();
    let mut j: usize = 0;
    if partial {
        let n = levels.len();
        let lvl = levels[i];
        rest.push(Level { price: lvl.price, quantity: partial_qty });
        proof {
            assert(i < n);
        }
        j = i + 1;
        proof {
            assert(target =~= rest@ + orig.skip(j as int));
        }
    } else {
        j = i;
        proof {
            if remaining == 0 {
                assert(fill_trace(orig.skip(i as int), 0) =~= Seq::<(i64, i64)>::empty());
                assert(fills@ =~= fill_trace(orig, q));
                assert(levels_after_fill(orig.skip(i as int), 0) == orig.skip(i as int));
            } else {
                assert(orig.skip(i as int) =~= Seq::<Level>::empty());
                assert(fill_trace(orig.skip(i as int), remaining as int)
                    =~= Seq::<(i64, i64)>::empty());
                assert(fills@ =~= fill_trace(orig, q));
                assert(levels_after_fill(orig.skip(i as int), remaining as int)
                    == orig.skip(i as int));
            }
            assert(target =~= rest@ + orig.skip(j as int));
        }
    }
    while j < levels.len()
        invariant
            levels@ == orig,
            j <= orig.len(),
            target == rest@ + orig.skip(j as int),
        decreases orig.len() - j,
    {
        let lvl = levels[j];
        rest.push(lvl);
        proof {
            assert(orig.skip(j as int) =~= seq![lvl] + orig.skip(j as int + 1));
            assert(rest@ + orig.skip(j as int + 1) =~= target);
        }
        j = j + 1;
    }
    proof {
        assert(orig.skip(orig.len() as int) =~= Seq::<Level>::empty());
        assert(rest@ =~= target);
    }
    *levels = rest;
    fills
}

/// Convenience read of the current touch prices; 0 stands for an empty side.
#[derive(Clone, Copy, PartialEq, Eq, Debug, Structural)]
pub struct TopOfBook {
    pub best_bid: i64,
    pub best_ask: i64,
}

} // verus!
