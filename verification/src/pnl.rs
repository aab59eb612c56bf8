//! Position and PnL tracking with weighted-average-cost accounting.
//!
//! A position stores its signed quantity together with its signed cost
//! basis — the quantity-weighted sum of its entry prices — so the average
//! entry price is the exact rational `cost_basis / quantity` and no state
//! is rounded: an increase adds to the basis, a reduction carves the closed
//! share out of it, and a flip reopens the remainder at the trade price.

use vstd::prelude::*;
use vstd::math::abs;
use vstd::arithmetic::div_mod::{lemma_div_by_multiple, lemma_div_is_ordered, lemma_div_nonincreasing, lemma_div_pos_is_pos};
use vstd::arithmetic::mul::lemma_mul_inequality;
use crate::i64_fits;
use crate::strategy::Outcome;

verus! {

/// A trade leg increases the position when the position is flat or the leg
/// has the direction of the open quantity.
pub open spec fn same_direction(q: int, tq: int) -> bool {
    q == 0 || (q > 0 && tq > 0) || (q < 0 && tq < 0)
}

/// The share of a position's cost basis attributed to closing `take` of its
/// `qty_abs` open units, truncated toward zero.
pub open spec fn closed_share(cost: int, take: int, qty_abs: int) -> int
    recommends
        0 < qty_abs,
        0 <= take <= qty_abs,
{
    if cost >= 0 {
        (cost * take) / qty_abs
    } else {
        -(((-cost) * take) / qty_abs)
    }
}

/// PnL realized by one trade leg of `tq` units at `price` against a position
/// of quantity `q` and cost basis `c`: nothing on an increase, the closed
/// share's gain on a reduction, the whole position's gain on a flip.
pub open spec fn trade_realized(q: int, c: int, tq: int, price: int) -> int {
    if tq == 0 || same_direction(q, tq) {
        0
    } else if abs(tq) <= abs(q) {
        (-tq) * price - closed_share(c, abs(tq) as int, abs(q) as int)
    } else {
        q * price - c
    }
}

/// Cost basis after one trade leg of `tq` units at `price` against a
/// position of quantity `q` and cost basis `c`. The quantity after the leg
/// is always `q + tq`.
pub open spec fn trade_cost_after(q: int, c: int, tq: int, price: int) -> int {
    if tq == 0 {
        c
    } else if same_direction(q, tq) {
        c + tq * price
    } else if abs(tq) <= abs(q) {
        c - closed_share(c, abs(tq) as int, abs(q) as int)
    } else {
        (q + tq) * price
    }
}

/// The closed share never exceeds the basis in magnitude, keeps its sign,
/// and equals the whole basis when the whole position closes.
pub proof fn lemma_closed_share_bounds(cost: int, take: int, qty_abs: int)
    requires
        0 < qty_abs,
        0 <= take <= qty_abs,
    ensures
        cost >= 0 ==> 0 <= closed_share(cost, take, qty_abs) <= cost,
        cost < 0 ==> cost <= closed_share(cost, take, qty_abs) <= 0,
        take == qty_abs ==> closed_share(cost, take, qty_abs) == cost,
{
    let m = if cost >= 0 {
        cost
    } else {
        -cost
    };
    assert(m * take >= 0) by (nonlinear_arith)
        requires m >= 0, take >= 0;
    lemma_div_pos_is_pos(m * take, qty_abs);
    lemma_mul_inequality(take, qty_abs, m);
    assert(m * take == take * m) by (nonlinear_arith);
    assert(m * qty_abs == qty_abs * m) by (nonlinear_arith);
    lemma_div_is_ordered(m * take, m * qty_abs, qty_abs);
    lemma_div_by_multiple(m, qty_abs);
    assert((m * qty_abs) / qty_abs == m);
    if take == qty_abs {
        assert((m * take) / qty_abs == m);
    }
}

/// Per-outcome open position: signed quantity (long positive, short
/// negative) and signed cost basis. The average entry price is the exact
/// rational `cost_basis / quantity`; a flat position has both fields 0.
#[derive(Clone, Copy, PartialEq, Eq, Debug, Structural)]
pub struct Position {
    pub quantity: i64,
    pub cost_basis: i64,
}

/// Average entry price of a position, truncated toward zero; 0 when flat.
pub open spec fn avg_price_of(q: int, c: int) -> int {
    if q == 0 {
        0
    } else if (c >= 0) == (q > 0) {
        (abs(c) as int) / (abs(q) as int)
    } else {
        -((abs(c) as int) / (abs(q) as int))
    }
}

impl Position {
    /// A flat position carries no cost basis.
    pub open spec fn wf(&self) -> bool {
        self.quantity == 0 ==> self.cost_basis == 0
    }

    /// Average entry price, truncated toward zero; 0 when the position is
    /// flat. The stored basis is exact; this is a derived, rounded view.
    pub fn avg_entry_price(&self) -> (r: i64)
        requires
            i64_fits(avg_price_of(self.quantity as int, self.cost_basis as int)),
        ensures
            r == avg_price_of(self.quantity as int, self.cost_basis as int),
    {
        if self.quantity == 0 {
            return 0;
        }
        let mc: u64 = if self.cost_basis >= 0 {
            self.cost_basis as u64
        } else {
            (-(self.cost_basis as i128)) as u64
        };
        let mq: u64 = if self.quantity >= 0 {
            self.quantity as u64
        } else {
            (-(self.quantity as i128)) as u64
        };
        let m: u64 = mc / mq;
        proof {
            assert(mc == abs(self.cost_basis as int));
            assert(mq == abs(self.quantity as int));
            lemma_div_pos_is_pos(mc as int, mq as int);
            lemma_div_nonincreasing(mc as int, mq as int);
        }
        if (self.cost_basis >= 0) == (self.quantity > 0) {
            m as i64
        } else {
            (-(m as i128)) as i64
        }
    }
}

/// Machine-limit side conditions for settling one trade leg: the new
/// quantity, new basis, realized PnL and updated accumulator all fit `i64`.
pub open spec fn step_fits(p: Position, tq: int, price: int, realized_acc: int) -> bool {
    &&& i64_fits(p.quantity + tq)
    &&& i64_fits(trade_cost_after(p.quantity as int, p.cost_basis as int, tq, price))
    &&& i64_fits(trade_realized(p.quantity as int, p.cost_basis as int, tq, price))
    &&& i64_fits(realized_acc + trade_realized(p.quantity as int, p.cost_basis as int, tq, price))
}

/// Mark prices per outcome; an outcome without a mark is skipped when
/// valuing open positions.
#[derive(Clone, Copy, PartialEq, Eq, Debug, Structural)]
pub struct MarkPrices {
    pub yes: Option<i64>,
    pub no: Option<i64>,
}

/// Unrealized PnL of one position at a mark price: `(mark - avg) * quantity`
/// computed exactly as `mark * quantity - cost_basis`; 0 without a mark.
pub open spec fn unrealized_for(p: Position, mark: Option<i64>) -> int {
    match mark {
        Some(m) => m * p.quantity - p.cost_basis,
        None => 0,
    }
}

/// Weighted-average-cost positions per outcome and the running realized
/// PnL accumulator.
pub struct PnlTracker {
    pub pos_yes: Position,
    pub pos_no: Position,
    pub realized_pnl: i64,
}

impl PnlTracker {
    /// The position tracked for `outcome`; an untraded outcome is flat.
    pub open spec fn position(&self, outcome: Outcome) -> Position {
        match outcome {
            Outcome::Yes => self.pos_yes,
            Outcome::No => self.pos_no,
        }
    }

    pub open spec fn wf(&self) -> bool {
        self.pos_yes.wf() && self.pos_no.wf()
    }

    /// Total unrealized PnL over the outcomes that have a mark price.
    pub open spec fn unrealized_total(&self, marks: MarkPrices) -> int {
        unrealized_for(self.pos_yes, marks.yes) + unrealized_for(self.pos_no, marks.no)
    }

    pub fn new() -> (r: Self)
        ensures
            r.wf(),
            r.pos_yes == (Position { quantity: 0, cost_basis: 0 }),
            r.pos_no == (Position { quantity: 0, cost_basis: 0 }),
            r.realized_pnl == 0,
    {
        Self {
            pos_yes: Position { quantity: 0, cost_basis: 0 },
            pos_no: Position { quantity: 0, cost_basis: 0 },
            realized_pnl: 0,
        }
    }

    /// Settles one signed trade leg of `quantity` units at `price` against
    /// the outcome's position and returns the leg's realized PnL: zero for
    /// an increase, the gain on the closed share for a reduction, the gain
    /// on the whole open quantity for a flip (which reopens the remainder
    /// at the trade price). A leg of zero quantity is a no-op. A position
    /// reduced to exactly flat keeps no cost basis.
    pub fn process_trade(&mut self, outcome: Outcome, quantity: i64, price: i64) -> (realized: i64)
        requires
            old(self).wf(),
            step_fits(
                old(self).position(outcome),
                quantity as int,
                price as int,
                old(self).realized_pnl as int,
            ),
        ensures
            final(self).wf(),
            realized == trade_realized(
                old(self).position(outcome).quantity as int,
                old(self).position(outcome).cost_basis as int,
                quantity as int,
                price as int,
            ),
            final(self).position(outcome).quantity == old(self).position(outcome).quantity
                + quantity,
            final(self).position(outcome).cost_basis == trade_cost_after(
                old(self).position(outcome).quantity as int,
                old(self).position(outcome).cost_basis as int,
                quantity as int,
                price as int,
            ),
            forall|o: Outcome|
                o != outcome ==> final(self).position(o) == old(self).position(o),
            final(self).realized_pnl == old(self).realized_pnl + realized,
            final(self).position(outcome).quantity == 0 ==> final(self).position(
                outcome,
            ).cost_basis == 0,
    {
        if quantity == 0 {
            return 0;
        }
        let p = match outcome {
            Outcome::Yes => self.pos_yes,
            Outcome::No => self.pos_no,
        };
        let q0 = p.quantity;
        let c0 = p.cost_basis;
        let ghost qi = q0 as int;
        let ghost ci = c0 as int;
        let ghost tqi = quantity as int;
        let ghost pri = price as int;
        let new_qty: i64 = q0 + quantity;
        let realized: i64;
        let new_cost: i64;
        if q0 == 0 || (q0 > 0 && quantity > 0) || (q0 < 0 && quantity < 0) {
            // increase: extend the basis, realize nothing
            let nc: i128 = (c0 as i128) + (quantity as i128) * (price as i128);
            proof {
                assert(nc == trade_cost_after(qi, ci, tqi, pri));
            }
            new_cost = nc as i64;
            realized = 0;
        } else {
            let aq: i128 = if q0 >= 0 {
                q0 as i128
            } else {
                -(q0 as i128)
            };
            let atq: i128 = if quantity >= 0 {
                quantity as i128
            } else {
                -(quantity as i128)
            };
            proof {
                assert(aq == abs(qi));
                assert(atq == abs(tqi));
            }
            if atq <= aq {
                // reduction: realize the closed share of the basis
                let share: i64 = allocate_cost(c0, atq, aq);
                proof {
                    lemma_closed_share_bounds(ci, atq as int, aq as int);
                }
                let r: i128 = -(quantity as i128) * (price as i128) - (share as i128);
                proof {
                    assert(r == trade_realized(qi, ci, tqi, pri));
                }
                realized = r as i64;
                new_cost = c0 - share;
                proof {
                    if new_qty == 0 {
                        assert(atq == aq);
                        assert(share == ci);
                    }
                }
            } else {
                // flip: close the whole position, reopen at the trade price
                let r: i128 = (q0 as i128) * (price as i128) - (c0 as i128);
                proof {
                    assert(r == trade_realized(qi, ci, tqi, pri));
                }
                realized = r as i64;
                let nc: i128 = (new_qty as i128) * (price as i128);
                proof {
                    assert(nc == trade_cost_after(qi, ci, tqi, pri));
                }
                new_cost = nc as i64;
            }
        }
        let np = Position { quantity: new_qty, cost_basis: new_cost };
        match outcome {
            Outcome::Yes => {
                self.pos_yes = np;
            },
            Outcome::No => {
                self.pos_no = np;
            },
        }
        self.realized_pnl = self.realized_pnl + realized;
        realized
    }

    /// Sums `(mark - avg_entry) * quantity` — exactly, as
    /// `mark * quantity - cost_basis` — over the outcomes that have a mark
    /// price; an outcome without one is skipped.
    pub fn get_total_unrealized_pnl(&self, prices: &MarkPrices) -> (r: i64)
        requires
            i64_fits(unrealized_for(self.pos_yes, prices.yes)),
            i64_fits(unrealized_for(self.pos_no, prices.no)),
            i64_fits(self.unrealized_total(*prices)),
        ensures
            r == self.unrealized_total(*prices),
    {
        let mut total: i128 = 0;
        match prices.yes {
            Some(m) => {
                total = total + (m as i128) * (self.pos_yes.quantity as i128) - (
                self.pos_yes.cost_basis as i128);
            },
            None => {},
        }
        match prices.no {
            Some(m) => {
                total = total + (m as i128) * (self.pos_no.quantity as i128) - (
                self.pos_no.cost_basis as i128);
            },
            None => {},
        }
        total as i64
    }

    /// Sum of the absolute open quantities across all tracked outcomes.
    pub fn get_total_position_abs(&self) -> (r: i64)
        requires
            i64_fits(abs(self.pos_yes.quantity as int) + abs(self.pos_no.quantity as int) as int),
        ensures
            r == abs(self.pos_yes.quantity as int) + abs(self.pos_no.quantity as int),
    {
        let ay: i128 = if self.pos_yes.quantity >= 0 {
            self.pos_yes.quantity as i128
        } else {
            -(self.pos_yes.quantity as i128)
        };
        let an: i128 = if self.pos_no.quantity >= 0 {
            self.pos_no.quantity as i128
        } else {
            -(self.pos_no.quantity as i128)
        };
        (ay + an) as i64
    }
}

/// Computes `closed_share` exactly: the cost attributed to closing `take`
/// of `qty_abs` open units of a position with basis `cost`.
fn allocate_cost(cost: i64, take: i128, qty_abs: i128) -> (r: i64)
    requires
        0 < qty_abs <= 0x8000_0000_0000_0000,
        0 <= take <= qty_abs,
    ensures
        r == closed_share(cost as int, take as int, qty_abs as int),
{
    let cm: u128 = if cost >= 0 {
        cost as u128
    } else {
        (-(cost as i128)) as u128
    };
    proof {
        assert(cm * take <= 0x8000_0000_0000_0000 * 0x8000_0000_0000_0000) by (nonlinear_arith)
            requires
                0 <= cm as int <= 0x8000_0000_0000_0000,
                0 <= take as int <= 0x8000_0000_0000_0000,
        ;
    }
    let num: u128 = cm * (take as u128);
    let d: u128 = num / (qty_abs as u128);
    proof {
        lemma_mul_inequality(take as int, qty_abs as int, cm as int);
        assert(cm as int * take as int == take as int * cm as int) by (nonlinear_arith);
        assert(cm as int * qty_abs as int == qty_abs as int * cm as int) by (nonlinear_arith);
        lemma_div_is_ordered(cm as int * take as int, cm as int * qty_abs as int, qty_abs as int);
        lemma_div_by_multiple(cm as int, qty_abs as int);
        lemma_div_pos_is_pos(cm as int * take as int, qty_abs as int);
        assert(0 <= d <= cm);
    }
    if cost >= 0 {
        d as i64
    } else {
        (-(d as i128)) as i64
    }
}

/// Net quantity of a sequence of (quantity, price) trade legs.
pub open spec fn trades_qty_sum(trades: Seq<(int, int)>) -> int
    decreases trades.len(),
{
    if trades.len() == 0 {
        0
    } else {
        trades[0].0 + trades_qty_sum(trades.skip(1))
    }
}

/// Quantity-weighted sum of the entry prices of a sequence of trade legs.
pub open spec fn trades_cost_sum(trades: Seq<(int, int)>) -> int
    decreases trades.len(),
{
    if trades.len() == 0 {
        0
    } else {
        trades[0].0 * trades[0].1 + trades_cost_sum(trades.skip(1))
    }
}

/// Position (quantity, cost basis) after settling a sequence of trade legs
/// in order, starting from quantity `q` and cost basis `c`.
pub open spec fn pos_after_trades(q: int, c: int, trades: Seq<(int, int)>) -> (int, int)
    decreases trades.len(),
{
    if trades.len() == 0 {
        (q, c)
    } else {
        pos_after_trades(
            q + trades[0].0,
            trade_cost_after(q, c, trades[0].0, trades[0].1),
            trades.skip(1),
        )
    }
}

/// Total PnL realized while settling a sequence of trade legs in order,
/// starting from quantity `q` and cost basis `c`.
pub open spec fn realized_after_trades(q: int, c: int, trades: Seq<(int, int)>) -> int
    decreases trades.len(),
{
    if trades.len() == 0 {
        0
    } else {
        trade_realized(q, c, trades[0].0, trades[0].1) + realized_after_trades(
            q + trades[0].0,
            trade_cost_after(q, c, trades[0].0, trades[0].1),
            trades.skip(1),
        )
    }
}

/// Average-cost invariant: settling any sequence of same-direction trade
/// legs from a position aligned with them (in particular, from flat)
/// realizes nothing, and leaves the quantity and the cost basis equal to
/// the running sums — so the average entry price is exactly the
/// quantity-weighted mean of all entry prices.
pub proof fn lemma_average_cost_invariant(q: int, c: int, trades: Seq<(int, int)>)
    requires
        (q >= 0 && forall|k: int| 0 <= k < trades.len() ==> (#[trigger] trades[k]).0 > 0) || (q
            <= 0 && forall|k: int| 0 <= k < trades.len() ==> (#[trigger] trades[k]).0 < 0),
    ensures
        pos_after_trades(q, c, trades) == (q + trades_qty_sum(trades), c + trades_cost_sum(trades)),
        realized_after_trades(q, c, trades) == 0,
    decreases trades.len(),
{
    if trades.len() == 0 {
    } else {
        let t0 = trades[0];
        assert(same_direction(q, t0.0));
        assert(trade_cost_after(q, c, t0.0, t0.1) == c + t0.0 * t0.1);
        assert(trade_realized(q, c, t0.0, t0.1) == 0);
        assert(forall|k: int|
            0 <= k < trades.skip(1).len() ==> #[trigger] trades.skip(1)[k] == trades[k + 1]);
        lemma_average_cost_invariant(q + t0.0, c + t0.0 * t0.1, trades.skip(1));
    }
}

} // verus!


