//! Risk-limit engine: a stateful gate over aggregate position, per-outcome
//! exposure and drawdown, updated once per executed trade.

use vstd::prelude::*;
use vstd::math::abs;
use crate::i64_fits;
use crate::strategy::Outcome;

verus! {

/// Immutable risk configuration.
pub struct RiskLimits {
    pub max_position: i64,
    pub max_drawdown: i64,
    pub max_exposure_per_outcome: i64,
}

/// Current aggregate position, PnL water marks, and cumulative signed
/// exposure per outcome.
pub struct RiskEngine {
    pub limits: RiskLimits,
    pub current_position: i64,
    pub peak_pnl: i64,
    pub current_pnl: i64,
    pub exposure_yes: i64,
    pub exposure_no: i64,
}

/// The peak after recording `pnl`: raised to `pnl` if that is greater.
pub open spec fn peak_after(peak: int, pnl: int) -> int {
    if pnl > peak {
        pnl
    } else {
        peak
    }
}

/// The peak after recording a sequence of PnL values in order.
pub open spec fn peak_after_updates(peak: int, pnls: Seq<int>) -> int
    decreases pnls.len(),
{
    if pnls.len() == 0 {
        peak
    } else {
        peak_after_updates(peak_after(peak, pnls[0]), pnls.skip(1))
    }
}

/// Drawdown monotonicity: across any sequence of recorded PnL values the
/// peak never decreases, and it never sits below any recorded value — so
/// the drawdown `peak - current` is nonnegative after every update.
pub proof fn lemma_peak_monotone(peak: int, pnls: Seq<int>)
    ensures
        peak_after_updates(peak, pnls) >= peak,
        forall|k: int| 0 <= k < pnls.len() ==> peak_after_updates(peak, pnls) >= pnls[k],
    decreases pnls.len(),
{
    if pnls.len() > 0 {
        lemma_peak_monotone(peak_after(peak, pnls[0]), pnls.skip(1));
        assert forall|k: int| 0 <= k < pnls.len() implies peak_after_updates(peak, pnls)
            >= pnls[k] by {
            if k > 0 {
                assert(pnls.skip(1)[k - 1] == pnls[k]);
            }
        }
    }
}

impl RiskEngine {
    /// Cumulative signed exposure recorded for `outcome`.
    pub open spec fn exposure(&self, outcome: Outcome) -> int {
        match outcome {
            Outcome::Yes => self.exposure_yes as int,
            Outcome::No => self.exposure_no as int,
        }
    }

    /// The peak PnL never sits below the current PnL.
    pub open spec fn wf(&self) -> bool {
        self.peak_pnl >= self.current_pnl
    }

    /// A prospective trade of `quantity` units of `outcome` passes all
    /// three limits: projected aggregate position, projected per-outcome
    /// exposure, and current drawdown.
    pub open spec fn trade_allowed(&self, outcome: Outcome, quantity: int) -> bool {
        &&& abs(self.current_position + quantity) <= self.limits.max_position
        &&& abs(self.exposure(outcome) + quantity) <= self.limits.max_exposure_per_outcome
        &&& self.peak_pnl - self.current_pnl <= self.limits.max_drawdown
    }

    pub fn new(limits: RiskLimits) -> (r: Self)
        ensures
            r.wf(),
            r.limits == limits,
            r.current_position == 0,
            r.peak_pnl == 0,
            r.current_pnl == 0,
            r.exposure_yes == 0,
            r.exposure_no == 0,
    {
        Self {
            limits,
            current_position: 0,
            peak_pnl: 0,
            current_pnl: 0,
            exposure_yes: 0,
            exposure_no: 0,
        }
    }

    /// Gates a prospective trade: true iff the projected aggregate position
    /// and per-outcome exposure stay within their limits and the current
    /// drawdown does too. The checks run in that fixed order and
    /// short-circuit, but the result is their conjunction either way.
    pub fn check_trade(&self, outcome: Outcome, quantity: i64) -> (r: bool)
        ensures
            r == self.trade_allowed(outcome, quantity as int),
    {
        let new_position: i128 = (self.current_position as i128) + (quantity as i128);
        let abs_position: i128 = if new_position >= 0 {
            new_position
        } else {
            -new_position
        };
        if abs_position > (self.limits.max_position as i128) {
            return false;
        }
        let current_exposure: i64 = match outcome {
            Outcome::Yes => self.exposure_yes,
            Outcome::No => self.exposure_no,
        };
        let new_exposure: i128 = (current_exposure as i128) + (quantity as i128);
        let abs_exposure: i128 = if new_exposure >= 0 {
            new_exposure
        } else {
            -new_exposure
        };
        if abs_exposure > (self.limits.max_exposure_per_outcome as i128) {
            return false;
        }
        self.check_drawdown()
    }

    /// Whether the current drawdown `peak - current` sits within the limit.
    pub fn check_drawdown(&self) -> (r: bool)
        ensures
            r == (self.peak_pnl - self.current_pnl <= self.limits.max_drawdown),
    {
        let drawdown: i128 = (self.peak_pnl as i128) - (self.current_pnl as i128);
        drawdown <= (self.limits.max_drawdown as i128)
    }

    /// Records the post-trade aggregate state: sets the current position
    /// and PnL, raises the peak PnL to the current PnL if that is greater,
    /// and accumulates the outcome's exposure. Never rejected.
    pub fn update(&mut self, position: i64, pnl: i64, outcome: Outcome, outcome_qty: i64)
        requires
            i64_fits(old(self).exposure(outcome) + outcome_qty),
        ensures
            final(self).wf(),
            final(self).limits == old(self).limits,
            final(self).current_position == position,
            final(self).current_pnl == pnl,
            final(self).peak_pnl == peak_after(old(self).peak_pnl as int, pnl as int),
            final(self).peak_pnl >= old(self).peak_pnl,
            final(self).peak_pnl - final(self).current_pnl >= 0,
            final(self).exposure(outcome) == old(self).exposure(outcome) + outcome_qty,
            forall|o: Outcome| o != outcome ==> final(self).exposure(o) == old(self).exposure(o),
    {
        self.current_position = position;
        self.current_pnl = pnl;
        if self.current_pnl > self.peak_pnl {
            self.peak_pnl = self.current_pnl;
        }
        match outcome {
            Outcome::Yes => {
                self.exposure_yes = self.exposure_yes + outcome_qty;
            },
            Outcome::No => {
                self.exposure_no = self.exposure_no + outcome_qty;
            },
        }
    }
}

} // verus!
