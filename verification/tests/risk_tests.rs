// Quantities are whole units; PnL amounts are fixed point in units of
// 1/10_000 (50.0 is 500_000).

use arb_engine::risk::{RiskEngine, RiskLimits};
use arb_engine::strategy::Outcome;

#[test]
fn test_risk_limits() {
    let limits = RiskLimits {
        max_position: 10,
        max_drawdown: 1_000_000,
        max_exposure_per_outcome: 5,
    };
    let mut engine = RiskEngine::new(limits);

    // Initial state
    assert!(engine.check_trade(Outcome::Yes, 5));
    assert!(!engine.check_trade(Outcome::Yes, 6)); // Exceeds outcome exposure
    assert!(engine.check_drawdown());

    // Update state
    engine.update(5, 500_000, Outcome::Yes, 5);
    assert_eq!(engine.current_position, 5);
    assert_eq!(engine.current_pnl, 500_000);
    assert_eq!(engine.peak_pnl, 500_000);
    assert_eq!(engine.exposure_yes, 5);

    // Check trade with existing position
    assert!(!engine.check_trade(Outcome::Yes, 1)); // Exceeds outcome exposure (5+1 > 5)
    assert!(engine.check_trade(Outcome::No, 5)); // OK

    // Drawdown test
    engine.update(5, -600_000, Outcome::Yes, 0); // PnL dropped to -60
    assert!(!engine.check_drawdown()); // Drawdown is 110, limit is 100
    assert!(!engine.check_trade(Outcome::No, 1)); // Should fail due to drawdown
}

#[test]
fn test_limit_boundaries() {
    let limits = RiskLimits {
        max_position: 10,
        max_drawdown: 30_000,
        max_exposure_per_outcome: 10,
    };
    let mut engine = RiskEngine::new(limits);
    // exactly at the position and exposure limits: allowed
    assert!(engine.check_trade(Outcome::Yes, 10));
    assert!(engine.check_trade(Outcome::Yes, -10));
    // one beyond: rejected
    assert!(!engine.check_trade(Outcome::Yes, 11));
    assert!(!engine.check_trade(Outcome::Yes, -11));
    // drawdown exactly at the limit: allowed
    engine.update(0, 50_000, Outcome::Yes, 0);
    engine.update(0, 20_000, Outcome::Yes, 0);
    assert!(engine.check_drawdown());
    assert!(engine.check_trade(Outcome::Yes, 1));
    // one beyond the drawdown limit: rejected
    engine.update(0, 19_999, Outcome::Yes, 0);
    assert!(!engine.check_drawdown());
    assert!(!engine.check_trade(Outcome::Yes, 1));
}

#[test]
fn test_peak_pnl_monotone() {
    let limits = RiskLimits {
        max_position: 100,
        max_drawdown: 1_000_000,
        max_exposure_per_outcome: 100,
    };
    let mut engine = RiskEngine::new(limits);
    let pnls: [i64; 6] = [500, 200, 800, 800, -300, 100];
    let mut last_peak: i64 = 0;
    let mut idx: usize = 0;
    while idx < pnls.len() {
        engine.update(0, pnls[idx], Outcome::No, 1);
        // the peak never decreases and drawdown is never negative
        assert!(engine.peak_pnl >= last_peak);
        assert!(engine.peak_pnl - engine.current_pnl >= 0);
        last_peak = engine.peak_pnl;
        idx += 1;
    }
    assert_eq!(engine.peak_pnl, 800);
    assert_eq!(engine.exposure_no, 6);
    assert_eq!(engine.exposure_yes, 0);
}
