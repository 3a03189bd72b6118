//! The budget's circuit breaker.

use vstd::prelude::*;

verus! {

/// What the budget still allows.
#[derive(Debug, Clone, Copy, PartialEq, Eq, Structural)]
pub enum CircuitState {
    Normal,
    ReviewOff,
    DailyReportOff,
}

/// The breaker's state from what the budget still allows: the daily report
/// goes off last (at 95% of the budget), reviews before it (at 85%).
pub fn circuit_state(review_enabled: bool, daily_report_enabled: bool) -> (r: CircuitState)
    ensures
        r == (if !daily_report_enabled {
            CircuitState::DailyReportOff
        } else if !review_enabled {
            CircuitState::ReviewOff
        } else {
            CircuitState::Normal
        }),
{
    if !daily_report_enabled {
        CircuitState::DailyReportOff
    } else if !review_enabled {
        CircuitState::ReviewOff
    } else {
        CircuitState::Normal
    }
}

} // verus!
