use vstd::prelude::*;

verus! {

/// Highest overtime multiplier that is ever applied to a base penalty.
pub const MAX_MULTIPLIER: u64 = 10;

/// Outcome of an overtime penalty calculation.
#[derive(Clone, Copy, Debug, PartialEq, Eq, Structural)]
pub struct PenaltyResult {
    pub final_penalty: u64,
    pub is_capped: bool,
}

pub struct OvertimeCalculator;

/// The multiplier actually applied: the requested one, cut down to the cap.
pub open spec fn effective_multiplier(overtime_multiplier: u64) -> u64 {
    if overtime_multiplier > MAX_MULTIPLIER {
        MAX_MULTIPLIER
    } else {
        overtime_multiplier
    }
}

impl OvertimeCalculator {
    /// Multiplies the base penalty by the overtime multiplier, capped at
    /// ten times the base, and flags results where the cap was hit.
    pub fn calculate_overtime_penalty(base_penalty: u64, overtime_multiplier: u64) -> (r:
        PenaltyResult)
        requires
            base_penalty * effective_multiplier(overtime_multiplier) <= u64::MAX,
        ensures
            r.final_penalty == base_penalty * effective_multiplier(overtime_multiplier),
            r.is_capped == (overtime_multiplier > MAX_MULTIPLIER),
    {
        let mut is_capped = false;
        let mut effective = overtime_multiplier;
        if effective > MAX_MULTIPLIER {
            effective = MAX_MULTIPLIER;
            is_capped = true;
        }
        PenaltyResult { final_penalty: base_penalty * effective, is_capped }
    }
}

} // verus!
