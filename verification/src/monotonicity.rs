use vstd::prelude::*;

verus! {

#[derive(Clone, Copy, Debug, PartialEq, Eq, Structural)]
pub enum PenaltyError {
    InvalidPenalty,
}

pub struct SeverityValidator;

/// Penalties strictly decrease from critical down to low.
pub open spec fn strictly_monotone(critical: u64, high: u64, medium: u64, low: u64) -> bool {
    critical > high && high > medium && medium > low
}

impl SeverityValidator {
    /// Checks that for equal overtime a more severe tier is penalised
    /// strictly more: critical > high > medium > low.
    pub fn validate_monotonicity(
        critical_penalty: u64,
        high_penalty: u64,
        medium_penalty: u64,
        low_penalty: u64,
    ) -> (r: Result<(), PenaltyError>)
        ensures
            r is Ok <==> strictly_monotone(critical_penalty, high_penalty, medium_penalty, low_penalty),
            r is Err ==> r == Err::<(), PenaltyError>(PenaltyError::InvalidPenalty),
    {
        if critical_penalty <= high_penalty || high_penalty <= medium_penalty || medium_penalty
            <= low_penalty {
            return Err(PenaltyError::InvalidPenalty);
        }
        Ok(())
    }
}

} // verus!
