use vstd::prelude::*;

verus! {

#[derive(Clone, Copy, Debug, PartialEq, Eq, Structural)]
pub enum InvalidConfigParameter {
    SlaTargetOutOfRange,
    PenaltyBpsOutOfRange,
}

/// Lowest accepted uptime target, 50.00%.
pub const MIN_SLA_TARGET_BPS: u32 = 5_000;
/// Highest accepted uptime target, 100.00%.
pub const MAX_SLA_TARGET_BPS: u32 = 10_000;
/// Highest accepted penalty, 100.00%.
pub const MAX_PENALTY_BPS: u32 = 10_000;

/// Validates the uptime target (50%..=100%) and the penalty (0..=100%),
/// reporting the target first when both are wrong.
pub fn assert_params_within_bounds(sla_target_bps: u32, penalty_bps: u32) -> (r: Result<
    (),
    InvalidConfigParameter,
>)
    ensures
        (sla_target_bps < MIN_SLA_TARGET_BPS || sla_target_bps > MAX_SLA_TARGET_BPS) ==> r
            == Err::<(), InvalidConfigParameter>(InvalidConfigParameter::SlaTargetOutOfRange),
        (MIN_SLA_TARGET_BPS <= sla_target_bps <= MAX_SLA_TARGET_BPS && penalty_bps
            > MAX_PENALTY_BPS) ==> r == Err::<(), InvalidConfigParameter>(
            InvalidConfigParameter::PenaltyBpsOutOfRange,
        ),
        (MIN_SLA_TARGET_BPS <= sla_target_bps <= MAX_SLA_TARGET_BPS && penalty_bps
            <= MAX_PENALTY_BPS) ==> r is Ok,
{
    if sla_target_bps < MIN_SLA_TARGET_BPS || sla_target_bps > MAX_SLA_TARGET_BPS {
        return Err(InvalidConfigParameter::SlaTargetOutOfRange);
    }
    if penalty_bps > MAX_PENALTY_BPS {
        return Err(InvalidConfigParameter::PenaltyBpsOutOfRange);
    }
    Ok(())
}

} // verus!
