use vstd::prelude::*;
use crate::arith::div_trunc;

verus! {

/// Length of the rolling withdrawal window.
pub const TWENTY_FOUR_HOURS_SECS: u64 = 86_400;

#[derive(Clone, Copy, Debug, PartialEq, Eq, Structural)]
pub enum WithdrawalLimitError {
    DailyLimitExceeded,
}

#[derive(Clone, Copy, Debug, PartialEq, Eq, Structural)]
pub struct WithdrawalWindow {
    pub window_started_at: u64,
    pub withdrawn_so_far: i128,
}

/// What has been withdrawn in the window that is current at `now`: the
/// recorded amount while the window runs, nothing once it has lapsed.
pub open spec fn withdrawn_in_window(window: WithdrawalWindow, now: u64) -> i128 {
    if now < window.window_started_at + TWENTY_FOUR_HOURS_SECS {
        window.withdrawn_so_far
    } else {
        0
    }
}

/// Allows a withdrawal only if, together with what the current window has
/// already paid out, it stays within a tenth of the vault reserves
/// (rounded toward zero).
pub fn check_daily_withdrawal_limit(
    window: &WithdrawalWindow,
    requested_amount: i128,
    vault_reserves: i128,
    now: u64,
) -> (r: Result<(), WithdrawalLimitError>)
    requires
        window.window_started_at + TWENTY_FOUR_HOURS_SECS <= u64::MAX,
        i128::MIN <= withdrawn_in_window(*window, now) + requested_amount <= i128::MAX,
    ensures
        r is Ok <==> withdrawn_in_window(*window, now) + requested_amount <= div_trunc(
            vault_reserves as int,
            10,
        ),
        r is Err ==> r == Err::<(), WithdrawalLimitError>(WithdrawalLimitError::DailyLimitExceeded),
{
    let in_window = now < window.window_started_at + TWENTY_FOUR_HOURS_SECS;
    let already_withdrawn = if in_window {
        window.withdrawn_so_far
    } else {
        0
    };
    let daily_cap = vault_reserves / 10;
    if already_withdrawn + requested_amount > daily_cap {
        return Err(WithdrawalLimitError::DailyLimitExceeded);
    }
    Ok(())
}

} // verus!
