use vstd::prelude::*;
use crate::arith::div_trunc;
use crate::ident::Account;
use crate::store::{GovernanceEvent, InstanceStore};

verus! {

/// How long after filing a dispute may be withdrawn.
pub const TWO_HOURS_SECS: u64 = 7_200;

#[derive(Clone, Copy, Debug, PartialEq, Eq, Structural)]
pub enum WithdrawalError {
    WindowExpired,
    VotesAlreadyCast,
}

/// The refund for a withdrawn dispute: 95% of the bond, rounded toward
/// zero.
pub open spec fn withdrawal_refund(bond_amount: i128) -> int {
    div_trunc(bond_amount * 95, 100)
}

/// The submitter (who must have authorised the call) withdraws a dispute
/// within two hours of filing and before any vote, getting 95% of the
/// bond back. The window is checked before the votes.
pub fn withdraw_dispute(
    store: &mut InstanceStore,
    submitter: &Account,
    dispute_id: u64,
    filed_at: u64,
    votes_cast: u32,
    bond_amount: i128,
    now: u64,
) -> (r: Result<i128, WithdrawalError>)
    requires
        filed_at + TWO_HOURS_SECS <= u64::MAX,
        i128::MIN <= bond_amount * 95 <= i128::MAX,
    ensures
        now > filed_at + TWO_HOURS_SECS ==> r == Err::<i128, WithdrawalError>(
            WithdrawalError::WindowExpired,
        ) && *final(store) == *old(store),
        now <= filed_at + TWO_HOURS_SECS && votes_cast > 0 ==> r == Err::<i128, WithdrawalError>(
            WithdrawalError::VotesAlreadyCast,
        ) && *final(store) == *old(store),
        now <= filed_at + TWO_HOURS_SECS && votes_cast == 0 ==> {
            &&& r matches Ok(refund) && refund == withdrawal_refund(bond_amount)
            &&& *final(store) == (InstanceStore { events: final(store).events, ..*old(store) })
            &&& final(store).events@ == old(store).events@.push(
                GovernanceEvent::DisputeWithdrawn { dispute_id },
            )
        },
{
    if now > filed_at + TWO_HOURS_SECS {
        return Err(WithdrawalError::WindowExpired);
    }
    if votes_cast > 0 {
        return Err(WithdrawalError::VotesAlreadyCast);
    }
    let refund = bond_amount * 95 / 100;
    store.events.push(GovernanceEvent::DisputeWithdrawn { dispute_id });
    Ok(refund)
}

} // verus!
