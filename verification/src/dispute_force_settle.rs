use vstd::prelude::*;
use crate::ident::Account;
use crate::store::{GovernanceEvent, InstanceStore};

verus! {

/// Inactivity after which a dispute may be force-settled.
pub const THIRTY_DAYS_SECS: u64 = 2_592_000;
/// Council signatures needed to force-settle.
pub const MIN_COUNCIL_SIGNERS: usize = 3;

#[derive(Clone, Copy, Debug, PartialEq, Eq, Structural)]
pub enum ForceSettleError {
    NotInactiveLongEnough,
    InsufficientCouncilSignatures,
}

/// Force-settles a dispute inactive for thirty days with `outcome`, given
/// at least three council signers (each of whom must have authorised the
/// call). Inactivity is checked before the signer count.
pub fn force_settle_dispute(
    store: &mut InstanceStore,
    dispute_id: u64,
    outcome: u32,
    last_activity_at: u64,
    council_signers: &Vec<Account>,
    now: u64,
) -> (r: Result<(), ForceSettleError>)
    requires
        last_activity_at + THIRTY_DAYS_SECS <= u64::MAX,
    ensures
        now < last_activity_at + THIRTY_DAYS_SECS ==> r == Err::<(), ForceSettleError>(
            ForceSettleError::NotInactiveLongEnough,
        ) && *final(store) == *old(store),
        now >= last_activity_at + THIRTY_DAYS_SECS && council_signers.len() < MIN_COUNCIL_SIGNERS
            ==> r == Err::<(), ForceSettleError>(ForceSettleError::InsufficientCouncilSignatures)
            && *final(store) == *old(store),
        now >= last_activity_at + THIRTY_DAYS_SECS && council_signers.len() >= MIN_COUNCIL_SIGNERS
            ==> {
            &&& r is Ok
            &&& *final(store) == (InstanceStore { events: final(store).events, ..*old(store) })
            &&& final(store).events@ == old(store).events@.push(
                GovernanceEvent::DisputeForceSettled { dispute_id, outcome },
            )
        },
{
    if now < last_activity_at + THIRTY_DAYS_SECS {
        return Err(ForceSettleError::NotInactiveLongEnough);
    }
    if council_signers.len() < MIN_COUNCIL_SIGNERS {
        return Err(ForceSettleError::InsufficientCouncilSignatures);
    }
    store.events.push(GovernanceEvent::DisputeForceSettled { dispute_id, outcome });
    Ok(())
}

} // verus!
