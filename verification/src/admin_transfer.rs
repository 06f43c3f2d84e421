use vstd::prelude::*;
use crate::ident::Account;
use crate::store::{holds, is_holder, GovernanceEvent, InstanceStore};

verus! {

/// How long a proposed admin has to accept, in seconds.
pub const PROPOSAL_EXPIRATION_SECONDS: u64 = 604_800;

#[derive(Clone, Copy, Debug, PartialEq, Eq, Structural)]
pub enum AdminTransferError {
    ProposalExpired,
    NoPendingProposal,
    Unauthorized,
}

/// The current admin proposes `new_admin`, stamping the proposal with the
/// ledger time `now`; anyone else is refused and nothing changes. `admin`
/// must have authorised the call; the host checks its signature.
pub fn propose_admin(store: &mut InstanceStore, admin: &Account, new_admin: Account, now: u64) -> (r:
    Result<(), AdminTransferError>)
    ensures
        !holds(old(store).admin, *admin) ==> r == Err::<(), AdminTransferError>(
            AdminTransferError::Unauthorized,
        ) && *final(store) == *old(store),
        holds(old(store).admin, *admin) ==> {
            &&& r is Ok
            &&& *final(store) == (InstanceStore {
                pending_admin: Some(new_admin),
                pending_admin_since: Some(now),
                events: final(store).events,
                ..*old(store)
            })
            &&& final(store).events@ == old(store).events@.push(
                GovernanceEvent::AdminProposed { new_admin },
            )
        },
{
    if !is_holder(&store.admin, admin) {
        return Err(AdminTransferError::Unauthorized);
    }
    let announced = new_admin.clone();
    store.pending_admin = Some(new_admin);
    store.pending_admin_since = Some(now);
    store.events.push(GovernanceEvent::AdminProposed { new_admin: announced });
    Ok(())
}

/// The proposed admin accepts the role: `new_admin` becomes the admin if a
/// proposal for it is pending and was made no more than
/// `PROPOSAL_EXPIRATION_SECONDS` before `now`; the pending proposal is then
/// cleared. Without a pending proposal the call fails with
/// `NoPendingProposal`; an account other than the proposed one is refused
/// as `Unauthorized`. On any refusal nothing changes. `new_admin` must have
/// authorised the call.
pub fn accept_admin(store: &mut InstanceStore, new_admin: &Account, now: u64) -> (r: Result<
    (),
    AdminTransferError,
>)
    requires
        old(store).pending_admin_since matches Some(t) ==> t + PROPOSAL_EXPIRATION_SECONDS
            <= u64::MAX,
    ensures
        match old(store).pending_admin_since {
            None => r == Err::<(), AdminTransferError>(AdminTransferError::NoPendingProposal)
                && *final(store) == *old(store),
            Some(t) => if !holds(old(store).pending_admin, *new_admin) {
                r == Err::<(), AdminTransferError>(AdminTransferError::Unauthorized)
                    && *final(store) == *old(store)
            } else if now > t + PROPOSAL_EXPIRATION_SECONDS {
                r == Err::<(), AdminTransferError>(AdminTransferError::ProposalExpired)
                    && *final(store) == *old(store)
            } else {
                &&& r is Ok
                &&& *final(store) == (InstanceStore {
                    admin: Some(*new_admin),
                    pending_admin: None,
                    pending_admin_since: None,
                    events: final(store).events,
                    ..*old(store)
                })
                &&& final(store).events@ == old(store).events@.push(
                    GovernanceEvent::AdminAccepted { new_admin: *new_admin },
                )
            },
        },
{
    let proposed_at = match store.pending_admin_since {
        Some(t) => t,
        None => return Err(AdminTransferError::NoPendingProposal),
    };
    if !is_holder(&store.pending_admin, new_admin) {
        return Err(AdminTransferError::Unauthorized);
    }
    if now > proposed_at + PROPOSAL_EXPIRATION_SECONDS {
        return Err(AdminTransferError::ProposalExpired);
    }
    store.admin = Some(new_admin.clone());
    store.pending_admin = None;
    store.pending_admin_since = None;
    store.events.push(GovernanceEvent::AdminAccepted { new_admin: new_admin.clone() });
    Ok(())
}

} // verus!
