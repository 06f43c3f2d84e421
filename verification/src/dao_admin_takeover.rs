use vstd::prelude::*;
use crate::ident::Account;
use crate::store::{holds, is_holder, GovernanceEvent, InstanceStore, RoleError};

verus! {

/// How long the admin must have been inactive before a takeover.
pub const NINETY_DAYS_SECS: u64 = 7_776_000;

#[derive(Clone, Copy, Debug, PartialEq, Eq, Structural)]
pub enum TakeoverError {
    AdminStillActive,
    Unauthorized,
}

/// The admin registers `dao_contract` as the DAO that may take the admin
/// role over should the admin fall inactive; the registration is
/// published. Anyone but the admin is refused and nothing changes. `admin`
/// must have authorised the call.
pub fn register_dao(store: &mut InstanceStore, admin: &Account, dao_contract: Account) -> (r:
    Result<(), RoleError>)
    ensures
        !holds(old(store).admin, *admin) ==> r == Err::<(), RoleError>(RoleError::Unauthorized)
            && *final(store) == *old(store),
        holds(old(store).admin, *admin) ==> {
            &&& r is Ok
            &&& *final(store) == (InstanceStore {
                dao_contract: Some(dao_contract),
                events: final(store).events,
                ..*old(store)
            })
            &&& final(store).events@ == old(store).events@.push(
                GovernanceEvent::DaoRegistered { dao_contract },
            )
        },
{
    if !is_holder(&store.admin, admin) {
        return Err(RoleError::Unauthorized);
    }
    let announced = dao_contract.clone();
    store.dao_contract = Some(dao_contract);
    store.events.push(GovernanceEvent::DaoRegistered { dao_contract: announced });
    Ok(())
}

/// The registered DAO contract takes the admin role over once the admin
/// has been inactive for ninety days (`now` at least `last_admin_activity`
/// plus ninety days): it becomes the admin, any pending admin proposal is
/// dropped, and the takeover is published. An account that is not the
/// registered DAO is refused as `Unauthorized`, an early claim as
/// `AdminStillActive`; on a refusal nothing changes. `dao_contract` must
/// have authorised the call.
pub fn claim_admin_takeover(
    store: &mut InstanceStore,
    dao_contract: &Account,
    last_admin_activity: u64,
    now: u64,
) -> (r: Result<(), TakeoverError>)
    requires
        last_admin_activity + NINETY_DAYS_SECS <= u64::MAX,
    ensures
        !holds(old(store).dao_contract, *dao_contract) ==> r == Err::<(), TakeoverError>(
            TakeoverError::Unauthorized,
        ) && *final(store) == *old(store),
        holds(old(store).dao_contract, *dao_contract) && now < last_admin_activity
            + NINETY_DAYS_SECS ==> r == Err::<(), TakeoverError>(TakeoverError::AdminStillActive)
            && *final(store) == *old(store),
        holds(old(store).dao_contract, *dao_contract) && now >= last_admin_activity
            + NINETY_DAYS_SECS ==> {
            &&& r is Ok
            &&& *final(store) == (InstanceStore {
                admin: Some(*dao_contract),
                pending_admin: None,
                pending_admin_since: None,
                events: final(store).events,
                ..*old(store)
            })
            &&& final(store).events@ == old(store).events@.push(
                GovernanceEvent::AdminTakeover { dao_contract: *dao_contract },
            )
        },
{
    if !is_holder(&store.dao_contract, dao_contract) {
        return Err(TakeoverError::Unauthorized);
    }
    if now < last_admin_activity + NINETY_DAYS_SECS {
        return Err(TakeoverError::AdminStillActive);
    }
    store.admin = Some(dao_contract.clone());
    store.pending_admin = None;
    store.pending_admin_since = None;
    store.events.push(GovernanceEvent::AdminTakeover { dao_contract: dao_contract.clone() });
    Ok(())
}

} // verus!
