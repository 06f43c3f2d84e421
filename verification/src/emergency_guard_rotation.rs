use vstd::prelude::*;
use crate::ident::Account;
use crate::store::{holds, is_holder, GovernanceEvent, InstanceStore, RoleError};

verus! {

/// The admin replaces the emergency guard by `new_guard` when `old_guard`
/// is the current one (an unset guard counts as `old_guard`); with another
/// `old_guard` nothing changes. Anyone but the admin is refused and nothing
/// changes. `admin` must have authorised the call.
pub fn rotate_emergency_guard(
    store: &mut InstanceStore,
    admin: &Account,
    old_guard: &Account,
    new_guard: &Account,
) -> (r: Result<(), RoleError>)
    ensures
        !holds(old(store).admin, *admin) ==> r == Err::<(), RoleError>(RoleError::Unauthorized)
            && *final(store) == *old(store),
        holds(old(store).admin, *admin) ==> r is Ok && ({
            let current = match old(store).emergency_guard {
                Some(g) => g@,
                None => old_guard@,
            };
            if current == old_guard@ {
                &&& *final(store) == (InstanceStore {
                    emergency_guard: Some(*new_guard),
                    events: final(store).events,
                    ..*old(store)
                })
                &&& final(store).events@ == old(store).events@.push(
                    GovernanceEvent::GuardRotated { old_guard: *old_guard, new_guard: *new_guard },
                )
            } else {
                *final(store) == *old(store)
            }
        }),
{
    if !is_holder(&store.admin, admin) {
        return Err(RoleError::Unauthorized);
    }
    let is_current = match &store.emergency_guard {
        Some(current) => *current == *old_guard,
        None => true,
    };
    if is_current {
        store.emergency_guard = Some(new_guard.clone());
        store.events.push(
            GovernanceEvent::GuardRotated { old_guard: old_guard.clone(), new_guard: new_guard.clone() },
        );
    }
    Ok(())
}

pub fn current_emergency_guard(store: &InstanceStore) -> (g: Option<Account>)
    ensures
        g == store.emergency_guard,
{
    match &store.emergency_guard {
        Some(a) => Some(a.clone()),
        None => None,
    }
}

} // verus!
