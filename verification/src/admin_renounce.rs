use vstd::prelude::*;
use crate::ident::Account;
use crate::store::{holds, is_holder, GovernanceEvent, InstanceStore, RoleError};

verus! {

/// Permanently gives up the admin role: the admin and any pending admin
/// are removed and the renunciation is published. Only the current admin
/// may renounce; anyone else is refused and nothing changes. `caller` must
/// have authorised the call; the host checks its signature.
pub fn renounce_admin(store: &mut InstanceStore, caller: &Account) -> (r: Result<(), RoleError>)
    ensures
        !holds(old(store).admin, *caller) ==> r == Err::<(), RoleError>(RoleError::Unauthorized)
            && *final(store) == *old(store),
        holds(old(store).admin, *caller) ==> {
            &&& r is Ok
            &&& *final(store) == (InstanceStore {
                admin: None,
                pending_admin: None,
                events: final(store).events,
                ..*old(store)
            })
            &&& final(store).events@ == old(store).events@.push(
                GovernanceEvent::AdminRenounced { caller: *caller },
            )
        },
{
    if !is_holder(&store.admin, caller) {
        return Err(RoleError::Unauthorized);
    }
    store.admin = None;
    store.pending_admin = None;
    store.events.push(GovernanceEvent::AdminRenounced { caller: caller.clone() });
    Ok(())
}

} // verus!
