use vstd::prelude::*;
use crate::ident::Account;
use crate::store::{holds, is_holder, InstanceStore, RoleError};

verus! {

/// The admin suspends or resumes new dispute filings and votes. Anyone but
/// the admin is refused and nothing changes. `admin` must have authorised
/// the call.
pub fn set_disputes_paused(store: &mut InstanceStore, admin: &Account, paused: bool) -> (r: Result<
    (),
    RoleError,
>)
    ensures
        !holds(old(store).admin, *admin) ==> r == Err::<(), RoleError>(RoleError::Unauthorized)
            && *final(store) == *old(store),
        holds(old(store).admin, *admin) ==> r is Ok && *final(store) == (InstanceStore {
            disputes_paused: Some(paused),
            ..*old(store)
        }),
{
    if !is_holder(&store.admin, admin) {
        return Err(RoleError::Unauthorized);
    }
    store.disputes_paused = Some(paused);
    Ok(())
}

/// Whether disputes are paused; not until it was first set.
pub fn are_disputes_paused(store: &InstanceStore) -> (b: bool)
    ensures
        b == (store.disputes_paused == Some(true)),
{
    match store.disputes_paused {
        Some(p) => p,
        None => false,
    }
}

} // verus!
