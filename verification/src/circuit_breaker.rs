use vstd::prelude::*;
use crate::ident::Account;
use crate::store::{holds, is_holder, InstanceStore, RoleError};

verus! {

/// The emergency guard sets or lifts the global pause on state changes.
/// Anyone but the stored emergency guard is refused and nothing changes.
/// `emergency_guard` must have authorised the call.
pub fn set_emergency_pause(store: &mut InstanceStore, emergency_guard: &Account, paused: bool) -> (r:
    Result<(), RoleError>)
    ensures
        !holds(old(store).emergency_guard, *emergency_guard) ==> r == Err::<(), RoleError>(
            RoleError::Unauthorized,
        ) && *final(store) == *old(store),
        holds(old(store).emergency_guard, *emergency_guard) ==> r is Ok && *final(store) == (
        InstanceStore { circuit_paused: Some(paused), ..*old(store) }),
{
    if !is_holder(&store.emergency_guard, emergency_guard) {
        return Err(RoleError::Unauthorized);
    }
    store.circuit_paused = Some(paused);
    Ok(())
}

/// Whether the global pause is on; off until it was first set.
pub fn is_emergency_paused(store: &InstanceStore) -> (b: bool)
    ensures
        b == (store.circuit_paused == Some(true)),
{
    match store.circuit_paused {
        Some(p) => p,
        None => false,
    }
}

} // verus!
