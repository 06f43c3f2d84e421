use vstd::prelude::*;
use crate::ident::Account;
use crate::store::{holds, is_holder, InstanceStore, RoleError};

verus! {

/// The admin records `new_operator` as the proposed operator. Anyone but
/// the admin is refused and nothing changes. `admin` must have authorised
/// the call; the host checks its signature.
pub fn propose_operator(store: &mut InstanceStore, admin: &Account, new_operator: Account) -> (r:
    Result<(), RoleError>)
    ensures
        !holds(old(store).admin, *admin) ==> r == Err::<(), RoleError>(RoleError::Unauthorized)
            && *final(store) == *old(store),
        holds(old(store).admin, *admin) ==> r is Ok && *final(store) == (InstanceStore {
            pending_operator: Some(new_operator),
            ..*old(store)
        }),
{
    if !is_holder(&store.admin, admin) {
        return Err(RoleError::Unauthorized);
    }
    store.pending_operator = Some(new_operator);
    Ok(())
}

/// The proposed operator accepts: `new_operator` takes over the operator
/// role and the proposal is cleared. An account that is not the proposed
/// operator (or a call with no proposal pending) is refused and nothing
/// changes. `new_operator` must have authorised the call.
pub fn accept_operator(store: &mut InstanceStore, new_operator: &Account) -> (r: Result<
    (),
    RoleError,
>)
    ensures
        !holds(old(store).pending_operator, *new_operator) ==> r == Err::<(), RoleError>(
            RoleError::Unauthorized,
        ) && *final(store) == *old(store),
        holds(old(store).pending_operator, *new_operator) ==> r is Ok && *final(store) == (
        InstanceStore { operator: Some(*new_operator), pending_operator: None, ..*old(store) }),
{
    if !is_holder(&store.pending_operator, new_operator) {
        return Err(RoleError::Unauthorized);
    }
    store.operator = Some(new_operator.clone());
    store.pending_operator = None;
    Ok(())
}

/// The admin withdraws a pending operator proposal. Anyone but the admin
/// is refused and nothing changes. `admin` must have authorised the call.
pub fn cancel_operator_proposal(store: &mut InstanceStore, admin: &Account) -> (r: Result<
    (),
    RoleError,
>)
    ensures
        !holds(old(store).admin, *admin) ==> r == Err::<(), RoleError>(RoleError::Unauthorized)
            && *final(store) == *old(store),
        holds(old(store).admin, *admin) ==> r is Ok && *final(store) == (InstanceStore {
            pending_operator: None,
            ..*old(store)
        }),
{
    if !is_holder(&store.admin, admin) {
        return Err(RoleError::Unauthorized);
    }
    store.pending_operator = None;
    Ok(())
}

} // verus!
