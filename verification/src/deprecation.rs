use vstd::prelude::*;
use crate::ident::Account;
use crate::store::{holds, is_holder, InstanceStore, RoleError};

verus! {

#[derive(Clone, Copy, Debug, PartialEq, Eq, Structural)]
pub enum DeprecationError {
    ContractDeprecated,
}

/// Admin-only: puts the contract into permanent read-only retirement.
/// Anyone but the admin is refused and nothing changes. `admin` must have
/// authorised the call.
pub fn deprecate_contract(store: &mut InstanceStore, admin: &Account) -> (r: Result<(), RoleError>)
    ensures
        !holds(old(store).admin, *admin) ==> r == Err::<(), RoleError>(RoleError::Unauthorized)
            && *final(store) == *old(store),
        holds(old(store).admin, *admin) ==> r is Ok && *final(store) == (InstanceStore {
            deprecated: Some(true),
            ..*old(store)
        }),
{
    if !is_holder(&store.admin, admin) {
        return Err(RoleError::Unauthorized);
    }
    store.deprecated = Some(true);
    Ok(())
}

pub fn is_deprecated(store: &InstanceStore) -> (b: bool)
    ensures
        b == (store.deprecated == Some(true)),
{
    match store.deprecated {
        Some(d) => d,
        None => false,
    }
}

/// Guard for state-changing entry points: fails once deprecated.
pub fn assert_not_deprecated(store: &InstanceStore) -> (r: Result<(), DeprecationError>)
    ensures
        store.deprecated == Some(true) ==> r == Err::<(), DeprecationError>(
            DeprecationError::ContractDeprecated,
        ),
        store.deprecated != Some(true) ==> r is Ok,
{
    if is_deprecated(store) {
        Err(DeprecationError::ContractDeprecated)
    } else {
        Ok(())
    }
}

} // verus!
