use vstd::prelude::*;
use crate::ident::Account;
use crate::store::{holds, is_holder, InstanceStore, RoleError};

verus! {

#[derive(Clone, Copy, Debug, PartialEq, Eq, Structural)]
pub enum ConfigFreezeError {
    ConfigIsFrozen,
}

/// The admin locks the configuration for good. Anyone but the admin is
/// refused and nothing changes. `admin` must have authorised the call.
pub fn freeze_configuration(store: &mut InstanceStore, admin: &Account) -> (r: Result<(), RoleError>)
    ensures
        !holds(old(store).admin, *admin) ==> r == Err::<(), RoleError>(RoleError::Unauthorized)
            && *final(store) == *old(store),
        holds(old(store).admin, *admin) ==> r is Ok && *final(store) == (InstanceStore {
            config_frozen: Some(true),
            ..*old(store)
        }),
{
    if !is_holder(&store.admin, admin) {
        return Err(RoleError::Unauthorized);
    }
    store.config_frozen = Some(true);
    Ok(())
}

/// Guard for configuration changes: fails once frozen.
pub fn assert_config_not_frozen(store: &InstanceStore) -> (r: Result<(), ConfigFreezeError>)
    ensures
        store.config_frozen == Some(true) ==> r == Err::<(), ConfigFreezeError>(
            ConfigFreezeError::ConfigIsFrozen,
        ),
        store.config_frozen != Some(true) ==> r is Ok,
{
    let frozen = match store.config_frozen {
        Some(f) => f,
        None => false,
    };
    if frozen {
        Err(ConfigFreezeError::ConfigIsFrozen)
    } else {
        Ok(())
    }
}

} // verus!
