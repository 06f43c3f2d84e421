use vstd::prelude::*;
use crate::ident::Account;
use crate::store::{holds, is_holder, GovernanceEvent, InstanceStore};

verus! {

#[derive(Clone, Copy, Debug, PartialEq, Eq, Structural)]
pub enum RollbackError {
    VersionNotFound,
    Unauthorized,
}

/// Governance (the contract's admin) reverts to `target_version` when it
/// is one of the recorded versions, publishing the rollback. Any other
/// caller is refused as `Unauthorized`, an unknown version as
/// `VersionNotFound`; on a refusal nothing changes. `governance` must have
/// authorised the call.
pub fn rollback_config(
    store: &mut InstanceStore,
    governance: &Account,
    target_version: u32,
    known_versions: &[u32],
) -> (r: Result<(), RollbackError>)
    ensures
        !holds(old(store).admin, *governance) ==> r == Err::<(), RollbackError>(
            RollbackError::Unauthorized,
        ) && *final(store) == *old(store),
        holds(old(store).admin, *governance) && !known_versions@.contains(target_version) ==> r == Err::<(), RollbackError>(
            RollbackError::VersionNotFound,
        ) && *final(store) == *old(store),
        holds(old(store).admin, *governance) && known_versions@.contains(target_version) ==> {
            &&& r is Ok
            &&& *final(store) == (InstanceStore { events: final(store).events, ..*old(store) })
            &&& final(store).events@ == old(store).events@.push(
                GovernanceEvent::ConfigRolledBack { target_version },
            )
        },
{
    if !is_holder(&store.admin, governance) {
        return Err(RollbackError::Unauthorized);
    }
    let mut found = false;
    let mut i: usize = 0;
    while i < known_versions.len()
        invariant
            i <= known_versions@.len(),
            found <==> exists|j: int| 0 <= j < i && known_versions@[j] == target_version,
        decreases known_versions@.len() - i,
    {
        if known_versions[i] == target_version {
            found = true;
        }
        i = i + 1;
    }
    if !found {
        return Err(RollbackError::VersionNotFound);
    }
    store.events.push(GovernanceEvent::ConfigRolledBack { target_version });
    Ok(())
}

} // verus!
