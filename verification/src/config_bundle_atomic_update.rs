use vstd::prelude::*;
use crate::ident::Account;
use crate::store::{holds, is_holder, GovernanceEvent, InstanceStore};

verus! {

#[derive(Clone, Copy, Debug, PartialEq, Eq, Structural)]
pub struct ConfigBundle {
    pub sla_target_bps: u32,
    pub penalty_bps: u32,
    pub threshold_bps: u32,
    pub grace_period_secs: u64,
}

#[derive(Clone, Copy, Debug, PartialEq, Eq, Structural)]
pub enum ConfigBundleError {
    OutOfRange,
    Unauthorized,
}

/// A bundle is applicable when its target and penalty are at most 100%.
pub open spec fn bundle_in_range(bundle: ConfigBundle) -> bool {
    bundle.sla_target_bps <= 10_000 && bundle.penalty_bps <= 10_000
}

/// Applies a whole configuration bundle as `new_version`, publishing the
/// update. Anyone but the admin is refused as `Unauthorized`, an
/// out-of-range bundle as `OutOfRange`; on a refusal nothing changes.
/// `admin` must have authorised the call.
pub fn update_config_bundle(
    store: &mut InstanceStore,
    admin: &Account,
    bundle: &ConfigBundle,
    new_version: u32,
) -> (r: Result<(), ConfigBundleError>)
    ensures
        !holds(old(store).admin, *admin) ==> r == Err::<(), ConfigBundleError>(
            ConfigBundleError::Unauthorized,
        ) && *final(store) == *old(store),
        holds(old(store).admin, *admin) && !bundle_in_range(*bundle) ==> r == Err::<(), ConfigBundleError>(
            ConfigBundleError::OutOfRange,
        ) && *final(store) == *old(store),
        holds(old(store).admin, *admin) && bundle_in_range(*bundle) ==> {
            &&& r is Ok
            &&& *final(store) == (InstanceStore { events: final(store).events, ..*old(store) })
            &&& final(store).events@ == old(store).events@.push(
                GovernanceEvent::BundleUpdated { new_version },
            )
        },
{
    if !is_holder(&store.admin, admin) {
        return Err(ConfigBundleError::Unauthorized);
    }
    if bundle.sla_target_bps > 10_000 || bundle.penalty_bps > 10_000 {
        return Err(ConfigBundleError::OutOfRange);
    }
    store.events.push(GovernanceEvent::BundleUpdated { new_version });
    Ok(())
}

} // verus!
