use vstd::prelude::*;

verus! {

#[derive(Clone, Copy, Debug, PartialEq, Eq, Structural)]
pub enum CompatibilityStatus {
    Compatible,
    UpgradeRecommended,
    Incompatible,
}

/// Compatibility of a client reporting `client_version` with the active
/// configuration version: equal versions are compatible, a client exactly
/// one version behind should upgrade, anything else is incompatible.
pub open spec fn compatibility(active_version: u32, client_version: u32) -> CompatibilityStatus {
    if client_version == active_version {
        CompatibilityStatus::Compatible
    } else if client_version + 1 == active_version {
        CompatibilityStatus::UpgradeRecommended
    } else {
        CompatibilityStatus::Incompatible
    }
}

pub fn check_config_compatibility(active_version: u32, client_version: u32) -> (s:
    CompatibilityStatus)
    ensures
        s == compatibility(active_version, client_version),
{
    if client_version == active_version {
        CompatibilityStatus::Compatible
    } else if client_version as u64 + 1 == active_version as u64 {
        CompatibilityStatus::UpgradeRecommended
    } else {
        CompatibilityStatus::Incompatible
    }
}

} // verus!
