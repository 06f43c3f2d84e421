use vstd::prelude::*;
use crate::ident::Account;
use crate::store::{GovernanceEvent, InstanceStore};

verus! {

/// How long after settlement an appeal may be filed.
pub const FORTY_EIGHT_HOURS_SECS: u64 = 172_800;

#[derive(Clone, Copy, Debug, PartialEq, Eq, Structural)]
pub enum AppealError {
    WindowExpired,
    AlreadyAppealed,
}

/// The losing party (who must have authorised the call) files its one
/// appeal within 48 hours of settlement; the bond it must post, twice the
/// original, is returned. A second appeal is refused before the window is
/// looked at.
pub fn file_appeal(
    store: &mut InstanceStore,
    appellant: &Account,
    dispute_id: u64,
    settled_at: u64,
    already_appealed: bool,
    original_bond: i128,
    now: u64,
) -> (r: Result<i128, AppealError>)
    requires
        !already_appealed ==> settled_at + FORTY_EIGHT_HOURS_SECS <= u64::MAX,
        !already_appealed && now <= settled_at + FORTY_EIGHT_HOURS_SECS ==> i128::MIN
            <= original_bond * 2 <= i128::MAX,
    ensures
        already_appealed ==> r == Err::<i128, AppealError>(AppealError::AlreadyAppealed)
            && *final(store) == *old(store),
        !already_appealed && now > settled_at + FORTY_EIGHT_HOURS_SECS ==> r == Err::<
            i128,
            AppealError,
        >(AppealError::WindowExpired) && *final(store) == *old(store),
        !already_appealed && now <= settled_at + FORTY_EIGHT_HOURS_SECS ==> {
            &&& r == Ok::<i128, AppealError>((original_bond * 2) as i128)
            &&& *final(store) == (InstanceStore { events: final(store).events, ..*old(store) })
            &&& final(store).events@ == old(store).events@.push(
                GovernanceEvent::AppealFiled { dispute_id },
            )
        },
{
    if already_appealed {
        return Err(AppealError::AlreadyAppealed);
    }
    if now > settled_at + FORTY_EIGHT_HOURS_SECS {
        return Err(AppealError::WindowExpired);
    }
    let required_bond = original_bond * 2;
    store.events.push(GovernanceEvent::AppealFiled { dispute_id });
    Ok(required_bond)
}

} // verus!
