use vstd::prelude::*;
use crate::store::{GovernanceEvent, InstanceStore};

verus! {

/// How long an automatically triggered pause lasts.
pub const FOUR_HOURS_SECS: u64 = 14_400;

/// An hour's outage volume is anomalous when it is more than ten times a
/// non-zero 24-hour average.
pub open spec fn is_anomalous(hourly_volume: u32, baseline_24h_avg: u32) -> bool {
    baseline_24h_avg > 0 && hourly_volume > baseline_24h_avg * 10
}

/// On an anomalous volume, publishes the trigger and returns when the
/// pause it starts at `now` expires (four hours later); otherwise `None`.
pub fn check_and_trigger_anomaly_pause(
    store: &mut InstanceStore,
    hourly_volume: u32,
    baseline_24h_avg: u32,
    now: u64,
) -> (r: Option<u64>)
    requires
        is_anomalous(hourly_volume, baseline_24h_avg) ==> now + FOUR_HOURS_SECS <= u64::MAX,
    ensures
        is_anomalous(hourly_volume, baseline_24h_avg) ==> {
            &&& r == Some((now + FOUR_HOURS_SECS) as u64)
            &&& *final(store) == (InstanceStore { events: final(store).events, ..*old(store) })
            &&& final(store).events@ == old(store).events@.push(
                GovernanceEvent::AnomalyPause { hourly_volume },
            )
        },
        !is_anomalous(hourly_volume, baseline_24h_avg) ==> r is None && *final(store) == *old(
            store,
        ),
{
    if baseline_24h_avg > 0 && hourly_volume as u64 > baseline_24h_avg as u64 * 10 {
        store.events.push(GovernanceEvent::AnomalyPause { hourly_volume });
        Some(now + FOUR_HOURS_SECS)
    } else {
        None
    }
}

} // verus!
