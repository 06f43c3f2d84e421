use vstd::prelude::*;
use crate::ident::Account;
use crate::store::{GovernanceEvent, InstanceStore};

verus! {

/// A high-priority alert raised whenever an emergency circuit fires.
pub struct EmergencyAlert {
    pub trigger_reason_code: u32,
    pub actor: Account,
    pub ledger_sequence: u32,
    pub timestamp: u64,
}

/// Publishes an alert carrying the reason, the actor and the ledger
/// position (`ledger_sequence`, `now`) at which it fired.
pub fn dispatch_emergency_alert(
    store: &mut InstanceStore,
    trigger_reason_code: u32,
    actor: &Account,
    ledger_sequence: u32,
    now: u64,
)
    ensures
        final(store).events@ == old(store).events@.push(
            GovernanceEvent::Alert {
                alert: EmergencyAlert {
                    trigger_reason_code,
                    actor: *actor,
                    ledger_sequence,
                    timestamp: now,
                },
            },
        ),
        *final(store) == (InstanceStore { events: final(store).events, ..*old(store) }),
{
    let alert = EmergencyAlert {
        trigger_reason_code,
        actor: actor.clone(),
        ledger_sequence,
        timestamp: now,
    };
    store.events.push(GovernanceEvent::Alert { alert });
}

} // verus!
