use vstd::prelude::*;
use crate::ident::Account;
use crate::sla::{SLAError, TierConfig};
use crate::table::Table;

verus! {

/// An emergency rollback under way.
#[derive(Debug)]
pub struct RollbackState {
    pub in_progress: bool,
    pub initiated_at: u64,
    pub initiated_by: Account,
    pub reason: String,
}

impl Clone for RollbackState {
    fn clone(&self) -> (r: Self)
        ensures
            r == *self,
    {
        RollbackState {
            in_progress: self.in_progress,
            initiated_at: self.initiated_at,
            initiated_by: self.initiated_by.clone(),
            reason: self.reason.clone(),
        }
    }
}

/// What the rollback functions publish.
pub enum RollbackEvent {
    Initiated { caller: Account, at: u64 },
    Executed { caller: Account },
    Undone { caller: Account },
}

/// The storage an emergency rollback touches: the admin, the pause
/// switch, the tier configurations by tier name, their snapshot taken when
/// the rollback began, the rollback record, and the events published.
pub struct EmergencyState {
    pub admin: Option<Account>,
    pub paused: Option<bool>,
    pub configs: Option<Table<TierConfig>>,
    pub pre_rollback: Option<Table<TierConfig>>,
    pub rollback: Option<RollbackState>,
    pub events: Vec<RollbackEvent>,
}

/// The contents of an optional table of tier configurations.
pub open spec fn tiers(t: Option<Table<TierConfig>>) -> Option<Map<Seq<char>, TierConfig>> {
    match t {
        Some(table) => Some(table@),
        None => None,
    }
}

pub open spec fn table_wf(t: Option<Table<TierConfig>>) -> bool {
    t matches Some(table) ==> table.wf()
}

impl EmergencyState {
    pub open spec fn wf(&self) -> bool {
        table_wf(self.configs) && table_wf(self.pre_rollback)
    }
}

/// The factory terms a rollback restores, by tier name.
pub open spec fn default_tiers() -> Map<Seq<char>, TierConfig> {
    map![
        "critical"@ => tier(15, 100, 750),
        "high"@ => tier(30, 50, 750),
        "medium"@ => tier(60, 25, 750),
        "low"@ => tier(120, 10, 600),
    ]
}

/// Factory terms with the standard multipliers: 200% for top, 150% for
/// excellent, 100% for good performance.
pub open spec fn tier(threshold_minutes: u32, penalty_per_minute: i128, reward_base: i128) -> TierConfig {
    TierConfig {
        threshold_minutes,
        penalty_per_minute,
        reward_base,
        top_tier_multiplier: 200,
        excel_tier_multiplier: 150,
        good_tier_multiplier: 100,
    }
}

fn make_tier(threshold_minutes: u32, penalty_per_minute: i128, reward_base: i128) -> (c: TierConfig)
    ensures
        c == tier(threshold_minutes, penalty_per_minute, reward_base),
{
    TierConfig {
        threshold_minutes,
        penalty_per_minute,
        reward_base,
        top_tier_multiplier: 200,
        excel_tier_multiplier: 150,
        good_tier_multiplier: 100,
    }
}

fn default_tier_table() -> (t: Table<TierConfig>)
    ensures
        t.wf(),
        t@ == default_tiers(),
{
    let mut t: Table<TierConfig> = Table::new();
    t.set("critical".to_owned(), make_tier(15, 100, 750));
    t.set("high".to_owned(), make_tier(30, 50, 750));
    t.set("medium".to_owned(), make_tier(60, 25, 750));
    t.set("low".to_owned(), make_tier(120, 10, 600));
    assert(t@ =~= default_tiers());
    t
}

/// `caller` is the stored admin.
pub open spec fn rollback_admin_check(admin: Option<Account>, caller: Seq<char>) -> Result<(), SLAError> {
    match admin {
        None => Err(SLAError::NotInitialized),
        Some(a) => if a@ == caller {
            Ok(())
        } else {
            Err(SLAError::Unauthorized)
        },
    }
}

fn require_admin(state: &EmergencyState, caller: &Account) -> (r: Result<(), SLAError>)
    ensures
        r == rollback_admin_check(state.admin, caller@),
{
    match &state.admin {
        None => Err(SLAError::NotInitialized),
        Some(admin) => if *admin == *caller {
            Ok(())
        } else {
            Err(SLAError::Unauthorized)
        },
    }
}

/// `after` is `before` once `caller` began a rollback at `now`: the
/// contract paused, the configurations (if any) snapshot, the rollback
/// recorded as under way.
pub open spec fn initiated(
    before: &EmergencyState,
    after: &EmergencyState,
    caller: Account,
    reason: String,
    now: u64,
) -> bool {
    &&& after.admin == before.admin
    &&& after.paused == Some(true)
    &&& after.configs == before.configs
    &&& tiers(after.pre_rollback) == if before.configs is Some {
        tiers(before.configs)
    } else {
        tiers(before.pre_rollback)
    }
    &&& after.rollback == Some(
        RollbackState { in_progress: true, initiated_at: now, initiated_by: caller, reason },
    )
    &&& after.events@ == before.events@.push(RollbackEvent::Initiated { caller, at: now })
}

/// `after` is `before` once `caller` reset every tier to its factory
/// terms, ending the rollback; the pause stays as it was.
pub open spec fn rolled_back(before: &EmergencyState, after: &EmergencyState, caller: Account) -> bool {
    &&& after.admin == before.admin
    &&& after.paused == before.paused
    &&& tiers(after.configs) == Some(default_tiers())
    &&& after.pre_rollback is None
    &&& after.rollback is None
    &&& after.events@ == before.events@.push(RollbackEvent::Executed { caller })
}

/// `after` is `before` once `caller` undid the rollback: the snapshot (if
/// any) restored, the contract unpaused, the rollback ended.
pub open spec fn undone(before: &EmergencyState, after: &EmergencyState, caller: Account) -> bool {
    &&& after.admin == before.admin
    &&& after.paused == Some(false)
    &&& tiers(after.configs) == if before.pre_rollback is Some {
        tiers(before.pre_rollback)
    } else {
        tiers(before.configs)
    }
    &&& after.pre_rollback is None
    &&& after.rollback is None
    &&& after.events@ == before.events@.push(RollbackEvent::Undone { caller })
}

/// What refuses to finish a rollback: no rollback recorded, or one
/// recorded as not under way.
pub open spec fn rollback_gate(state: &EmergencyState) -> Result<(), SLAError> {
    match state.rollback {
        None => Err(SLAError::NotInitialized),
        Some(r) => if r.in_progress {
            Ok(())
        } else {
            Err(SLAError::ContractPaused)
        },
    }
}

/// The admin begins an emergency rollback at `now`: the contract is
/// paused at once and the current configurations are kept for a possible
/// undo.
pub fn initiate_rollback(state: &mut EmergencyState, caller: &Account, reason: String, now: u64) -> (r:
    Result<(), SLAError>)
    requires
        old(state).wf(),
    ensures
        final(state).wf(),
        rollback_admin_check(old(state).admin, caller@) is Err ==> r == Err::<(), SLAError>(
            rollback_admin_check(old(state).admin, caller@)->Err_0,
        ) && *final(state) == *old(state),
        rollback_admin_check(old(state).admin, caller@) is Ok ==> r is Ok && initiated(
            old(state),
            final(state),
            *caller,
            reason,
            now,
        ),
{
    match require_admin(state, caller) {
        Err(e) => return Err(e),
        Ok(()) => {},
    }
    state.paused = Some(true);
    match &state.configs {
        Some(configs) => {
            state.pre_rollback = Some(configs.copy());
        },
        None => {},
    }
    state.rollback = Some(
        RollbackState {
            in_progress: true,
            initiated_at: now,
            initiated_by: caller.clone(),
            reason,
        },
    );
    state.events.push(RollbackEvent::Initiated { caller: caller.clone(), at: now });
    Ok(())
}

/// The admin completes a rollback under way by resetting every tier to its
/// factory terms; the contract stays paused.
pub fn execute_rollback(state: &mut EmergencyState, caller: &Account) -> (r: Result<(), SLAError>)
    requires
        old(state).wf(),
    ensures
        final(state).wf(),
        r is Err ==> *final(state) == *old(state),
        rollback_admin_check(old(state).admin, caller@) is Err ==> r == Err::<(), SLAError>(
            rollback_admin_check(old(state).admin, caller@)->Err_0,
        ),
        rollback_admin_check(old(state).admin, caller@) is Ok && rollback_gate(old(state)) is Err
            ==> r == Err::<(), SLAError>(rollback_gate(old(state))->Err_0),
        rollback_admin_check(old(state).admin, caller@) is Ok && rollback_gate(old(state)) is Ok
            ==> r is Ok && rolled_back(old(state), final(state), *caller),
{
    match require_admin(state, caller) {
        Err(e) => return Err(e),
        Ok(()) => {},
    }
    match &state.rollback {
        None => return Err(SLAError::NotInitialized),
        Some(rb) => if !rb.in_progress {
            return Err(SLAError::ContractPaused);
        },
    }
    state.configs = Some(default_tier_table());
    state.rollback = None;
    state.pre_rollback = None;
    state.events.push(RollbackEvent::Executed { caller: caller.clone() });
    Ok(())
}

/// The admin undoes a rollback under way: the configurations kept when it
/// began come back, and the contract is unpaused.
pub fn undo_rollback(state: &mut EmergencyState, caller: &Account) -> (r: Result<(), SLAError>)
    requires
        old(state).wf(),
    ensures
        final(state).wf(),
        r is Err ==> *final(state) == *old(state),
        rollback_admin_check(old(state).admin, caller@) is Err ==> r == Err::<(), SLAError>(
            rollback_admin_check(old(state).admin, caller@)->Err_0,
        ),
        rollback_admin_check(old(state).admin, caller@) is Ok && rollback_gate(old(state)) is Err
            ==> r == Err::<(), SLAError>(rollback_gate(old(state))->Err_0),
        rollback_admin_check(old(state).admin, caller@) is Ok && rollback_gate(old(state)) is Ok
            ==> r is Ok && undone(old(state), final(state), *caller),
{
    match require_admin(state, caller) {
        Err(e) => return Err(e),
        Ok(()) => {},
    }
    match &state.rollback {
        None => return Err(SLAError::NotInitialized),
        Some(rb) => if !rb.in_progress {
            return Err(SLAError::ContractPaused);
        },
    }
    let snapshot = state.pre_rollback.take();
    match snapshot {
        Some(configs) => {
            state.configs = Some(configs);
        },
        None => {},
    }
    state.paused = Some(false);
    state.rollback = None;
    state.events.push(RollbackEvent::Undone { caller: caller.clone() });
    Ok(())
}

/// The rollback record, if there is one.
pub fn get_rollback_state(state: &EmergencyState) -> (r: Result<Option<RollbackState>, SLAError>)
    ensures
        r == Ok::<Option<RollbackState>, SLAError>(state.rollback),
{
    match &state.rollback {
        Some(rb) => Ok(Some(rb.clone())),
        None => Ok(None),
    }
}

/// Whether a rollback is under way.
pub fn is_rollback_in_progress(state: &EmergencyState) -> (r: Result<bool, SLAError>)
    ensures
        r == Ok::<bool, SLAError>(state.rollback matches Some(rb) && rb.in_progress),
{
    match &state.rollback {
        Some(rb) => Ok(rb.in_progress),
        None => Ok(false),
    }
}

/// Beginning a rollback and then undoing it gives back the configurations
/// in force before, and leaves the contract unpaused with no rollback
/// under way. (When no configurations were stored but an older snapshot
/// was, the undo restores that snapshot instead.)
pub proof fn lemma_undo_restores_configs(
    s0: &EmergencyState,
    s1: &EmergencyState,
    s2: &EmergencyState,
    caller: Account,
    reason: String,
    now: u64,
)
    requires
        s0.configs is Some || s0.pre_rollback is None,
        initiated(s0, s1, caller, reason, now),
        undone(s1, s2, caller),
    ensures
        tiers(s2.configs) == tiers(s0.configs),
        s2.paused == Some(false),
        s2.rollback is None,
        s2.pre_rollback is None,
{
}

/// Beginning a rollback and then completing it leaves the factory terms
/// in force and the contract paused.
pub proof fn lemma_execute_resets_and_stays_paused(
    s0: &EmergencyState,
    s1: &EmergencyState,
    s2: &EmergencyState,
    caller: Account,
    reason: String,
    now: u64,
)
    requires
        initiated(s0, s1, caller, reason, now),
        rolled_back(s1, s2, caller),
    ensures
        tiers(s2.configs) == Some(default_tiers()),
        s2.paused == Some(true),
        s2.rollback is None,
{
}

/// Completing a rollback restores the factory terms: critical 15 minutes,
/// 100 per minute, base 750; high 30, 50, 750; medium 60, 25, 750; low
/// 120, 10, 600; every tier with multipliers 200, 150 and 100; and no other
/// tier.
pub proof fn lemma_rollback_restores_factory_terms(
    before: &EmergencyState,
    after: &EmergencyState,
    caller: Account,
)
    requires
        rolled_back(before, after, caller),
    ensures
        tiers(after.configs) matches Some(m) && {
            &&& m.dom() == set!["critical"@, "high"@, "medium"@, "low"@]
            &&& m["critical"@] == (TierConfig {
                threshold_minutes: 15,
                penalty_per_minute: 100,
                reward_base: 750,
                top_tier_multiplier: 200,
                excel_tier_multiplier: 150,
                good_tier_multiplier: 100,
            })
            &&& m["high"@] == (TierConfig {
                threshold_minutes: 30,
                penalty_per_minute: 50,
                reward_base: 750,
                top_tier_multiplier: 200,
                excel_tier_multiplier: 150,
                good_tier_multiplier: 100,
            })
            &&& m["medium"@] == (TierConfig {
                threshold_minutes: 60,
                penalty_per_minute: 25,
                reward_base: 750,
                top_tier_multiplier: 200,
                excel_tier_multiplier: 150,
                good_tier_multiplier: 100,
            })
            &&& m["low"@] == (TierConfig {
                threshold_minutes: 120,
                penalty_per_minute: 10,
                reward_base: 600,
                top_tier_multiplier: 200,
                excel_tier_multiplier: 150,
                good_tier_multiplier: 100,
            })
        },
{
    reveal_strlit("critical");
    reveal_strlit("high");
    reveal_strlit("medium");
    reveal_strlit("low");
    assert("critical"@.len() == 8 && "high"@.len() == 4 && "medium"@.len() == 6
        && "low"@.len() == 3);
    let m = default_tiers();
    assert(m.dom() =~= set!["critical"@, "high"@, "medium"@, "low"@]);
}

} // verus!
