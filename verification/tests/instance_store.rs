use sla_calculator::admin_query::get_admin;
use sla_calculator::admin_renounce::renounce_admin;
use sla_calculator::admin_transfer::{
    accept_admin, propose_admin, AdminTransferError, PROPOSAL_EXPIRATION_SECONDS,
};
use sla_calculator::anomaly_pause_trigger::{check_and_trigger_anomaly_pause, FOUR_HOURS_SECS};
use sla_calculator::circuit_breaker::{is_emergency_paused, set_emergency_pause};
use sla_calculator::config_bundle_atomic_update::{
    update_config_bundle, ConfigBundle, ConfigBundleError,
};
use sla_calculator::config_freeze_toggle::{
    assert_config_not_frozen, freeze_configuration, ConfigFreezeError,
};
use sla_calculator::config_rollback::{rollback_config, RollbackError};
use sla_calculator::dao_admin_takeover::{
    claim_admin_takeover, register_dao, TakeoverError, NINETY_DAYS_SECS,
};
use sla_calculator::deprecation::{
    assert_not_deprecated, deprecate_contract, is_deprecated, DeprecationError,
};
use sla_calculator::dispute_appeal::{file_appeal, AppealError, FORTY_EIGHT_HOURS_SECS};
use sla_calculator::dispute_force_settle::{force_settle_dispute, ForceSettleError, THIRTY_DAYS_SECS};
use sla_calculator::dispute_pause::{are_disputes_paused, set_disputes_paused};
use sla_calculator::dispute_withdrawal::{withdraw_dispute, WithdrawalError, TWO_HOURS_SECS};
use sla_calculator::emergency_alert_event::dispatch_emergency_alert;
use sla_calculator::emergency_guard_rotation::{current_emergency_guard, rotate_emergency_guard};
use sla_calculator::emergency_state_reset::{emergency_state_reset, set_guardians, StateResetError};
use sla_calculator::init_guard::{ensure_not_initialized, InitError};
use sla_calculator::operator_query::get_operator;
use sla_calculator::operator_transfer::{accept_operator, cancel_operator_proposal, propose_operator};
use sla_calculator::store::{GovernanceEvent, InstanceStore, RoleError};
use sla_calculator::{Account, Symbol};

fn acct(name: &str) -> Account {
    Account::new(name)
}

fn with_admin() -> InstanceStore {
    let mut store = InstanceStore::new();
    store.admin = Some(acct("GADMIN"));
    store
}

#[test]
fn admin_handover_expires_after_a_week() {
    let mut store = with_admin();
    assert_eq!(accept_admin(&mut store, &acct("GNEW"), 0), Err(AdminTransferError::NoPendingProposal));
    assert_eq!(
        propose_admin(&mut store, &acct("GOTHER"), acct("GNEW"), 1_000),
        Err(AdminTransferError::Unauthorized)
    );
    assert!(store.pending_admin.is_none());
    propose_admin(&mut store, &acct("GADMIN"), acct("GNEW"), 1_000).unwrap();
    assert_eq!(
        accept_admin(&mut store, &acct("GOTHER"), 1_000),
        Err(AdminTransferError::Unauthorized)
    );
    assert_eq!(get_admin(&store).unwrap(), acct("GADMIN"));
    assert_eq!(
        accept_admin(&mut store, &acct("GNEW"), 1_000 + PROPOSAL_EXPIRATION_SECONDS + 1),
        Err(AdminTransferError::ProposalExpired)
    );
    accept_admin(&mut store, &acct("GNEW"), 1_000 + PROPOSAL_EXPIRATION_SECONDS).unwrap();
    assert_eq!(get_admin(&store).unwrap(), acct("GNEW"));
    assert!(store.pending_admin.is_none());
    assert_eq!(store.events.len(), 2);
}

#[test]
fn renouncing_clears_the_admin_and_blocks_queries() {
    let mut store = with_admin();
    assert_eq!(ensure_not_initialized(&store), Err(InitError::AlreadyInitialized));
    assert_eq!(renounce_admin(&mut store, &acct("GOTHER")), Err(RoleError::Unauthorized));
    assert_eq!(get_admin(&store).unwrap(), acct("GADMIN"));
    assert!(store.events.is_empty());
    renounce_admin(&mut store, &acct("GADMIN")).unwrap();
    assert!(get_admin(&store).is_err());
    assert_eq!(ensure_not_initialized(&store), Ok(()));
    assert!(matches!(store.events[0], GovernanceEvent::AdminRenounced { .. }));
}

#[test]
fn operator_handover_and_queries() {
    let mut store = with_admin();
    assert!(get_operator(&store).is_err());
    assert_eq!(propose_operator(&mut store, &acct("GOP"), acct("GOP")), Err(RoleError::Unauthorized));
    assert!(store.pending_operator.is_none());
    propose_operator(&mut store, &acct("GADMIN"), acct("GOP")).unwrap();
    assert_eq!(cancel_operator_proposal(&mut store, &acct("GOP")), Err(RoleError::Unauthorized));
    cancel_operator_proposal(&mut store, &acct("GADMIN")).unwrap();
    assert!(store.pending_operator.is_none());
    assert_eq!(accept_operator(&mut store, &acct("GOP")), Err(RoleError::Unauthorized));
    propose_operator(&mut store, &acct("GADMIN"), acct("GOP")).unwrap();
    assert_eq!(accept_operator(&mut store, &acct("GELSE")), Err(RoleError::Unauthorized));
    accept_operator(&mut store, &acct("GOP")).unwrap();
    assert_eq!(get_operator(&store).unwrap(), acct("GOP"));
    assert!(store.pending_operator.is_none());
}

#[test]
fn switches_pause_freeze_and_retire() {
    let mut store = with_admin();
    assert!(!is_emergency_paused(&store));
    assert_eq!(set_emergency_pause(&mut store, &acct("GGUARD"), true), Err(RoleError::Unauthorized));
    rotate_emergency_guard(&mut store, &acct("GADMIN"), &acct("GGUARD"), &acct("GGUARD")).unwrap();
    set_emergency_pause(&mut store, &acct("GGUARD"), true).unwrap();
    assert!(is_emergency_paused(&store));
    assert!(!are_disputes_paused(&store));
    assert_eq!(set_disputes_paused(&mut store, &acct("GGUARD"), true), Err(RoleError::Unauthorized));
    assert!(!are_disputes_paused(&store));
    set_disputes_paused(&mut store, &acct("GADMIN"), true).unwrap();
    assert!(are_disputes_paused(&store));
    assert_eq!(assert_config_not_frozen(&store), Ok(()));
    assert_eq!(freeze_configuration(&mut store, &acct("GGUARD")), Err(RoleError::Unauthorized));
    assert_eq!(assert_config_not_frozen(&store), Ok(()));
    freeze_configuration(&mut store, &acct("GADMIN")).unwrap();
    assert_eq!(assert_config_not_frozen(&store), Err(ConfigFreezeError::ConfigIsFrozen));
    assert!(!is_deprecated(&store));
    assert_eq!(deprecate_contract(&mut store, &acct("GGUARD")), Err(RoleError::Unauthorized));
    assert!(!is_deprecated(&store));
    deprecate_contract(&mut store, &acct("GADMIN")).unwrap();
    assert_eq!(assert_not_deprecated(&store), Err(DeprecationError::ContractDeprecated));
}

#[test]
fn an_anomalous_hour_pauses_for_four_hours() {
    let mut store = with_admin();
    assert_eq!(check_and_trigger_anomaly_pause(&mut store, 100, 10, 5), None);
    assert_eq!(check_and_trigger_anomaly_pause(&mut store, 101, 10, 5), Some(5 + FOUR_HOURS_SECS));
    assert_eq!(check_and_trigger_anomaly_pause(&mut store, u32::MAX, u32::MAX / 2, 5), None);
    assert_eq!(check_and_trigger_anomaly_pause(&mut store, 1_000, 0, 5), None);
    assert_eq!(store.events.len(), 1);
}

#[test]
fn bundles_rollbacks_and_takeovers() {
    let mut store = with_admin();
    let bad = ConfigBundle { sla_target_bps: 10_001, penalty_bps: 0, threshold_bps: 0, grace_period_secs: 0 };
    assert_eq!(update_config_bundle(&mut store, &acct("GADMIN"), &bad, 2), Err(ConfigBundleError::OutOfRange));
    let good = ConfigBundle { sla_target_bps: 9_900, penalty_bps: 500, threshold_bps: 10, grace_period_secs: 60 };
    assert_eq!(update_config_bundle(&mut store, &acct("GGOV"), &good, 2), Err(ConfigBundleError::Unauthorized));
    update_config_bundle(&mut store, &acct("GADMIN"), &good, 2).unwrap();
    assert_eq!(rollback_config(&mut store, &acct("GGOV"), 2, &[1, 2, 3]), Err(RollbackError::Unauthorized));
    assert_eq!(rollback_config(&mut store, &acct("GADMIN"), 9, &[1, 2, 3]), Err(RollbackError::VersionNotFound));
    rollback_config(&mut store, &acct("GADMIN"), 2, &[1, 2, 3]).unwrap();
    assert_eq!(
        claim_admin_takeover(&mut store, &acct("CDAO"), 100, 100 + NINETY_DAYS_SECS),
        Err(TakeoverError::Unauthorized)
    );
    assert_eq!(register_dao(&mut store, &acct("CDAO"), acct("CDAO")), Err(RoleError::Unauthorized));
    register_dao(&mut store, &acct("GADMIN"), acct("CDAO")).unwrap();
    assert_eq!(
        claim_admin_takeover(&mut store, &acct("CDAO"), 100, 100 + NINETY_DAYS_SECS - 1),
        Err(TakeoverError::AdminStillActive)
    );
    claim_admin_takeover(&mut store, &acct("CDAO"), 100, 100 + NINETY_DAYS_SECS).unwrap();
    assert_eq!(get_admin(&store).unwrap(), acct("CDAO"));
    assert_eq!(store.events.len(), 4);
    assert!(matches!(store.events[1], GovernanceEvent::ConfigRolledBack { target_version: 2 }));
}

#[test]
fn dispute_side_switches() {
    let mut store = with_admin();
    assert_eq!(
        withdraw_dispute(&mut store, &acct("GF"), 1, 0, 0, 1_000, TWO_HOURS_SECS + 1),
        Err(WithdrawalError::WindowExpired)
    );
    assert_eq!(
        withdraw_dispute(&mut store, &acct("GF"), 1, 0, 1, 1_000, 10),
        Err(WithdrawalError::VotesAlreadyCast)
    );
    assert_eq!(withdraw_dispute(&mut store, &acct("GF"), 1, 0, 0, 1_001, 10), Ok(950));
    assert_eq!(withdraw_dispute(&mut store, &acct("GF"), 2, 0, 0, -1_001, 10), Ok(-950));
    assert_eq!(
        file_appeal(&mut store, &acct("GF"), 1, 0, true, 500, 1),
        Err(AppealError::AlreadyAppealed)
    );
    assert_eq!(
        file_appeal(&mut store, &acct("GF"), 1, 0, false, 500, FORTY_EIGHT_HOURS_SECS + 1),
        Err(AppealError::WindowExpired)
    );
    assert_eq!(file_appeal(&mut store, &acct("GF"), 1, 0, false, 500, FORTY_EIGHT_HOURS_SECS), Ok(1_000));
    let council = vec![acct("C1"), acct("C2")];
    assert_eq!(
        force_settle_dispute(&mut store, 1, 0, 0, &council, THIRTY_DAYS_SECS),
        Err(ForceSettleError::InsufficientCouncilSignatures)
    );
    assert_eq!(
        force_settle_dispute(&mut store, 1, 0, 0, &council, THIRTY_DAYS_SECS - 1),
        Err(ForceSettleError::NotInactiveLongEnough)
    );
    let full = vec![acct("C1"), acct("C2"), acct("C3")];
    force_settle_dispute(&mut store, 1, 1, 0, &full, THIRTY_DAYS_SECS).unwrap();
    assert!(matches!(store.events.last(), Some(GovernanceEvent::DisputeForceSettled { outcome: 1, .. })));
}

#[test]
fn guards_rotate_and_resets_need_four_guardians() {
    let mut store = with_admin();
    assert!(current_emergency_guard(&store).is_none());
    assert_eq!(
        rotate_emergency_guard(&mut store, &acct("G1"), &acct("G1"), &acct("G2")),
        Err(RoleError::Unauthorized)
    );
    assert!(current_emergency_guard(&store).is_none());
    rotate_emergency_guard(&mut store, &acct("GADMIN"), &acct("G1"), &acct("G2")).unwrap();
    assert_eq!(current_emergency_guard(&store), Some(acct("G2")));
    rotate_emergency_guard(&mut store, &acct("GADMIN"), &acct("G1"), &acct("G3")).unwrap();
    assert_eq!(current_emergency_guard(&store), Some(acct("G2")));
    let key = Symbol::new("IDX");
    store.set_temp_entry(&key, vec![1, 2]);
    let five = vec![acct("A"), acct("B"), acct("C"), acct("D"), acct("E")];
    assert_eq!(set_guardians(&mut store, &acct("A"), five.clone()), Err(RoleError::Unauthorized));
    set_guardians(&mut store, &acct("GADMIN"), five).unwrap();
    let three = vec![acct("A"), acct("B"), acct("C")];
    assert_eq!(
        emergency_state_reset(&mut store, &three, &key),
        Err(StateResetError::InsufficientGuardianSignatures)
    );
    let repeated = vec![acct("A"), acct("B"), acct("C"), acct("C")];
    assert_eq!(
        emergency_state_reset(&mut store, &repeated, &key),
        Err(StateResetError::InsufficientGuardianSignatures)
    );
    let stranger = vec![acct("A"), acct("B"), acct("C"), acct("X")];
    assert_eq!(emergency_state_reset(&mut store, &stranger, &key), Err(StateResetError::Unauthorized));
    assert!(store.has_temp_entry(&key));
    let four = vec![acct("A"), acct("B"), acct("C"), acct("D")];
    emergency_state_reset(&mut store, &four, &key).unwrap();
    assert!(!store.has_temp_entry(&key));
    dispatch_emergency_alert(&mut store, 7, &acct("A"), 42, 1_234);
    match store.events.last() {
        Some(GovernanceEvent::Alert { alert }) => {
            assert_eq!(alert.trigger_reason_code, 7);
            assert_eq!(alert.ledger_sequence, 42);
            assert_eq!(alert.timestamp, 1_234);
        }
        _ => panic!("alert expected"),
    }
}
