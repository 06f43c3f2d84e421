use sla_calculator::adaptive_tuning::{
    disable_tuning, get_tuning_config, get_tuning_recommendation, init_tuning,
    record_tuning_application, set_tuning, TuningEvent, TuningState,
};
use sla_calculator::config_provenance::{
    get_change_count, get_changes_by_admin, get_changes_in_range, get_latest_change,
    get_provenance_log, get_severity_provenance, record_config_change, ProvenanceState,
};
use sla_calculator::emergency::{
    execute_rollback, get_rollback_state, initiate_rollback, is_rollback_in_progress,
    undo_rollback, EmergencyState,
};
use sla_calculator::multi_operator::{
    add_operator, init_operators, is_operator, list_operators, operator_count, remove_operator,
    MultiOperatorState,
};
use sla_calculator::oracle::{
    disable_oracle, get_oracle_config, init_oracle, is_oracle_enabled, record_oracle_data,
    set_oracle, validate_oracle_data, OracleDataPoint, OracleState,
};
use sla_calculator::sla::{SLAError, SLAStats, TierConfig};
use sla_calculator::table::Table;
use sla_calculator::{Account, Symbol};

fn admin() -> Account {
    Account::new("GADMIN")
}

fn tuning(stats: Option<SLAStats>) -> TuningState {
    TuningState { admin: Some(admin()), tuning: None, stats, events: Vec::new() }
}

fn stats(calculations: u64, violations: u64) -> SLAStats {
    SLAStats {
        total_calculations: calculations,
        total_violations: violations,
        total_rewards: 0,
        total_penalties: 0,
    }
}

#[test]
fn tuning_starts_disabled_with_the_defaults() {
    let mut state = tuning(None);
    init_tuning(&mut state);
    let config = get_tuning_config(&state).unwrap();
    assert_eq!(config.target_compliance_bps, 9500);
    assert_eq!(config.adjustment_step_bps, 100);
    assert_eq!(config.max_adjustment_bps, 500);
    assert_eq!(config.evaluation_window, 86400);
    assert!(!config.enabled);
    let rec = get_tuning_recommendation(&state).unwrap();
    assert_eq!(rec.current_compliance_bps, 0);
    assert_eq!(rec.gap_bps, 9500);
    assert!(!rec.should_adjust);
}

#[test]
fn below_target_compliance_loosens_thresholds() {
    let mut state = tuning(Some(stats(100, 20)));
    set_tuning(&mut state, &admin(), 9500, 100, 500, 3600).unwrap();
    let rec = get_tuning_recommendation(&state).unwrap();
    assert_eq!(rec.current_compliance_bps, 8000);
    assert_eq!(rec.gap_bps, 1500);
    assert!(rec.should_adjust);
    assert_eq!(rec.threshold_adjustment, 100);
    assert_eq!(rec.penalty_adjustment, -100);
}

#[test]
fn above_target_compliance_tightens_and_the_cap_applies() {
    let mut state = tuning(Some(stats(3, 0)));
    set_tuning(&mut state, &admin(), 5000, 800, 300, 3600).unwrap();
    let rec = get_tuning_recommendation(&state).unwrap();
    assert_eq!(rec.current_compliance_bps, 10000);
    assert_eq!(rec.gap_bps, -5000);
    assert_eq!(rec.threshold_adjustment, -300);
    assert_eq!(rec.penalty_adjustment, 300);
}

#[test]
fn a_small_gap_needs_no_adjustment_and_rounding_is_down() {
    let mut state = tuning(Some(stats(3, 1)));
    set_tuning(&mut state, &admin(), 6700, 100, 500, 3600).unwrap();
    let rec = get_tuning_recommendation(&state).unwrap();
    // 2 of 3 met: 6666 basis points, rounded down.
    assert_eq!(rec.current_compliance_bps, 6666);
    assert!(!rec.should_adjust);
    assert_eq!(rec.threshold_adjustment, 0);
}

#[test]
fn tuning_settings_are_guarded() {
    let mut state = tuning(None);
    assert_eq!(set_tuning(&mut state, &admin(), 10001, 1, 1, 1), Err(SLAError::InvalidThreshold));
    assert_eq!(
        set_tuning(&mut state, &Account::new("X"), 9000, 1, 1, 1),
        Err(SLAError::Unauthorized)
    );
    set_tuning(&mut state, &admin(), 9000, 1, 1, 1).unwrap();
    disable_tuning(&mut state, &admin()).unwrap();
    let config = get_tuning_config(&state).unwrap();
    assert!(!config.enabled);
    assert_eq!(config.target_compliance_bps, 9000);
    record_tuning_application(&mut state, &admin(), 5, -5);
    assert_eq!(state.events.len(), 2);
    assert!(matches!(state.events[1], TuningEvent::TuningApplied { threshold_adjustment: 5, .. }));
    let mut orphan = TuningState { admin: None, tuning: None, stats: None, events: Vec::new() };
    assert_eq!(disable_tuning(&mut orphan, &admin()), Err(SLAError::NotInitialized));
}

fn tiers() -> Table<TierConfig> {
    let mut t = Table::new();
    t.set(
        "critical".to_string(),
        TierConfig {
            threshold_minutes: 5,
            penalty_per_minute: 1,
            reward_base: 2,
            top_tier_multiplier: 3,
            excel_tier_multiplier: 4,
            good_tier_multiplier: 5,
        },
    );
    t
}

#[test]
fn a_rollback_can_be_undone() {
    let mut state = EmergencyState {
        admin: Some(admin()),
        paused: None,
        configs: Some(tiers()),
        pre_rollback: None,
        rollback: None,
        events: Vec::new(),
    };
    assert_eq!(is_rollback_in_progress(&state), Ok(false));
    assert_eq!(undo_rollback(&mut state, &admin()), Err(SLAError::NotInitialized));
    initiate_rollback(&mut state, &admin(), "bad deploy".to_string(), 77).unwrap();
    assert_eq!(state.paused, Some(true));
    assert_eq!(is_rollback_in_progress(&state), Ok(true));
    let record = get_rollback_state(&state).unwrap().unwrap();
    assert_eq!(record.initiated_at, 77);
    assert_eq!(record.reason, "bad deploy");
    undo_rollback(&mut state, &admin()).unwrap();
    assert_eq!(state.paused, Some(false));
    let restored = state.configs.as_ref().unwrap().get(&"critical".to_string()).unwrap();
    assert_eq!(restored.threshold_minutes, 5);
    assert!(state.rollback.is_none());
}

#[test]
fn executing_a_rollback_restores_factory_terms_and_stays_paused() {
    let mut state = EmergencyState {
        admin: Some(admin()),
        paused: None,
        configs: Some(tiers()),
        pre_rollback: None,
        rollback: None,
        events: Vec::new(),
    };
    assert_eq!(
        initiate_rollback(&mut state, &Account::new("X"), "no".to_string(), 1),
        Err(SLAError::Unauthorized)
    );
    initiate_rollback(&mut state, &admin(), "bad deploy".to_string(), 1).unwrap();
    execute_rollback(&mut state, &admin()).unwrap();
    assert_eq!(state.paused, Some(true));
    let configs = state.configs.as_ref().unwrap();
    assert_eq!(configs.len(), 4);
    let critical = configs.get(&"critical".to_string()).unwrap();
    assert_eq!((critical.threshold_minutes, critical.penalty_per_minute, critical.reward_base), (15, 100, 750));
    let low = configs.get(&"low".to_string()).unwrap();
    assert_eq!((low.threshold_minutes, low.penalty_per_minute, low.reward_base), (120, 10, 600));
    assert_eq!(low.top_tier_multiplier, 200);
    assert_eq!(execute_rollback(&mut state, &admin()), Err(SLAError::NotInitialized));
    assert_eq!(state.events.len(), 2);
}

#[test]
fn provenance_tracks_changes_per_tier() {
    let mut state = ProvenanceState { admin: Some(admin()), log: None, events: Vec::new() };
    let critical = Symbol::new("critical");
    let high = Symbol::new("high");
    record_config_change(&mut state, &critical, 15, 20, 1, 2, 3, 4, "tune".to_string(), 100, Account::new("G0"));
    record_config_change(&mut state, &high, 30, 35, 1, 2, 3, 4, "tune".to_string(), 200, Account::new("G0"));
    record_config_change(&mut state, &critical, 20, 25, 2, 3, 4, 5, "again".to_string(), 300, Account::new("G0"));
    assert_eq!(get_change_count(&state), Ok(3));
    assert_eq!(get_provenance_log(&state).unwrap().records.len(), 3);
    let crit = get_severity_provenance(&state, &critical).unwrap();
    assert_eq!(crit.len(), 2);
    let latest = get_latest_change(&state, &critical).unwrap().unwrap();
    assert_eq!(latest.new_threshold, 25);
    assert_eq!(latest.changed_by, admin());
    assert!(get_latest_change(&state, &Symbol::new("low")).unwrap().is_none());
    assert_eq!(get_changes_in_range(&state, 150, 300).unwrap().len(), 2);
    assert_eq!(get_changes_by_admin(&state, &admin()).unwrap().len(), 3);
    assert_eq!(get_changes_by_admin(&state, &Account::new("G0")).unwrap().len(), 0);
}

#[test]
fn an_unattributed_change_uses_the_given_address() {
    let mut state = ProvenanceState { admin: None, log: None, events: Vec::new() };
    record_config_change(&mut state, &Symbol::new("low"), 1, 2, 3, 4, 5, 6, String::new(), 9, Account::new("GGEN"));
    let only = get_latest_change(&state, &Symbol::new("low")).unwrap().unwrap();
    assert_eq!(only.changed_by, Account::new("GGEN"));
}

#[test]
fn operators_are_added_and_removed_by_the_admin() {
    let mut state = MultiOperatorState { admin: Some(admin()), operators: None, events: Vec::new() };
    let first = Account::new("OP1");
    let second = Account::new("OP2");
    assert_eq!(is_operator(&state, &first), Err(SLAError::NotInitialized));
    assert_eq!(add_operator(&mut state, &admin(), &second), Err(SLAError::NotInitialized));
    init_operators(&mut state, &first);
    assert_eq!(is_operator(&state, &first), Ok(()));
    assert_eq!(add_operator(&mut state, &first, &second), Err(SLAError::Unauthorized));
    add_operator(&mut state, &admin(), &second).unwrap();
    add_operator(&mut state, &admin(), &second).unwrap();
    assert_eq!(operator_count(&state), Ok(2));
    assert_eq!(state.events.len(), 1);
    remove_operator(&mut state, &admin(), &first).unwrap();
    remove_operator(&mut state, &admin(), &first).unwrap();
    assert_eq!(operator_count(&state), Ok(1));
    assert_eq!(is_operator(&state, &first), Err(SLAError::Unauthorized));
    let listed = list_operators(&state).unwrap();
    assert_eq!(listed, vec![second]);
}

#[test]
fn oracle_data_is_checked_for_freshness_and_confirmations() {
    let mut state = OracleState { admin: Some(admin()), config: None, events: Vec::new() };
    let point = OracleDataPoint {
        data_id: Symbol::new("uptime"),
        value: 99,
        timestamp: 1_000,
        confirmations: 2,
        source: Symbol::new("feed"),
    };
    assert_eq!(validate_oracle_data(&state, &point, 99_999), Ok(()));
    assert_eq!(is_oracle_enabled(&state), Ok(false));
    init_oracle(&mut state, Account::new("GGEN"));
    assert_eq!(get_oracle_config(&state).unwrap().unwrap().oracle_address, admin());
    assert_eq!(validate_oracle_data(&state, &point, 99_999), Ok(()));
    set_oracle(&mut state, &admin(), Account::new("CORACLE"), 300, 3).unwrap();
    assert_eq!(is_oracle_enabled(&state), Ok(true));
    assert_eq!(validate_oracle_data(&state, &point, 1_300), Err(SLAError::InvalidThreshold));
    set_oracle(&mut state, &admin(), Account::new("CORACLE"), 300, 2).unwrap();
    assert_eq!(validate_oracle_data(&state, &point, 1_300), Ok(()));
    assert_eq!(validate_oracle_data(&state, &point, 1_301), Err(SLAError::InvalidThreshold));
    assert_eq!(validate_oracle_data(&state, &point, 500), Ok(()));
    disable_oracle(&mut state, &admin()).unwrap();
    assert_eq!(is_oracle_enabled(&state), Ok(false));
    record_oracle_data(&mut state, &point);
    assert_eq!(state.events.len(), 3);
    assert_eq!(set_oracle(&mut state, &Account::new("X"), Account::new("C"), 1, 1), Err(SLAError::Unauthorized));
}
