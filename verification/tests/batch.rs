use sla_calculator::batch::{
    batch_calculate, find_result_by_outage_id, get_batch_limit, process_single, validate_batch,
    BatchExecutionManager, BatchRequest, BatchSummary, CalculatorState,
};
use sla_calculator::emergency::{initiate_rollback, execute_rollback, EmergencyState};
use sla_calculator::sla::{SLAError, TierConfig};
use sla_calculator::table::Table;
use sla_calculator::{Account, Symbol};

fn tier(threshold: u32, penalty: i128, reward: i128) -> TierConfig {
    TierConfig {
        threshold_minutes: threshold,
        penalty_per_minute: penalty,
        reward_base: reward,
        top_tier_multiplier: 200,
        excel_tier_multiplier: 150,
        good_tier_multiplier: 100,
    }
}

fn configs() -> Table<TierConfig> {
    let mut t = Table::new();
    t.set("critical".to_string(), tier(15, 100, 750));
    t.set("high".to_string(), tier(30, 50, 750));
    t.set("medium".to_string(), tier(60, 25, 750));
    t.set("low".to_string(), tier(120, 10, 600));
    t
}

fn operator() -> Account {
    Account::new("GOPERATOR")
}

fn state() -> CalculatorState {
    CalculatorState { operator: Some(operator()), paused: None, configs: Some(configs()) }
}

fn req(outage: &str, severity: &str, mttr: u32) -> BatchRequest {
    BatchRequest { outage_id: Symbol::new(outage), severity: Symbol::new(severity), mttr_minutes: mttr }
}

#[test]
fn a_mixed_batch_is_evaluated_item_by_item() {
    let requests = vec![
        req("OUT1", "critical", 20),
        req("OUT2", "high", 10),
        req("OUT3", "medium", 40),
        req("OUT4", "low", 120),
        req("OUT5", "urgent", 10),
        req("OUT6", "high", 0),
    ];
    let (summary, results) = batch_calculate(&state(), &operator(), &requests, 1_000).unwrap();
    assert_eq!(
        summary,
        BatchSummary { total: 6, succeeded: 4, failed: 2, total_rewards: 3_225, total_penalties: -500 }
    );
    let first = &results[0].result[0];
    assert_eq!(first.amount, -500);
    assert_eq!(first.status.as_str(), "viol");
    assert_eq!(first.payment_type.as_str(), "pen");
    assert_eq!(first.rating.as_str(), "poor");
    assert_eq!(first.recorded_at, 1_000);
    assert_eq!(results[1].result[0].rating.as_str(), "top");
    assert_eq!(results[1].result[0].amount, 1_500);
    assert_eq!(results[2].result[0].rating.as_str(), "excel");
    assert_eq!(results[2].result[0].amount, 1_125);
    assert_eq!(results[3].result[0].rating.as_str(), "good");
    assert_eq!(results[3].result[0].amount, 600);
    assert!(!results[4].success);
    assert_eq!(results[4].error.as_ref().unwrap().as_str(), "bad_sev");
    assert!(results[4].result.is_empty());
    assert_eq!(results[5].error.as_ref().unwrap().as_str(), "unknown");
    let found = find_result_by_outage_id(&results, &Symbol::new("OUT3")).unwrap();
    assert_eq!(found.result[0].amount, 1_125);
    assert!(find_result_by_outage_id(&results, &Symbol::new("OUT9")).is_none());
}

#[test]
fn a_missing_tier_is_reported_as_such() {
    let mut partial = Table::new();
    partial.set("critical".to_string(), tier(15, 100, 750));
    let state = CalculatorState { operator: Some(operator()), paused: Some(false), configs: Some(partial) };
    let (summary, results) =
        batch_calculate(&state, &operator(), &vec![req("OUT1", "low", 5)], 0).unwrap();
    assert_eq!(summary.failed, 1);
    assert_eq!(results[0].error.as_ref().unwrap().as_str(), "no_config");
}

#[test]
fn batches_are_checked_before_anything_is_evaluated() {
    assert_eq!(validate_batch(&vec![]), Err(SLAError::ThresholdOutOfBounds));
    let too_many: Vec<BatchRequest> =
        (0..=get_batch_limit()).map(|i| req(&format!("O{}", i), "high", 1)).collect();
    assert_eq!(validate_batch(&too_many), Err(SLAError::ThresholdOutOfBounds));
    let twice = vec![req("OUT1", "high", 1), req("OUT2", "high", 1), req("OUT1", "low", 2)];
    assert_eq!(validate_batch(&twice), Err(SLAError::DuplicateOutageInput));
    assert_eq!(validate_batch(&vec![req("OUT1", "high", 1)]), Ok(1));
    assert_eq!(
        batch_calculate(&state(), &operator(), &twice, 0).err(),
        Some(SLAError::DuplicateOutageInput)
    );
}

#[test]
fn only_the_operator_of_a_running_contract_may_calculate() {
    let one = vec![req("OUT1", "high", 1)];
    assert_eq!(
        batch_calculate(&state(), &Account::new("GOTHER"), &one, 0).err(),
        Some(SLAError::Unauthorized)
    );
    let paused = CalculatorState { operator: Some(operator()), paused: Some(true), configs: Some(configs()) };
    assert_eq!(batch_calculate(&paused, &operator(), &one, 0).err(), Some(SLAError::ContractPaused));
    let unset = CalculatorState { operator: None, paused: None, configs: Some(configs()) };
    assert_eq!(batch_calculate(&unset, &operator(), &one, 0).err(), Some(SLAError::NotInitialized));
    let unconfigured = CalculatorState { operator: Some(operator()), paused: None, configs: None };
    assert_eq!(
        batch_calculate(&unconfigured, &operator(), &one, 0).err(),
        Some(SLAError::NotInitialized)
    );
}

#[test]
fn rewards_round_down_and_penalties_saturate() {
    let mut t = Table::new();
    t.set("high".to_string(), tier(30, i128::MAX, -1));
    let met = process_single(&t, &req("OUT1", "high", 30), 0).unwrap();
    assert_eq!(met.amount, -1);
    // -1 * 150% is -1.5, rounded down to -2.
    let excel = process_single(&t, &req("OUT1", "high", 20), 0).unwrap();
    assert_eq!(excel.amount, -2);
    let late = process_single(&t, &req("OUT1", "high", 40), 0).unwrap();
    assert_eq!(late.amount, -i128::MAX);
    assert_eq!(process_single(&t, &req("OUT1", "high", 0), 0).err(), Some(SLAError::InvalidMTTR));
}

#[test]
fn a_rolled_back_configuration_drives_the_calculator() {
    let admin = Account::new("GADMIN");
    let mut emergency = EmergencyState {
        admin: Some(admin.clone()),
        paused: None,
        configs: None,
        pre_rollback: None,
        rollback: None,
        events: Vec::new(),
    };
    initiate_rollback(&mut emergency, &admin, "reset".to_string(), 1).unwrap();
    execute_rollback(&mut emergency, &admin).unwrap();
    let state = CalculatorState { operator: Some(operator()), paused: None, configs: emergency.configs };
    let (summary, _) = batch_calculate(&state, &operator(), &vec![req("OUT1", "critical", 16)], 2).unwrap();
    assert_eq!(summary.total_penalties, -100);
}

#[test]
fn executed_items_are_stamped_with_the_ledger_time() {
    let out = BatchExecutionManager::process_batch(&vec![7, 9], 555);
    assert_eq!(out.len(), 2);
    assert_eq!(out[1].item_id, 9);
    assert!(out[0].success);
    assert_eq!(out[0].recorded_at, 555);
}
