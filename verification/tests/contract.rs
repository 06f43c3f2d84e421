use sla_calculator::sla::{SLACalculatorContract, Severity};
use sla_calculator::{Account, Symbol};

#[test]
fn test_initialize_and_get_admin() {
    let mut contract = SLACalculatorContract::new();
    let admin = Account::new("GADMIN");
    contract.initialize(admin.clone());
    let stored_admin = contract.get_admin();
    assert_eq!(stored_admin, admin);
}

#[test]
fn test_default_config_initialization() {
    let mut contract = SLACalculatorContract::new();
    contract.initialize(Account::new("GADMIN"));

    let critical_config = contract.get_config(Severity::Critical);
    assert_eq!(critical_config.threshold_minutes, 15);
    assert_eq!(critical_config.penalty_per_minute, 10_0000000);
    assert_eq!(critical_config.reward_base, 500_0000000);

    let high_config = contract.get_config(Severity::High);
    assert_eq!(high_config.threshold_minutes, 30);
    assert_eq!(high_config.penalty_per_minute, 5_0000000);
    assert_eq!(high_config.reward_base, 200_0000000);

    let medium_config = contract.get_config(Severity::Medium);
    assert_eq!(medium_config.threshold_minutes, 60);
    assert_eq!(medium_config.penalty_per_minute, 2_0000000);
    assert_eq!(medium_config.reward_base, 100_0000000);

    let low_config = contract.get_config(Severity::Low);
    assert_eq!(low_config.threshold_minutes, 120);
    assert_eq!(low_config.penalty_per_minute, 1_0000000);
    assert_eq!(low_config.reward_base, 50_0000000);
}

#[test]
fn test_admin_can_update_config() {
    let mut contract = SLACalculatorContract::new();
    contract.initialize(Account::new("GADMIN"));
    contract.update_config(Severity::Critical, 20, 15_0000000, 750_0000000);

    let updated_config = contract.get_config(Severity::Critical);
    assert_eq!(updated_config.threshold_minutes, 20);
    assert_eq!(updated_config.penalty_per_minute, 15_0000000);
    assert_eq!(updated_config.reward_base, 750_0000000);

    let high_config = contract.get_config(Severity::High);
    assert_eq!(high_config.threshold_minutes, 30);
    assert_eq!(high_config.penalty_per_minute, 5_0000000);
}

#[test]
fn the_calculator_entry_point_is_a_placeholder() {
    let mut contract = SLACalculatorContract::new();
    contract.initialize(Account::new("GADMIN"));
    let answer = contract.calculate_sla(&Symbol::new("OUT1"), &Symbol::new("high"), 10);
    assert_eq!(answer.as_str(), "TODO");
}
