use sla_calculator::config::{ConfigError, ConfigManager};
use sla_calculator::config_compatibility_check::{check_config_compatibility, CompatibilityStatus};
use sla_calculator::config_history_retention::{push_config_history, ConfigVersionRecord};
use sla_calculator::batch_optimized::{OptimizedBatchCalculator, OptimizedBatchItem};
use sla_calculator::monotonicity::{PenaltyError, SeverityValidator};
use sla_calculator::overtime::OvertimeCalculator;
use sla_calculator::param_boundary_guard::{assert_params_within_bounds, InvalidConfigParameter};
use sla_calculator::daily_withdrawal_limit::{
    check_daily_withdrawal_limit, WithdrawalLimitError, WithdrawalWindow,
};

#[test]
fn test_normal_overtime_calculation() {
    let result = OvertimeCalculator::calculate_overtime_penalty(50, 4);
    assert_eq!(result.final_penalty, 200);
    assert!(!result.is_capped);
}

#[test]
fn test_extreme_overtime_outage_capping() {
    let result = OvertimeCalculator::calculate_overtime_penalty(50, 25);
    assert_eq!(result.final_penalty, 500);
    assert!(result.is_capped);
}

#[test]
fn test_exact_boundary_multiplier() {
    let result = OvertimeCalculator::calculate_overtime_penalty(100, 10);
    assert_eq!(result.final_penalty, 1000);
    assert!(!result.is_capped);
}

#[test]
fn monotone_penalties_are_accepted() {
    assert_eq!(SeverityValidator::validate_monotonicity(400, 300, 200, 100), Ok(()));
}

#[test]
fn equal_neighbouring_penalties_are_refused() {
    assert_eq!(
        SeverityValidator::validate_monotonicity(400, 300, 300, 100),
        Err(PenaltyError::InvalidPenalty)
    );
    assert_eq!(
        SeverityValidator::validate_monotonicity(100, 200, 50, 10),
        Err(PenaltyError::InvalidPenalty)
    );
}

#[test]
fn parameter_bounds_are_checked_target_first() {
    assert_eq!(assert_params_within_bounds(5_000, 0), Ok(()));
    assert_eq!(assert_params_within_bounds(10_000, 10_000), Ok(()));
    assert_eq!(
        assert_params_within_bounds(4_999, 20_000),
        Err(InvalidConfigParameter::SlaTargetOutOfRange)
    );
    assert_eq!(
        assert_params_within_bounds(10_001, 0),
        Err(InvalidConfigParameter::SlaTargetOutOfRange)
    );
    assert_eq!(
        assert_params_within_bounds(9_000, 10_001),
        Err(InvalidConfigParameter::PenaltyBpsOutOfRange)
    );
}

#[test]
fn compatibility_follows_the_version_gap() {
    assert_eq!(check_config_compatibility(5, 5), CompatibilityStatus::Compatible);
    assert_eq!(check_config_compatibility(5, 4), CompatibilityStatus::UpgradeRecommended);
    assert_eq!(check_config_compatibility(0, u32::MAX), CompatibilityStatus::Incompatible);
    assert_eq!(check_config_compatibility(u32::MAX, u32::MAX - 1), CompatibilityStatus::UpgradeRecommended);
    assert_eq!(check_config_compatibility(5, 3), CompatibilityStatus::Incompatible);
    assert_eq!(check_config_compatibility(5, 6), CompatibilityStatus::Incompatible);
}

#[test]
fn reward_base_bounds() {
    assert_eq!(ConfigManager::set_reward_base(1), Ok(()));
    assert_eq!(ConfigManager::set_reward_base(100_000), Ok(()));
    assert_eq!(ConfigManager::set_reward_base(0), Err(ConfigError::RewardOutOfBounds));
    assert_eq!(ConfigManager::set_reward_base(100_001), Err(ConfigError::RewardOutOfBounds));
}

#[test]
fn history_keeps_the_newest_twenty_entries() {
    let mut history = Vec::new();
    for version in 1..=25u32 {
        push_config_history(
            &mut history,
            ConfigVersionRecord { version, applied_at: u64::from(version) * 10 },
        );
    }
    assert_eq!(history.len(), 20);
    assert_eq!(history[0].version, 6);
    assert_eq!(history[19].version, 25);
}

#[test]
fn optimized_batch_doubles_each_score() {
    let items = vec![
        OptimizedBatchItem { id: 1, score: 10 },
        OptimizedBatchItem { id: 2, score: 0 },
        OptimizedBatchItem { id: 3, score: 21 },
    ];
    let results = OptimizedBatchCalculator::process_optimized_batch(&items);
    assert_eq!(
        results,
        vec![
            OptimizedBatchItem { id: 1, score: 20 },
            OptimizedBatchItem { id: 2, score: 0 },
            OptimizedBatchItem { id: 3, score: 42 },
        ]
    );
}

#[test]
fn withdrawals_are_capped_at_a_tenth_of_reserves_per_day() {
    let window = WithdrawalWindow { window_started_at: 1_000, withdrawn_so_far: 60 };
    assert_eq!(check_daily_withdrawal_limit(&window, 40, 1_000, 2_000), Ok(()));
    assert_eq!(
        check_daily_withdrawal_limit(&window, 41, 1_000, 2_000),
        Err(WithdrawalLimitError::DailyLimitExceeded)
    );
    // Once the day has passed the earlier withdrawals no longer count.
    assert_eq!(check_daily_withdrawal_limit(&window, 100, 1_000, 1_000 + 86_400), Ok(()));
}
