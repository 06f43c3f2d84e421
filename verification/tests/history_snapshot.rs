use sla_calculator::history_snapshot::{
    get_monthly_sla_snapshot, has_monthly_sla_snapshot, normalize_history, snapshot_monthly_sla,
    SnapshotBook, SnapshotError, SnapshotEvent,
};
use sla_calculator::sla::SLAResult;
use sla_calculator::Symbol;

#[test]
fn test_snapshot_monthly_sla_storage_layout() {
    let mut book = SnapshotBook::new();
    let month_index = 202609;
    let status = Symbol::new("met");
    assert!(!has_monthly_sla_snapshot(&book, month_index));
    let snapshot =
        snapshot_monthly_sla(&mut book, month_index, 180, 45, status.clone(), 1_700_000_000)
            .unwrap();
    assert_eq!(snapshot.month_index, month_index);
    assert_eq!(snapshot.total_downtime_minutes, 180);
    assert_eq!(snapshot.mttr_minutes, 45);
    assert_eq!(snapshot.final_compliance_status, status);
    assert_eq!(snapshot.recorded_at, 1_700_000_000);
    let fetched = get_monthly_sla_snapshot(&book, month_index).unwrap();
    assert_eq!(fetched, snapshot);
    assert!(has_monthly_sla_snapshot(&book, month_index));
    assert!(matches!(book.events()[0], SnapshotEvent::MonthlySnapshot { month_index: 202609, .. }));
}

#[test]
fn test_prevents_overwriting_finalized_snapshot() {
    let mut book = SnapshotBook::new();
    let month_index = 202609;
    let first_snap =
        snapshot_monthly_sla(&mut book, month_index, 100, 25, Symbol::new("met"), 1).unwrap();
    let result = snapshot_monthly_sla(&mut book, month_index, 500, 120, Symbol::new("viol"), 2);
    assert_eq!(result, Err(SnapshotError::AlreadyFinalized));
    let stored = get_monthly_sla_snapshot(&book, month_index).unwrap();
    assert_eq!(stored.total_downtime_minutes, first_snap.total_downtime_minutes);
    assert_eq!(stored.final_compliance_status, first_snap.final_compliance_status);
}

#[test]
fn test_invalid_month_index() {
    let mut book = SnapshotBook::new();
    let result = snapshot_monthly_sla(&mut book, 0, 100, 25, Symbol::new("met"), 1);
    assert_eq!(result, Err(SnapshotError::InvalidMonthIndex));
    assert_eq!(get_monthly_sla_snapshot(&book, 1), Err(SnapshotError::SnapshotNotFound));
}

fn result(status: &str, payment: &str) -> SLAResult {
    SLAResult {
        outage_id: Symbol::new("OUT1"),
        status: Symbol::new(status),
        mttr_minutes: 10,
        threshold_minutes: 30,
        amount: 100,
        payment_type: Symbol::new(payment),
        rating: Symbol::new("good"),
        config_version_hash: 7,
        recorded_at: 1,
    }
}

#[test]
fn normalising_a_history_reports_what_it_holds() {
    let none = normalize_history(&vec![]);
    assert_eq!(none.count, 0);
    assert!(!none.has_violations && !none.has_rewards);
    let mixed = normalize_history(&vec![result("met", "rew"), result("viol", "pen")]);
    assert_eq!(mixed.count, 2);
    assert!(mixed.has_violations);
    assert!(mixed.has_rewards);
    let penalties = normalize_history(&vec![result("met", "pen")]);
    assert!(!penalties.has_violations && !penalties.has_rewards);
}

#[test]
fn separate_months_are_kept_apart() {
    let mut book = SnapshotBook::new();
    snapshot_monthly_sla(&mut book, 1, 10, 1, Symbol::new("met"), 5).unwrap();
    snapshot_monthly_sla(&mut book, 2, 20, 2, Symbol::new("viol"), 6).unwrap();
    assert_eq!(get_monthly_sla_snapshot(&book, 1).unwrap().total_downtime_minutes, 10);
    assert_eq!(get_monthly_sla_snapshot(&book, 2).unwrap().total_downtime_minutes, 20);
}
