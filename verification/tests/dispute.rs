use sla_calculator::dispute::{
    add_dispute_evidence, assign_arbitrator_panel, auto_resolve_expired_dispute,
    cast_arbitrator_vote, dismiss_dispute, escalate_dispute, get_arbitration_pool_balance,
    get_arbitrator_fee_balance, get_dispute, get_dispute_details, get_disputes_by_status,
    get_settlement_payout, list_disputes, no_evidence_hash, open_dispute, resolve_dispute,
    DisputeError, DisputeEvent, DisputeStatus, DisputeStore, EscalationLevel, VoteDecision,
    DEFAULT_ARBITRATION_WINDOW_SECS, MAX_ACTIVE_DISPUTES,
};
use sla_calculator::{Account, Symbol};

fn setup() -> (DisputeStore, Account, Account) {
    let admin = Account::new("GADMIN");
    let filer = Account::new("GFILER");
    (DisputeStore::new(Some(admin.clone())), admin, filer)
}

fn reason() -> String {
    "r".to_string()
}

fn open(store: &mut DisputeStore, filer: &Account, id: &str, bond: i128, now: u64) {
    open_dispute(
        store,
        filer,
        Symbol::new(id),
        Symbol::new("outage"),
        reason(),
        bond,
        no_evidence_hash(),
        now,
    )
    .unwrap();
}

fn panel(names: &[&str]) -> Vec<Account> {
    names.iter().map(|n| Account::new(n)).collect()
}

#[test]
fn test_max_active_disputes_cap_rejects_51st_dispute() {
    let (mut store, _, filer) = setup();
    for i in 0..MAX_ACTIVE_DISPUTES {
        open(&mut store, &filer, &format!("d{}", i), 1_000, 0);
    }
    let result = open_dispute(
        &mut store,
        &filer,
        Symbol::new("d_overflow"),
        Symbol::new("outage"),
        reason(),
        1_000,
        no_evidence_hash(),
        0,
    );
    assert_eq!(result, Err(DisputeError::MaxActiveDisputesReached));
}

#[test]
fn test_settling_a_dispute_frees_an_active_slot() {
    let (mut store, admin, filer) = setup();
    for i in 0..MAX_ACTIVE_DISPUTES {
        open(&mut store, &filer, &format!("d{}", i), 1_000, 0);
    }
    resolve_dispute(&mut store, &admin, Symbol::new("d0"), reason(), false, 10).unwrap();
    assert!(open_dispute(
        &mut store,
        &filer,
        Symbol::new("d_after_free"),
        Symbol::new("outage"),
        reason(),
        1_000,
        no_evidence_hash(),
        10,
    )
    .is_ok());
}

#[test]
fn test_arbitrator_fee_split_on_upheld_settlement() {
    let (mut store, admin, filer) = setup();
    let arb1 = Account::new("ARB1");
    let arb2 = Account::new("ARB2");
    open(&mut store, &filer, "d1", 1_000, 0);
    cast_arbitrator_vote(&mut store, &arb1, Symbol::new("d1"), VoteDecision::UpholdOutage, false, 5)
        .unwrap();
    cast_arbitrator_vote(&mut store, &arb2, Symbol::new("d1"), VoteDecision::DismissOutage, false, 6)
        .unwrap();
    let payout = resolve_dispute(&mut store, &admin, Symbol::new("d1"), reason(), true, 7).unwrap();
    assert_eq!(payout.arbitrator_fee_total, 50);
    assert_eq!(payout.per_arbitrator_share, 25);
    assert_eq!(payout.customer_payout, 950);
    assert_eq!(get_arbitrator_fee_balance(&store, arb1), 25);
    assert_eq!(get_arbitrator_fee_balance(&store, arb2), 25);
}

#[test]
fn test_no_arbitrator_fee_when_not_upheld() {
    let (mut store, admin, filer) = setup();
    let arb1 = Account::new("ARB1");
    open(&mut store, &filer, "d1", 1_000, 0);
    cast_arbitrator_vote(&mut store, &arb1, Symbol::new("d1"), VoteDecision::UpholdOutage, false, 5)
        .unwrap();
    let payout = resolve_dispute(&mut store, &admin, Symbol::new("d1"), reason(), false, 7).unwrap();
    assert_eq!(payout.arbitrator_fee_total, 0);
    assert_eq!(payout.customer_payout, 1_000);
    assert_eq!(get_arbitrator_fee_balance(&store, arb1), 0);
}

#[test]
fn test_vote_rejected_once_dispute_resolved() {
    let (mut store, admin, filer) = setup();
    let arb1 = Account::new("ARB1");
    open(&mut store, &filer, "d1", 1_000, 0);
    resolve_dispute(&mut store, &admin, Symbol::new("d1"), reason(), false, 3).unwrap();
    let result =
        cast_arbitrator_vote(&mut store, &arb1, Symbol::new("d1"), VoteDecision::UpholdOutage, false, 4);
    assert_eq!(result.err(), Some(DisputeError::DisputeNotActive));
}

#[test]
fn test_get_dispute_details_reports_full_summary() {
    let (mut store, _, filer) = setup();
    let arb1 = Account::new("ARB1");
    open(&mut store, &filer, "d1", 2_000, 1_000);
    cast_arbitrator_vote(&mut store, &arb1, Symbol::new("d1"), VoteDecision::UpholdOutage, false, 1_000)
        .unwrap();
    let details = get_dispute_details(&store, Symbol::new("d1"), 1_000).unwrap();
    assert_eq!(details.status, DisputeStatus::Open);
    assert_eq!(details.bond_amount, 2_000);
    assert_eq!(details.arbitrator_votes.len(), 1);
    assert_eq!(details.evidence_hash, no_evidence_hash());
    assert_eq!(details.time_remaining_secs, DEFAULT_ARBITRATION_WINDOW_SECS);
}

#[test]
fn test_get_dispute_details_time_remaining_after_window_elapses() {
    let (mut store, _, filer) = setup();
    open(&mut store, &filer, "d1", 1_000, 1_000);
    let later = 1_000 + DEFAULT_ARBITRATION_WINDOW_SECS + 500;
    let details = get_dispute_details(&store, Symbol::new("d1"), later).unwrap();
    assert_eq!(details.time_remaining_secs, 0);
}

fn evidence_hash(seed: u8) -> [u8; 32] {
    [seed; 32]
}

#[test]
fn test_add_dispute_evidence_appends_history() {
    let (mut store, _, filer) = setup();
    open(&mut store, &filer, "d1", 1_000, 0);
    add_dispute_evidence(&mut store, &filer, Symbol::new("d1"), evidence_hash(1)).unwrap();
    add_dispute_evidence(&mut store, &filer, Symbol::new("d1"), evidence_hash(2)).unwrap();
    let details = get_dispute_details(&store, Symbol::new("d1"), 0).unwrap();
    assert_eq!(details.evidence_hash, evidence_hash(2));
    let dispute = get_dispute(&store, Symbol::new("d1")).unwrap().unwrap();
    assert_eq!(dispute.evidence_history, vec![evidence_hash(1), evidence_hash(2)]);
}

#[test]
fn test_add_dispute_evidence_rejects_non_filer() {
    let (mut store, _, filer) = setup();
    let stranger = Account::new("STRANGER");
    open(&mut store, &filer, "d1", 1_000, 0);
    let result = add_dispute_evidence(&mut store, &stranger, Symbol::new("d1"), evidence_hash(1));
    assert_eq!(result, Err(DisputeError::NotDisputeFiler));
}

#[test]
fn test_assign_arbitrator_panel_requires_exact_size() {
    let (mut store, admin, filer) = setup();
    open(&mut store, &filer, "d1", 1_000, 0);
    let result = assign_arbitrator_panel(&mut store, &admin, Symbol::new("d1"), panel(&["A1", "A2"]));
    assert_eq!(result, Err(DisputeError::InvalidArbitratorPanel));
}

#[test]
fn test_cast_vote_rejected_for_non_panel_member() {
    let (mut store, admin, filer) = setup();
    open(&mut store, &filer, "d1", 1_000, 0);
    assign_arbitrator_panel(&mut store, &admin, Symbol::new("d1"), panel(&["A1", "A2", "A3"]))
        .unwrap();
    let outsider = Account::new("OUTSIDER");
    let result = cast_arbitrator_vote(
        &mut store,
        &outsider,
        Symbol::new("d1"),
        VoteDecision::UpholdOutage,
        false,
        1,
    );
    assert_eq!(result.err(), Some(DisputeError::InvalidArbitratorPanel));
}

#[test]
fn test_quorum_uphold_auto_finalizes_and_pays_arbitrators() {
    let (mut store, admin, filer) = setup();
    open(&mut store, &filer, "d1", 1_000, 0);
    assign_arbitrator_panel(&mut store, &admin, Symbol::new("d1"), panel(&["A1", "A2", "A3"]))
        .unwrap();
    let result = cast_arbitrator_vote(
        &mut store,
        &Account::new("A1"),
        Symbol::new("d1"),
        VoteDecision::UpholdOutage,
        false,
        1,
    )
    .unwrap();
    assert!(result.is_none());
    let result = cast_arbitrator_vote(
        &mut store,
        &Account::new("A2"),
        Symbol::new("d1"),
        VoteDecision::UpholdOutage,
        false,
        2,
    )
    .unwrap();
    let payout = result.expect("quorum should auto-finalize the dispute");
    assert!(payout.upheld);
    assert_eq!(payout.arbitrator_fee_total, 50);
    assert_eq!(payout.customer_payout, 950);
    let details = get_dispute_details(&store, Symbol::new("d1"), 2).unwrap();
    assert_eq!(details.status, DisputeStatus::Resolved);
    let late_vote = cast_arbitrator_vote(
        &mut store,
        &Account::new("A3"),
        Symbol::new("d1"),
        VoteDecision::UpholdOutage,
        false,
        3,
    );
    assert_eq!(late_vote.err(), Some(DisputeError::DisputeNotActive));
}

#[test]
fn test_quorum_unanimous_frivolous_dismissal_slashes_bond() {
    let (mut store, admin, filer) = setup();
    open(&mut store, &filer, "d1", 1_000, 0);
    assign_arbitrator_panel(&mut store, &admin, Symbol::new("d1"), panel(&["A1", "A2", "A3"]))
        .unwrap();
    let pool_before = get_arbitration_pool_balance(&store);
    for name in ["A1", "A2"] {
        cast_arbitrator_vote(
            &mut store,
            &Account::new(name),
            Symbol::new("d1"),
            VoteDecision::DismissOutage,
            true,
            1,
        )
        .unwrap();
    }
    let payout = cast_arbitrator_vote(
        &mut store,
        &Account::new("A3"),
        Symbol::new("d1"),
        VoteDecision::DismissOutage,
        true,
        2,
    )
    .unwrap()
    .expect("unanimous frivolous dismissal should auto-finalize");
    assert!(!payout.upheld);
    assert_eq!(payout.customer_payout, 0);
    assert_eq!(payout.arbitrator_fee_total, 0);
    assert_eq!(get_arbitration_pool_balance(&store), pool_before + 1_000);
}

#[test]
fn test_quorum_dismissal_not_unanimous_frivolous_refunds_customer() {
    let (mut store, admin, filer) = setup();
    open(&mut store, &filer, "d1", 1_000, 0);
    assign_arbitrator_panel(&mut store, &admin, Symbol::new("d1"), panel(&["A1", "A2", "A3"]))
        .unwrap();
    let pool_before = get_arbitration_pool_balance(&store);
    cast_arbitrator_vote(
        &mut store,
        &Account::new("A1"),
        Symbol::new("d1"),
        VoteDecision::DismissOutage,
        true,
        1,
    )
    .unwrap();
    let payout = cast_arbitrator_vote(
        &mut store,
        &Account::new("A2"),
        Symbol::new("d1"),
        VoteDecision::DismissOutage,
        false,
        2,
    )
    .unwrap()
    .expect("quorum should still auto-finalize");
    assert!(!payout.upheld);
    assert_eq!(payout.customer_payout, 1_000);
    assert_eq!(get_arbitration_pool_balance(&store), pool_before);
}

#[test]
fn test_auto_resolve_expired_dispute_favors_filer() {
    let (mut store, _, filer) = setup();
    open(&mut store, &filer, "d1", 1_000, 1_000);
    let later = 1_000 + DEFAULT_ARBITRATION_WINDOW_SECS + 1;
    let payout = auto_resolve_expired_dispute(&mut store, Symbol::new("d1"), later).unwrap();
    assert!(payout.upheld);
    assert_eq!(payout.customer_payout, 1_000);
    let details = get_dispute_details(&store, Symbol::new("d1"), later).unwrap();
    assert_eq!(details.status, DisputeStatus::Resolved);
    let dispute = get_dispute(&store, Symbol::new("d1")).unwrap().unwrap();
    assert!(dispute.resolved_by == Some(filer));
    assert_eq!(
        dispute.resolution.as_deref(),
        Some("Auto-resolved: arbitration window expired, defaulted in favor of filer")
    );
}

#[test]
fn test_auto_resolve_expired_dispute_rejects_before_deadline() {
    let (mut store, _, filer) = setup();
    open(&mut store, &filer, "d1", 1_000, 1_000);
    let result = auto_resolve_expired_dispute(&mut store, Symbol::new("d1"), 1_000);
    assert_eq!(result.err(), Some(DisputeError::ArbitrationWindowNotExpired));
}

#[test]
fn the_bond_is_fully_accounted_for_on_every_settlement() {
    let (mut store, admin, filer) = setup();
    open(&mut store, &filer, "d1", 12_345, 0);
    for name in ["A1", "A2"] {
        cast_arbitrator_vote(
            &mut store,
            &Account::new(name),
            Symbol::new("d1"),
            if name == "A1" { VoteDecision::UpholdOutage } else { VoteDecision::DismissOutage },
            false,
            1,
        )
        .unwrap();
    }
    let payout = resolve_dispute(&mut store, &admin, Symbol::new("d1"), reason(), true, 2).unwrap();
    // 5% of 12_345 rounds down to 617; split in two rounds down to 308.
    assert_eq!(payout.arbitrator_fee_total, 617);
    assert_eq!(payout.customer_payout, 11_728);
    assert_eq!(payout.customer_payout + payout.arbitrator_fee_total, 12_345);
    assert_eq!(payout.per_arbitrator_share, 308);
    let recorded = get_settlement_payout(&store, Symbol::new("d1")).unwrap().unwrap();
    assert_eq!(recorded.customer_payout, 11_728);
}

#[test]
fn escalation_walks_up_the_levels() {
    let (mut store, admin, filer) = setup();
    open(&mut store, &filer, "d1", 1_000, 0);
    let stranger = Account::new("STRANGER");
    assert_eq!(escalate_dispute(&mut store, &stranger, Symbol::new("d1")), Err(DisputeError::Unauthorized));
    escalate_dispute(&mut store, &admin, Symbol::new("d1")).unwrap();
    let d = get_dispute(&store, Symbol::new("d1")).unwrap().unwrap();
    assert_eq!(d.status, DisputeStatus::Escalated);
    assert_eq!(d.escalation_level, EscalationLevel::L2Engineering);
    // An escalated dispute cannot be escalated again.
    assert_eq!(
        escalate_dispute(&mut store, &admin, Symbol::new("d1")),
        Err(DisputeError::InvalidTransition)
    );
    assert_eq!(
        escalate_dispute(&mut store, &admin, Symbol::new("nope")),
        Err(DisputeError::ConfigNotFound)
    );
}

#[test]
fn dismissal_and_listing_by_status() {
    let (mut store, admin, filer) = setup();
    open(&mut store, &filer, "d1", 1_000, 0);
    open(&mut store, &filer, "d2", 1_000, 0);
    dismiss_dispute(&mut store, &admin, Symbol::new("d1"), 9).unwrap();
    let all = list_disputes(&store).unwrap();
    assert_eq!(all.len(), 2);
    assert_eq!(all[0].dispute_id.as_str(), "d1");
    let open_ones = get_disputes_by_status(&store, DisputeStatus::Open).unwrap();
    assert_eq!(open_ones.len(), 1);
    assert_eq!(open_ones[0].dispute_id.as_str(), "d2");
    let dismissed = get_disputes_by_status(&store, DisputeStatus::Dismissed).unwrap();
    assert_eq!(dismissed[0].resolved_at, Some(9));
    assert!(get_dispute(&store, Symbol::new("zzz")).unwrap().is_none());
    assert!(get_settlement_payout(&store, Symbol::new("d1")).unwrap().is_none());
}

#[test]
fn a_repeated_vote_is_ignored_and_events_are_published() {
    let (mut store, _, filer) = setup();
    open(&mut store, &filer, "d1", 1_000, 0);
    let arb = Account::new("A1");
    cast_arbitrator_vote(&mut store, &arb, Symbol::new("d1"), VoteDecision::UpholdOutage, false, 1)
        .unwrap();
    cast_arbitrator_vote(&mut store, &arb, Symbol::new("d1"), VoteDecision::UpholdOutage, false, 2)
        .unwrap();
    let d = get_dispute(&store, Symbol::new("d1")).unwrap().unwrap();
    assert_eq!(d.arbitrator_votes.len(), 1);
    assert_eq!(d.status, DisputeStatus::Open);
    assert!(matches!(store.events()[0], DisputeEvent::Opened { .. }));
    assert!(matches!(store.events()[1], DisputeEvent::Voted { .. }));
    assert_eq!(store.events().len(), 3);
}

#[test]
fn missing_admin_and_unknown_disputes_are_refused() {
    let mut store = DisputeStore::new(None);
    let someone = Account::new("X");
    assert_eq!(
        resolve_dispute(&mut store, &someone, Symbol::new("d1"), reason(), true, 0).err(),
        Some(DisputeError::NotInitialized)
    );
    assert_eq!(
        auto_resolve_expired_dispute(&mut store, Symbol::new("d1"), 0).err(),
        Some(DisputeError::ConfigNotFound)
    );
}

#[test]
fn listings_follow_the_host_order_of_ids() {
    let (mut store, _admin, filer) = setup();
    open(&mut store, &filer, "zeta", 1_000, 0);
    open(&mut store, &filer, "a_dispute_with_a_long_id", 1_000, 0);
    open(&mut store, &filer, "Beta", 1_000, 0);
    open(&mut store, &filer, "alpha", 1_000, 0);
    let all = list_disputes(&store).unwrap();
    let ids: Vec<&str> = all.iter().map(|d| d.dispute_id.as_str()).collect();
    // Short symbols first, each group character by character.
    assert_eq!(ids, vec!["Beta", "alpha", "zeta", "a_dispute_with_a_long_id"]);
}

#[test]
fn a_second_vote_by_the_same_arbitrator_changes_nothing() {
    let (mut store, _admin, filer) = setup();
    open(&mut store, &filer, "d1", 1_000, 0);
    let arb = Account::new("ARB1");
    let first = cast_arbitrator_vote(&mut store, &arb, Symbol::new("d1"), VoteDecision::UpholdOutage, false, 5);
    assert!(matches!(first, Ok(None)));
    let again = cast_arbitrator_vote(&mut store, &arb, Symbol::new("d1"), VoteDecision::UpholdOutage, false, 6);
    assert!(matches!(again, Ok(None)));
    let d = get_dispute(&store, Symbol::new("d1")).unwrap().unwrap();
    assert_eq!(d.arbitrator_votes.len(), 1);
    assert_eq!(d.status, DisputeStatus::Open);
}
