use sla_calculator::breach_escalation::{
    breach_count, breach_record, clear_strikes, effective_penalty_bps, escalation_factor_bps,
    penalty_terms, record_breach, BreachBook, BreachEvent, EscalationError, FIRST_BREACH_FACTOR_BPS,
    MAX_FACTOR_BPS, MAX_PENALTY_BPS, MAX_STRIKES,
};
use sla_calculator::Account;

fn provider(name: &str) -> Account {
    Account::new(name)
}

#[test]
fn a_first_breach_is_not_escalated() {
    assert_eq!(escalation_factor_bps(1), FIRST_BREACH_FACTOR_BPS);
}

#[test]
fn no_breach_means_the_base_factor() {
    assert_eq!(escalation_factor_bps(0), FIRST_BREACH_FACTOR_BPS);
}

#[test]
fn each_breach_adds_a_step() {
    assert_eq!(escalation_factor_bps(2), 12_000);
    assert_eq!(escalation_factor_bps(3), 14_000);
    assert_eq!(escalation_factor_bps(4), 16_000);
}

#[test]
fn the_factor_is_capped() {
    assert_eq!(escalation_factor_bps(MAX_STRIKES), MAX_FACTOR_BPS);
    assert_eq!(escalation_factor_bps(50), MAX_FACTOR_BPS);
}

#[test]
fn the_penalty_is_scaled_by_the_factor() {
    assert_eq!(effective_penalty_bps(1_000, 10_000), 1_000);
    assert_eq!(effective_penalty_bps(1_000, 12_000), 1_200);
    assert_eq!(effective_penalty_bps(2_000, 12_500), 2_500);
}

#[test]
fn the_effective_penalty_is_capped() {
    assert_eq!(effective_penalty_bps(20_000, 30_000), MAX_PENALTY_BPS);
}

#[test]
fn scaling_never_truncates_to_zero() {
    assert!(effective_penalty_bps(1, FIRST_BREACH_FACTOR_BPS) >= 1);
}

#[test]
fn a_fresh_provider_has_no_history() {
    let book = BreachBook::new();
    let p = provider("GPROVIDER1");
    assert_eq!(breach_count(&book, &p), 0);
    assert!(breach_record(&book, &p).is_none());
    let terms = penalty_terms(&book, &p, 1_000);
    assert_eq!(terms.effective_penalty_bps, 1_000);
}

#[test]
fn recording_a_breach_starts_the_streak() {
    let mut book = BreachBook::new();
    let p = provider("GPROVIDER1");
    let record = record_breach(&mut book, &p, 1_000, 500);
    assert_eq!(record.map(|entry| entry.breaches), Ok(1));
}

#[test]
fn repeated_breaches_escalate() {
    let mut book = BreachBook::new();
    let p = provider("GPROVIDER1");
    let mut last = None;
    for index in 0..3u32 {
        last = Some(record_breach(&mut book, &p, 1_000, 100 * u64::from(index)).expect("breach"));
    }
    let record = last.expect("record");
    assert_eq!(record.breaches, 3);
    assert_eq!(record.factor_bps, 14_000);
    assert_eq!(record.escalated_penalty_bps, 1_400);
}

#[test]
fn the_streak_never_runs_past_the_cap() {
    let mut book = BreachBook::new();
    let p = provider("GPROVIDER1");
    for index in 0..(MAX_STRIKES + 3) {
        record_breach(&mut book, &p, 1_000, u64::from(index)).expect("breach");
    }
    assert_eq!(breach_count(&book, &p), MAX_STRIKES);
}

#[test]
fn a_zero_penalty_is_rejected() {
    let mut book = BreachBook::new();
    let p = provider("GPROVIDER1");
    let result = record_breach(&mut book, &p, 0, 10);
    assert_eq!(result.err(), Some(EscalationError::ZeroPenalty));
}

#[test]
fn an_oversized_base_penalty_is_rejected() {
    let mut book = BreachBook::new();
    let p = provider("GPROVIDER1");
    let result = record_breach(&mut book, &p, MAX_PENALTY_BPS + 1, 10);
    assert_eq!(result.err(), Some(EscalationError::PenaltyOutOfRange));
}

#[test]
fn clearing_resets_the_streak() {
    let mut book = BreachBook::new();
    let p = provider("GPROVIDER1");
    record_breach(&mut book, &p, 1_000, 10).expect("breach");
    record_breach(&mut book, &p, 1_000, 20).expect("breach");
    assert_eq!(clear_strikes(&mut book, &p), 2);
    assert_eq!(breach_count(&book, &p), 0);
    let terms = penalty_terms(&book, &p, 1_000);
    assert_eq!(terms.effective_penalty_bps, 1_000);
}

#[test]
fn providers_escalate_independently() {
    let mut book = BreachBook::new();
    let first = provider("GFIRST");
    let second = provider("GSECOND");
    record_breach(&mut book, &first, 1_000, 10).expect("breach");
    record_breach(&mut book, &first, 1_000, 20).expect("breach");
    record_breach(&mut book, &second, 1_000, 30).expect("breach");
    assert_eq!(breach_count(&book, &first), 2);
    assert_eq!(breach_count(&book, &second), 1);
}

#[test]
fn a_breach_publishes_two_events() {
    let mut book = BreachBook::new();
    let p = provider("GPROVIDER1");
    record_breach(&mut book, &p, 1_000, 10).expect("breach");
    assert_eq!(book.events().len(), 2);
    assert!(matches!(book.events()[0], BreachEvent::Strike { breaches: 1, .. }));
    assert!(matches!(book.events()[1], BreachEvent::Factor { factor_bps: 10_000, .. }));
}

#[test]
fn escalation_factor_never_decreases_with_more_breaches() {
    let mut previous = escalation_factor_bps(0);
    for breaches in 1..20u32 {
        let factor = escalation_factor_bps(breaches);
        assert!(factor >= previous);
        assert!(factor <= MAX_FACTOR_BPS);
        previous = factor;
    }
}

#[test]
fn a_refused_breach_leaves_the_book_untouched() {
    let mut book = BreachBook::new();
    let p = provider("GPROVIDER1");
    record_breach(&mut book, &p, 1_000, 10).expect("breach");
    let _ = record_breach(&mut book, &p, 0, 20);
    assert_eq!(breach_count(&book, &p), 1);
    assert_eq!(book.events().len(), 2);
}
