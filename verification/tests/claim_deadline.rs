use sla_calculator::claim_deadline::{
    claim, claim_state, claim_window, claimable_amount, expire_claim, is_claimable,
    open_claim_window, seconds_remaining, ClaimBook, ClaimError, ClaimEvent, ClaimState,
    MAX_CLAIM_BPS, MAX_WINDOW_S,
};
use sla_calculator::Symbol;

fn claim_id() -> Symbol {
    Symbol::new("CLM1")
}

#[test]
fn an_unknown_claim_is_absent() {
    let book = ClaimBook::new();
    assert_eq!(claim_state(&book, &claim_id(), 1_000), ClaimState::Absent);
    assert!(!is_claimable(&book, &claim_id(), 1_000));
    assert_eq!(seconds_remaining(&book, &claim_id(), 1_000), 0);
}

#[test]
fn opening_a_window_sets_the_deadline() {
    let mut book = ClaimBook::new();
    let deadline = open_claim_window(&mut book, &claim_id(), 1_000, 86_400, 10_000);
    assert_eq!(deadline, Ok(87_400));
    let window = claim_window(&book, &claim_id()).unwrap();
    assert_eq!(window.state, ClaimState::Open);
    assert_eq!(window.opened_at, 1_000);
}

#[test]
fn a_fresh_window_is_claimable() {
    let mut book = ClaimBook::new();
    open_claim_window(&mut book, &claim_id(), 1_000, 86_400, 10_000).expect("opened");
    assert!(is_claimable(&book, &claim_id(), 87_400));
    assert_eq!(seconds_remaining(&book, &claim_id(), 1_000), 86_400);
}

#[test]
fn a_zero_window_is_rejected() {
    let mut book = ClaimBook::new();
    let result = open_claim_window(&mut book, &claim_id(), 1_000, 0, 10_000);
    assert_eq!(result.err(), Some(ClaimError::ZeroWindow));
}

#[test]
fn claim_deadline_an_overlong_window_is_rejected() {
    let mut book = ClaimBook::new();
    let result = open_claim_window(&mut book, &claim_id(), 1_000, MAX_WINDOW_S + 1, 10_000);
    assert_eq!(result.err(), Some(ClaimError::WindowTooLong));
}

#[test]
fn an_out_of_range_ratio_is_rejected() {
    let mut book = ClaimBook::new();
    let result = open_claim_window(&mut book, &claim_id(), 1_000, 86_400, MAX_CLAIM_BPS + 1);
    assert_eq!(result.err(), Some(ClaimError::BpsOutOfRange));
}

#[test]
fn reopening_an_open_window_is_rejected() {
    let mut book = ClaimBook::new();
    open_claim_window(&mut book, &claim_id(), 1_000, 86_400, 10_000).expect("opened");
    let result = open_claim_window(&mut book, &claim_id(), 2_000, 86_400, 10_000);
    assert_eq!(result.err(), Some(ClaimError::AlreadyOpen));
}

#[test]
fn a_claim_within_the_deadline_succeeds() {
    let mut book = ClaimBook::new();
    open_claim_window(&mut book, &claim_id(), 1_000, 86_400, 10_000).expect("opened");
    let entry = claim(&mut book, &claim_id(), 5_000_000, 50_000).expect("payout");
    assert_eq!(entry.amount, 5_000_000);
    assert_eq!(entry.claimed_at, 50_000);
}

#[test]
fn a_claim_after_the_deadline_is_refused() {
    let mut book = ClaimBook::new();
    open_claim_window(&mut book, &claim_id(), 1_000, 86_400, 10_000).expect("opened");
    let result = claim(&mut book, &claim_id(), 5_000_000, 87_401);
    assert_eq!(result.err(), Some(ClaimError::AlreadyExpired));
}

#[test]
fn the_deadline_instant_is_still_claimable() {
    let mut book = ClaimBook::new();
    open_claim_window(&mut book, &claim_id(), 1_000, 86_400, 10_000).expect("opened");
    let result = claim(&mut book, &claim_id(), 1_000, 87_400);
    assert!(result.is_ok());
}

#[test]
fn claiming_twice_is_refused() {
    let mut book = ClaimBook::new();
    open_claim_window(&mut book, &claim_id(), 1_000, 86_400, 10_000).expect("opened");
    claim(&mut book, &claim_id(), 5_000_000, 2_000).expect("claimed");
    let result = claim(&mut book, &claim_id(), 5_000_000, 3_000);
    assert_eq!(result.err(), Some(ClaimError::AlreadyClaimed));
}

#[test]
fn a_partial_ratio_is_honoured() {
    let mut book = ClaimBook::new();
    open_claim_window(&mut book, &claim_id(), 1_000, 86_400, 5_000).expect("opened");
    let payout = claim(&mut book, &claim_id(), 1_000_000, 2_000).expect("claimed");
    assert_eq!(payout.amount, 500_000);
}

#[test]
fn a_tiny_claim_still_yields_one_unit() {
    let mut book = ClaimBook::new();
    open_claim_window(&mut book, &claim_id(), 1_000, 86_400, 1).expect("opened");
    let payout = claim(&mut book, &claim_id(), 100, 2_000).expect("claimed");
    assert_eq!(payout.amount, 1);
}

#[test]
fn a_zero_claim_is_refused() {
    let mut book = ClaimBook::new();
    open_claim_window(&mut book, &claim_id(), 1_000, 86_400, 10_000).expect("opened");
    let result = claim(&mut book, &claim_id(), 0, 2_000);
    assert_eq!(result.err(), Some(ClaimError::ZeroAmount));
}

#[test]
fn a_negative_claim_is_refused() {
    let mut book = ClaimBook::new();
    open_claim_window(&mut book, &claim_id(), 1_000, 86_400, 10_000).expect("opened");
    let result = claim(&mut book, &claim_id(), -1, 2_000);
    assert_eq!(result.err(), Some(ClaimError::NegativeAmount));
}

#[test]
fn expiring_reports_the_overrun() {
    let mut book = ClaimBook::new();
    open_claim_window(&mut book, &claim_id(), 1_000, 86_400, 10_000).expect("opened");
    let overrun = expire_claim(&mut book, &claim_id(), 90_000);
    assert_eq!(overrun, Ok(2_600));
}

#[test]
fn expiring_early_is_refused() {
    let mut book = ClaimBook::new();
    open_claim_window(&mut book, &claim_id(), 1_000, 86_400, 10_000).expect("opened");
    let result = expire_claim(&mut book, &claim_id(), 2_000);
    assert_eq!(result.err(), Some(ClaimError::NotOpen));
}

#[test]
fn expiring_twice_is_refused() {
    let mut book = ClaimBook::new();
    open_claim_window(&mut book, &claim_id(), 1_000, 86_400, 10_000).expect("opened");
    expire_claim(&mut book, &claim_id(), 90_000).expect("expired");
    let result = expire_claim(&mut book, &claim_id(), 95_000);
    assert_eq!(result.err(), Some(ClaimError::AlreadyExpired));
}

#[test]
fn a_claimed_window_cannot_expire() {
    let mut book = ClaimBook::new();
    open_claim_window(&mut book, &claim_id(), 1_000, 86_400, 10_000).expect("opened");
    claim(&mut book, &claim_id(), 1_000, 2_000).expect("claimed");
    let result = expire_claim(&mut book, &claim_id(), 90_000);
    assert_eq!(result.err(), Some(ClaimError::AlreadyClaimed));
}

#[test]
fn an_expired_window_can_be_reopened() {
    let mut book = ClaimBook::new();
    open_claim_window(&mut book, &claim_id(), 1_000, 86_400, 10_000).expect("opened");
    expire_claim(&mut book, &claim_id(), 90_000).expect("expired");
    let deadline = open_claim_window(&mut book, &claim_id(), 90_000, 86_400, 10_000);
    assert_eq!(deadline, Ok(176_400));
}

#[test]
fn the_remaining_time_counts_down_to_zero() {
    let mut book = ClaimBook::new();
    open_claim_window(&mut book, &claim_id(), 1_000, 10_000, 10_000).expect("opened");
    assert_eq!(seconds_remaining(&book, &claim_id(), 5_500), 5_500);
    assert_eq!(seconds_remaining(&book, &claim_id(), 11_000), 0);
}

#[test]
fn a_claim_publishes_an_event() {
    let mut book = ClaimBook::new();
    open_claim_window(&mut book, &claim_id(), 1_000, 86_400, 10_000).expect("opened");
    let before = book.events().len();
    claim(&mut book, &claim_id(), 1_000, 2_000).expect("claimed");
    assert_eq!(book.events().len(), before + 1);
    assert!(matches!(book.events()[before], ClaimEvent::Claimed { amount: 1_000, .. }));
}

#[test]
fn a_double_ratio_pays_twice_the_gross() {
    let mut book = ClaimBook::new();
    open_claim_window(&mut book, &claim_id(), 0, 100, MAX_CLAIM_BPS).expect("opened");
    assert_eq!(claimable_amount(&book, &claim_id(), 12_345, 50), Ok(24_690));
    assert_eq!(claimable_amount(&book, &Symbol::new("none"), 12_345, 50), Err(ClaimError::AlreadyExpired));
    assert_eq!(claim_state(&book, &claim_id(), 101), ClaimState::Expired);
}
