use sla_calculator::force_majeure::{
    apply_penalty_bps, close_force_majeure, excused_seconds, is_excused, is_open, record,
    record_force_majeure, set_governance, EventKind, ForceMajeureError, ForceMajeureEvent,
    ForceMajeureState, MAX_EXCUSE_S, MAX_RESIDUAL_BPS,
};
use sla_calculator::{Account, Symbol};

fn reason() -> Symbol {
    Symbol::new("quake")
}

fn governed() -> (ForceMajeureState, Account) {
    let mut state = ForceMajeureState::new();
    let admin = Account::new("CGOV");
    set_governance(&mut state, &admin);
    (state, admin)
}

fn outage() -> Symbol {
    Symbol::new("OUT1")
}

#[test]
fn a_full_outage_is_penalty_free_inside_the_window() {
    let (mut state, admin) = governed();
    record_force_majeure(&mut state, &admin, &outage(), EventKind::Outage, 1_000, 5_000, reason(), 0)
        .expect("recorded");
    assert!(is_excused(&state, &outage(), 3_000));
    assert_eq!(apply_penalty_bps(&state, &outage(), 5_000, 3_000), 0);
}

#[test]
fn the_penalty_applies_again_after_the_window() {
    let (mut state, admin) = governed();
    record_force_majeure(&mut state, &admin, &outage(), EventKind::Outage, 1_000, 5_000, reason(), 0)
        .expect("recorded");
    assert!(!is_excused(&state, &outage(), 5_001));
    assert_eq!(apply_penalty_bps(&state, &outage(), 5_000, 5_001), 5_000);
}

#[test]
fn the_penalty_applies_before_the_event_starts() {
    let (mut state, admin) = governed();
    record_force_majeure(&mut state, &admin, &outage(), EventKind::Outage, 1_000, 5_000, reason(), 0)
        .expect("recorded");
    assert_eq!(apply_penalty_bps(&state, &outage(), 5_000, 999), 5_000);
}

#[test]
fn a_degraded_event_keeps_its_residual_penalty() {
    let (mut state, admin) = governed();
    let entry = record_force_majeure(
        &mut state,
        &admin,
        &outage(),
        EventKind::Degraded,
        1_000,
        2_000,
        reason(),
        500,
    )
    .expect("recorded");
    assert_eq!(entry.residual_penalty_bps, 500);
}

#[test]
fn a_stranger_cannot_approve_an_excuse() {
    let (mut state, _) = governed();
    let stranger = Account::new("CSTRANGER");
    let result = record_force_majeure(
        &mut state,
        &stranger,
        &outage(),
        EventKind::Outage,
        1_000,
        2_000,
        reason(),
        0,
    );
    assert_eq!(result.err(), Some(ForceMajeureError::NotGovernance));
}

#[test]
fn an_unset_governance_blocks_everyone() {
    let mut state = ForceMajeureState::new();
    let admin = Account::new("CGOV");
    let result =
        record_force_majeure(&mut state, &admin, &outage(), EventKind::Outage, 1_000, 2_000, reason(), 0);
    assert_eq!(result.err(), Some(ForceMajeureError::NotGovernance));
}

#[test]
fn force_majeure_an_overlong_window_is_rejected() {
    let (mut state, admin) = governed();
    let result = record_force_majeure(
        &mut state,
        &admin,
        &outage(),
        EventKind::Outage,
        1_000,
        1_000 + MAX_EXCUSE_S + 1,
        reason(),
        0,
    );
    assert_eq!(result.err(), Some(ForceMajeureError::WindowTooLong));
}

#[test]
fn an_empty_window_is_rejected() {
    let (mut state, admin) = governed();
    let result =
        record_force_majeure(&mut state, &admin, &outage(), EventKind::Outage, 1_000, 1_000, reason(), 0);
    assert_eq!(result.err(), Some(ForceMajeureError::WindowTooShort));
}

#[test]
fn an_oversized_residual_penalty_is_rejected() {
    let (mut state, admin) = governed();
    let result = record_force_majeure(
        &mut state,
        &admin,
        &outage(),
        EventKind::Degraded,
        1_000,
        2_000,
        reason(),
        MAX_RESIDUAL_BPS + 1,
    );
    assert_eq!(result.err(), Some(ForceMajeureError::EventTooLarge));
}

#[test]
fn a_duplicate_record_is_rejected() {
    let (mut state, admin) = governed();
    record_force_majeure(&mut state, &admin, &outage(), EventKind::Outage, 1_000, 2_000, reason(), 0)
        .expect("recorded");
    let result =
        record_force_majeure(&mut state, &admin, &outage(), EventKind::Outage, 1_000, 2_000, reason(), 0);
    assert_eq!(result.err(), Some(ForceMajeureError::AlreadyRecorded));
}

#[test]
fn closing_after_the_window_succeeds() {
    let (mut state, admin) = governed();
    record_force_majeure(&mut state, &admin, &outage(), EventKind::Outage, 1_000, 5_000, reason(), 0)
        .expect("recorded");
    let closure = close_force_majeure(&mut state, &admin, &outage(), 6_000);
    assert_eq!(closure, Ok(5_000));
    assert!(!is_open(&state, &outage()));
    assert_eq!(record(&state, &outage()).unwrap().closed_at, 6_000);
}

#[test]
fn closing_while_the_event_is_running_is_rejected() {
    let (mut state, admin) = governed();
    record_force_majeure(&mut state, &admin, &outage(), EventKind::Outage, 1_000, 5_000, reason(), 0)
        .expect("recorded");
    let result = close_force_majeure(&mut state, &admin, &outage(), 4_000);
    assert_eq!(result.err(), Some(ForceMajeureError::StillRunning));
}

#[test]
fn closing_an_unrecorded_event_is_rejected() {
    let (mut state, admin) = governed();
    let result = close_force_majeure(&mut state, &admin, &outage(), 6_000);
    assert_eq!(result.err(), Some(ForceMajeureError::NotRecorded));
}

#[test]
fn a_closed_record_cannot_be_closed_again() {
    let (mut state, admin) = governed();
    record_force_majeure(&mut state, &admin, &outage(), EventKind::Outage, 1_000, 5_000, reason(), 0)
        .expect("recorded");
    close_force_majeure(&mut state, &admin, &outage(), 6_000).expect("closed");
    let result = close_force_majeure(&mut state, &admin, &outage(), 7_000);
    assert_eq!(result.err(), Some(ForceMajeureError::AlreadyClosed));
}

#[test]
fn the_excused_window_never_exceeds_the_grant() {
    let (mut state, admin) = governed();
    record_force_majeure(&mut state, &admin, &outage(), EventKind::Outage, 1_000, 5_000, reason(), 0)
        .expect("recorded");
    assert_eq!(excused_seconds(&state, &outage(), 99_999), 4_000);
    assert_eq!(excused_seconds(&state, &outage(), 2_500), 1_500);
    assert_eq!(excused_seconds(&state, &outage(), 1_000), 0);
}

#[test]
fn an_unrecorded_event_exempts_nothing() {
    let state = ForceMajeureState::new();
    let outage = Symbol::new("OUT404");
    assert!(!is_excused(&state, &outage, 1_000));
    assert_eq!(excused_seconds(&state, &outage, 9_999), 0);
    assert_eq!(apply_penalty_bps(&state, &outage, 5_000, 1_000), 5_000);
}

#[test]
fn a_partial_event_with_a_residual_penalty_needs_a_reason() {
    let (mut state, admin) = governed();
    let result = record_force_majeure(
        &mut state,
        &admin,
        &outage(),
        EventKind::Maintenance,
        1_000,
        2_000,
        Symbol::new(""),
        100,
    );
    assert_eq!(result.err(), Some(ForceMajeureError::ReasonTooShort));
    // A closed record may be recorded again; closing publishes two events.
    record_force_majeure(&mut state, &admin, &outage(), EventKind::Outage, 1_000, 2_000, reason(), 0)
        .unwrap();
    close_force_majeure(&mut state, &admin, &outage(), 2_000).unwrap();
    assert!(record_force_majeure(&mut state, &admin, &outage(), EventKind::Outage, 3_000, 4_000, reason(), 0)
        .is_ok());
    assert_eq!(state.events().len(), 4);
    assert!(matches!(state.events()[2], ForceMajeureEvent::Closed { at: 2_000, .. }));
}
