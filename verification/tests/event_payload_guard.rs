use sla_calculator::event_payload_guard::{
    description_bytes, emit_accepted, emit_rejection, fits, inspect, metadata_bytes,
    remaining_budget, total_bytes, validate_description, validate_metadata, validate_payload,
    PayloadError, PayloadEvent, MAX_DESCRIPTION_BYTES, MAX_METADATA_BYTES, MAX_PAYLOAD_BYTES,
};
use sla_calculator::Symbol;

fn text(literal: &str) -> String {
    literal.to_string()
}

fn repeat(literal: &str, times: u32) -> String {
    literal.repeat(times as usize)
}

#[test]
fn a_small_payload_is_accepted() {
    let description = text("gateway timeouts");
    let metadata = text("region=eu-west");
    assert_eq!(validate_payload(&description, &metadata), Ok(30));
}

#[test]
fn an_empty_description_is_rejected() {
    let description = text("");
    let metadata = text("region=eu-west");
    assert_eq!(validate_payload(&description, &metadata), Err(PayloadError::DescriptionEmpty));
}

#[test]
fn an_oversized_description_is_rejected() {
    let description = repeat("a", MAX_DESCRIPTION_BYTES + 1);
    let metadata = text("ok");
    assert_eq!(validate_payload(&description, &metadata), Err(PayloadError::DescriptionTooLarge));
}

#[test]
fn oversized_metadata_is_rejected() {
    let description = text("outage");
    let metadata = repeat("m", MAX_METADATA_BYTES + 1);
    assert_eq!(validate_payload(&description, &metadata), Err(PayloadError::MetadataTooLarge));
}

#[test]
fn the_combined_budget_is_enforced() {
    let description = repeat("a", MAX_DESCRIPTION_BYTES);
    let metadata = repeat("m", MAX_METADATA_BYTES);
    assert_eq!(validate_payload(&description, &metadata), Err(PayloadError::PayloadTooLarge));
}

#[test]
fn a_payload_exactly_on_the_limit_is_accepted() {
    let description = repeat("a", MAX_DESCRIPTION_BYTES);
    let metadata = repeat("m", MAX_PAYLOAD_BYTES - MAX_DESCRIPTION_BYTES);
    let report = inspect(&description, &metadata);
    assert!(report.within_limits);
    assert_eq!(report.total_bytes, MAX_PAYLOAD_BYTES);
    assert_eq!(report.remaining_bytes, 0);
    assert_eq!(validate_payload(&description, &metadata), Ok(MAX_PAYLOAD_BYTES));
}

#[test]
fn the_report_accounts_for_every_field() {
    let description = text("12345");
    let metadata = text("1234567890");
    let report = inspect(&description, &metadata);
    assert_eq!(report.description_bytes, 5);
    assert_eq!(report.metadata_bytes, 10);
    assert_eq!(report.total_bytes, 15);
    assert_eq!(report.remaining_bytes, MAX_PAYLOAD_BYTES - 15);
}

#[test]
fn the_report_flags_a_payload_that_does_not_fit() {
    let description = repeat("a", MAX_PAYLOAD_BYTES + 1);
    let metadata = text("");
    assert!(!fits(&description, &metadata));
}

#[test]
fn a_rejection_event_is_published() {
    let mut events = Vec::new();
    emit_rejection(&mut events, Symbol::new("OUT1"), PayloadError::PayloadTooLarge);
    assert_eq!(events.len(), 1);
    assert!(matches!(events[0], PayloadEvent::Rejected { code: 3, .. }));
}

#[test]
fn an_acceptance_event_is_published() {
    let mut events = Vec::new();
    let description = text("gateway");
    let metadata = text("eu");
    let report = inspect(&description, &metadata);
    emit_accepted(&mut events, Symbol::new("OUT1"), &report);
    assert_eq!(events.len(), 1);
    assert!(matches!(events[0], PayloadEvent::Accepted { total_bytes: 9, .. }));
}

#[test]
fn sizes_count_bytes_not_characters() {
    let description = text("café");
    assert_eq!(description_bytes(&description), 5);
    assert_eq!(metadata_bytes(&text("é")), 2);
    assert_eq!(total_bytes(&description, &text("é")), 7);
    assert_eq!(remaining_budget(&description, &text("é")), MAX_PAYLOAD_BYTES - 7);
    assert_eq!(remaining_budget(&repeat("a", 300), &text("")), 0);
    assert_eq!(validate_description(&text("x")), Ok(1));
    assert_eq!(validate_metadata(&repeat("m", MAX_METADATA_BYTES)), Ok(MAX_METADATA_BYTES));
}
