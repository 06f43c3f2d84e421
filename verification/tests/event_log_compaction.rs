use sla_calculator::event_log_compaction::{
    byte_reduction, compact, compact_outage, evict_details, load_detailed, load_summary,
    store_detailed, summary_bytes, verbose_bytes, CompactionEvent, CompactionStore,
    DetailedOutageRecord,
};
use sla_calculator::Symbol;

fn record(description: &str) -> DetailedOutageRecord {
    DetailedOutageRecord {
        outage_id: Symbol::new("OUT1"),
        start_timestamp: 1_000,
        end_timestamp: 4_600,
        severity: 3,
        description: description.to_string(),
        metadata: "region=eu-west".to_string(),
    }
}

#[test]
fn compaction_preserves_the_audit_trail() {
    let detailed = record("gateway timeouts");
    let summary = compact(&detailed);
    assert_eq!(summary.outage_id, detailed.outage_id);
    assert_eq!(summary.start_timestamp, 1_000);
    assert_eq!(summary.end_timestamp, 4_600);
    assert_eq!(summary.severity, 3);
}

#[test]
fn a_summary_fits_the_thirty_two_byte_budget() {
    assert_eq!(summary_bytes(), 32);
}

#[test]
fn compaction_reduces_storage_bytes() {
    let detailed =
        record("gateway timeouts across the eu-west ingress tier requiring a rolling restart");
    let before = verbose_bytes(&detailed);
    assert!(before > summary_bytes());
    assert_eq!(byte_reduction(&detailed), before - summary_bytes());
}

#[test]
fn savings_grow_with_the_verbose_metadata() {
    let short = record("brief");
    let long = record("a considerably longer description of the same outage");
    assert!(byte_reduction(&long) > byte_reduction(&short));
}

#[test]
fn verbose_size_accounts_for_both_strings() {
    let detailed = record("12345");
    let expected = 4 + 8 + 8 + 4 + 4 + 5 + 4 + detailed.metadata.len() as u32;
    assert_eq!(verbose_bytes(&detailed), expected);
}

#[test]
fn a_stored_summary_can_be_read_back() {
    let mut store = CompactionStore::new();
    let detailed = record("gateway timeouts");
    let summary = compact_outage(&mut store, &detailed);
    let stored = load_summary(&store, &detailed.outage_id).expect("summary stored");
    assert_eq!(stored, summary);
    assert!(matches!(store.events()[0], CompactionEvent::Compacted { bytes: 32, .. }));
}

#[test]
fn compaction_evicts_the_verbose_record() {
    let mut store = CompactionStore::new();
    let detailed = record("gateway timeouts");
    store_detailed(&mut store, &detailed);
    assert!(load_detailed(&store, &detailed.outage_id).is_some());
    compact_outage(&mut store, &detailed);
    assert!(load_detailed(&store, &detailed.outage_id).is_none());
    assert!(load_summary(&store, &detailed.outage_id).is_some());
}

#[test]
fn evicting_a_missing_record_is_harmless() {
    let mut store = CompactionStore::new();
    let evicted = evict_details(&mut store, &Symbol::new("OUT9"));
    assert!(!evicted);
}

#[test]
fn a_tiny_record_saves_nothing() {
    let mut tiny = record("");
    tiny.metadata = String::new();
    assert_eq!(verbose_bytes(&tiny), 32);
    assert_eq!(byte_reduction(&tiny), 0);
}
