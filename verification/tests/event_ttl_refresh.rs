use sla_calculator::event_ttl_refresh::{
    needs_refresh, refresh_many, refresh_outage_index_ttl, TtlStore, TTL_EXTEND_TO_LEDGERS,
    TTL_THRESHOLD_LEDGERS,
};
use sla_calculator::Symbol;

/// Lifetime a freshly written persistent entry starts with.
const FRESH_TTL: u32 = 4_095;

fn seed(store: &mut TtlStore, key: &Symbol) {
    store.put(key, FRESH_TTL);
}

#[test]
fn an_entry_below_the_threshold_is_refreshed() {
    let mut store = TtlStore::new();
    let key = Symbol::new("OUT1");
    seed(&mut store, &key);
    let before = store.get_ttl(&key).unwrap();
    assert!(needs_refresh(before));
    assert!(refresh_outage_index_ttl(&mut store, &key));
    let after = store.get_ttl(&key).unwrap();
    assert!(after >= TTL_EXTEND_TO_LEDGERS);
}

#[test]
fn a_comfortable_entry_is_left_untouched() {
    let mut store = TtlStore::new();
    let key = Symbol::new("OUT1");
    seed(&mut store, &key);
    store.extend_ttl(&key, TTL_EXTEND_TO_LEDGERS, TTL_EXTEND_TO_LEDGERS * 2);
    let before = store.get_ttl(&key).unwrap();
    assert!(!needs_refresh(before));
    refresh_outage_index_ttl(&mut store, &key);
    assert_eq!(store.get_ttl(&key).unwrap(), before);
}

#[test]
fn an_entry_aging_past_the_threshold_is_caught() {
    let mut store = TtlStore::new();
    let key = Symbol::new("OUT1");
    seed(&mut store, &key);
    store.extend_ttl(&key, 50_000, TTL_THRESHOLD_LEDGERS + 1_000);
    let before = store.get_ttl(&key).unwrap();
    assert!(!needs_refresh(before));
    store.advance_ledgers(2_000);
    assert!(needs_refresh(store.get_ttl(&key).unwrap()));
    assert!(refresh_outage_index_ttl(&mut store, &key));
    assert!(store.get_ttl(&key).unwrap() >= TTL_EXTEND_TO_LEDGERS);
}

#[test]
fn a_missing_entry_is_not_refreshed() {
    let mut store = TtlStore::new();
    let absent = Symbol::new("OUT404");
    assert!(!refresh_outage_index_ttl(&mut store, &absent));
    assert!(store.get_ttl(&absent).is_none());
}

#[test]
fn the_threshold_helper_matches_the_bump_size() {
    assert!(needs_refresh(0));
    assert!(needs_refresh(TTL_THRESHOLD_LEDGERS - 1));
    assert!(!needs_refresh(TTL_THRESHOLD_LEDGERS));
}

#[test]
fn a_batch_reports_how_many_entries_were_refreshed() {
    let mut store = TtlStore::new();
    let present = Symbol::new("OUT1");
    let absent = Symbol::new("OUT2");
    seed(&mut store, &present);
    let keys = vec![present.clone(), absent];
    assert_eq!(refresh_many(&mut store, &keys), 1);
    assert_eq!(store.get_ttl(&present), Some(TTL_EXTEND_TO_LEDGERS));
}

#[test]
fn refreshing_twice_is_harmless() {
    let mut store = TtlStore::new();
    let key = Symbol::new("OUT1");
    seed(&mut store, &key);
    assert!(refresh_outage_index_ttl(&mut store, &key));
    assert!(refresh_outage_index_ttl(&mut store, &key));
    assert_eq!(store.get_ttl(&key), Some(TTL_EXTEND_TO_LEDGERS));
}
