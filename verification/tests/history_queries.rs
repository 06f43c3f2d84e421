use sla_calculator::event_compression::{
    bits_to_payment, bits_to_rating, bits_to_status, compress_batch, compress_event,
    decompress_batch, decompress_event, estimate_savings, get_compressed_events, payment_to_bits,
    rating_to_bits, severity_to_bits, status_to_bits, store_compressed_events, CompressionState,
};
use sla_calculator::event_index::{
    build_event_index, find_events_by_outage, find_events_by_payment_type, find_events_by_status,
    find_events_in_range, get_event_index, get_index_metadata, invalidate_index, IndexState,
};
use sla_calculator::sla::SLAResult;
use sla_calculator::Symbol;

fn result(outage: &str, status: &str, payment: &str, rating: &str, at: u64) -> SLAResult {
    SLAResult {
        outage_id: Symbol::new(outage),
        status: Symbol::new(status),
        mttr_minutes: 45,
        threshold_minutes: 30,
        amount: -150,
        payment_type: Symbol::new(payment),
        rating: Symbol::new(rating),
        config_version_hash: 0xDEAD_BEEF,
        recorded_at: at,
    }
}

fn history() -> Vec<SLAResult> {
    vec![
        result("OUT1", "viol", "pen", "poor", 100),
        result("OUT2", "met", "rew", "top", 200),
        result("OUT1", "met", "rew", "good", 300),
    ]
}

#[test]
fn the_index_finds_calculations_by_each_field() {
    let mut state = IndexState { history: history(), index: None };
    assert_eq!(find_events_by_outage(&mut state, &Symbol::new("OUT1")).unwrap(), vec![0, 2]);
    assert_eq!(find_events_by_status(&mut state, &Symbol::new("met")).unwrap(), vec![1, 2]);
    assert_eq!(find_events_by_payment_type(&mut state, &Symbol::new("pen")).unwrap(), vec![0]);
    assert_eq!(find_events_in_range(&mut state, 150, 300).unwrap(), vec![1, 2]);
    assert_eq!(get_index_metadata(&mut state).unwrap(), (3, 300));
}

#[test]
fn a_stored_index_is_used_until_invalidated() {
    let mut state = IndexState { history: history(), index: None };
    let built = build_event_index(&mut state).unwrap();
    assert_eq!(built.count, 3);
    assert_eq!(built.entries[2].position, 2);
    state.history.push(result("OUT3", "viol", "pen", "poor", 400));
    assert_eq!(get_event_index(&mut state).unwrap().count, 3);
    assert!(find_events_by_outage(&mut state, &Symbol::new("OUT3")).unwrap().is_empty());
    invalidate_index(&mut state);
    assert_eq!(find_events_by_outage(&mut state, &Symbol::new("OUT3")).unwrap(), vec![3]);
    let mut empty = IndexState { history: vec![], index: None };
    assert_eq!(get_index_metadata(&mut empty).unwrap(), (0, 0));
}

#[test]
fn codes_follow_the_documented_tables() {
    assert_eq!(severity_to_bits(&Symbol::new("critical")), 0);
    assert_eq!(severity_to_bits(&Symbol::new("high")), 1);
    assert_eq!(severity_to_bits(&Symbol::new("medium")), 2);
    assert_eq!(severity_to_bits(&Symbol::new("low")), 3);
    assert_eq!(status_to_bits(&Symbol::new("met")), 0);
    assert_eq!(status_to_bits(&Symbol::new("viol")), 1);
    assert_eq!(rating_to_bits(&Symbol::new("excel")), 1);
    assert_eq!(rating_to_bits(&Symbol::new("whatever")), 3);
    assert_eq!(payment_to_bits(&Symbol::new("rew")), 0);
    assert_eq!(bits_to_status(1).as_str(), "viol");
    assert_eq!(bits_to_payment(0).as_str(), "rew");
    assert_eq!(bits_to_rating(2).as_str(), "good");
    assert_eq!(bits_to_rating(7).as_str(), "poor");
}

#[test]
fn packing_then_unpacking_gives_the_calculation_back() {
    let original = result("OUT1", "viol", "pen", "good", 1_700_000_000);
    let packed = compress_event(&original);
    // status 1 at bit 3, rating 2 at bits 1-2, payment 1 at bit 0.
    assert_eq!(packed.packed_flags, 0b1101);
    assert_eq!(packed.config_hash_lo, 0xDEAD_BEEF);
    let back = decompress_event(&packed);
    assert_eq!(back.outage_id, original.outage_id);
    assert_eq!(back.status, original.status);
    assert_eq!(back.payment_type, original.payment_type);
    assert_eq!(back.rating, original.rating);
    assert_eq!(back.amount, original.amount);
    assert_eq!(back.mttr_minutes, 45);
    assert_eq!(back.recorded_at, 1_700_000_000);
}

#[test]
fn packing_cuts_oversized_fields() {
    let mut big = result("OUT1", "met", "rew", "top", (1u64 << 32) + 5);
    big.config_version_hash = 0x1_0000_0007;
    big.mttr_minutes = 70_000;
    let packed = compress_event(&big);
    assert_eq!(packed.packed_flags, 0);
    assert_eq!(packed.recorded_at, 5);
    assert_eq!(packed.config_hash_lo, 7);
    assert_eq!(packed.mttr_minutes, (70_000u32 % 65_536) as u16);
}

#[test]
fn batches_and_storage_keep_the_order() {
    let packed = compress_batch(&history());
    assert_eq!(packed.len(), 3);
    let mut state = CompressionState { compressed: None };
    assert!(get_compressed_events(&state).is_empty());
    store_compressed_events(&mut state, &packed);
    let stored = get_compressed_events(&state);
    let back = decompress_batch(&stored);
    assert_eq!(back[1].outage_id.as_str(), "OUT2");
    assert_eq!(back[1].status.as_str(), "met");
    assert_eq!(estimate_savings(10), 960);
}
