use sla_calculator::outage_correlation_tag::{
    aggregate_root_downtime, children_of, group_by_root, load_tag, resolve_root, tag_outage,
    would_create_cycle, CorrelationError, CorrelationState, OutageTag,
};
use sla_calculator::Symbol;

fn id(text: &str) -> Symbol {
    Symbol::new(text)
}

fn tag(outage: &str, parent: Option<&str>, downtime: u64) -> OutageTag {
    OutageTag { outage_id: id(outage), parent_outage_id: parent.map(id), downtime_seconds: downtime }
}

#[test]
fn a_root_outage_has_no_children() {
    let mut state = CorrelationState::new();
    tag_outage(&mut state, tag("OUT1", None, 600)).expect("root outage");
    assert_eq!(children_of(&state, &id("OUT1")).len(), 0);
}

#[test]
fn a_self_parent_is_rejected() {
    let mut state = CorrelationState::new();
    let result = tag_outage(&mut state, tag("OUT1", Some("OUT1"), 10));
    assert_eq!(result, Err(CorrelationError::SelfParent));
}

#[test]
fn a_child_resolves_to_its_parent_root() {
    let mut state = CorrelationState::new();
    let resolved = tag_outage(&mut state, tag("OUT2", Some("OUT1"), 120)).expect("child outage");
    assert_eq!(resolved, id("OUT1"));
    let stored = load_tag(&state, &id("OUT2")).expect("stored tag");
    assert_eq!(stored.parent_outage_id, Some(id("OUT1")));
    assert_eq!(children_of(&state, &id("OUT1")).len(), 1);
}

#[test]
fn cascading_failures_group_under_one_root() {
    let mut state = CorrelationState::new();
    tag_outage(&mut state, tag("OUT1", None, 600)).expect("root");
    tag_outage(&mut state, tag("OUT2", Some("OUT1"), 300)).expect("child a");
    tag_outage(&mut state, tag("OUT3", Some("OUT1"), 100)).expect("child b");
    let groups = group_by_root(&state);
    assert_eq!(groups.len(), 1);
    assert_eq!(groups.get(&"OUT1".to_string()).expect("root group").len(), 3);
}

#[test]
fn child_downtime_folds_into_the_root_duration() {
    let mut state = CorrelationState::new();
    tag_outage(&mut state, tag("OUT1", None, 600)).expect("root");
    tag_outage(&mut state, tag("OUT2", Some("OUT1"), 250)).expect("child");
    assert_eq!(aggregate_root_downtime(&state, &id("OUT1")), 850);
}

#[test]
fn a_nested_chain_resolves_to_the_original_root() {
    let mut state = CorrelationState::new();
    tag_outage(&mut state, tag("OUT2", Some("OUT1"), 10)).expect("child");
    let resolved = tag_outage(&mut state, tag("OUT3", Some("OUT2"), 5)).expect("grandchild");
    assert_eq!(resolved, id("OUT1"));
}

#[test]
fn a_cycle_is_rejected() {
    let mut state = CorrelationState::new();
    tag_outage(&mut state, tag("OUT2", Some("OUT1"), 10)).expect("child");
    let result = tag_outage(&mut state, tag("OUT1", Some("OUT2"), 10));
    assert_eq!(result, Err(CorrelationError::CycleDetected));
}

#[test]
fn re_tagging_the_same_outage_does_not_duplicate_children() {
    let mut state = CorrelationState::new();
    for _ in 0..2 {
        tag_outage(&mut state, tag("OUT2", Some("OUT1"), 60)).expect("child");
    }
    assert_eq!(children_of(&state, &id("OUT1")).len(), 1);
}

#[test]
fn an_unknown_outage_has_no_tag() {
    let state = CorrelationState::new();
    assert!(load_tag(&state, &id("OUT404")).is_none());
}

#[test]
fn roots_are_resolved_through_long_chains_and_groups_split_by_root() {
    let mut state = CorrelationState::new();
    tag_outage(&mut state, tag("A", None, 1)).unwrap();
    tag_outage(&mut state, tag("B", Some("A"), 2)).unwrap();
    tag_outage(&mut state, tag("C", Some("B"), 3)).unwrap();
    tag_outage(&mut state, tag("X", None, 40)).unwrap();
    assert_eq!(resolve_root(&state, &id("C")), id("A"));
    assert_eq!(resolve_root(&state, &id("unknown")), id("unknown"));
    assert!(would_create_cycle(&state, &id("A"), &id("C")));
    assert!(!would_create_cycle(&state, &id("C"), &id("X")));
    let groups = group_by_root(&state);
    assert_eq!(groups.len(), 2);
    assert_eq!(groups.get(&"X".to_string()).unwrap().len(), 1);
    assert_eq!(aggregate_root_downtime(&state, &id("A")), 6);
    assert_eq!(aggregate_root_downtime(&state, &id("nothing")), 0);
}

#[test]
fn group_members_come_in_the_host_order_of_ids() {
    let mut state = CorrelationState::new();
    tag_outage(&mut state, tag("ROOT", None, 1)).unwrap();
    tag_outage(&mut state, tag("Z9", Some("ROOT"), 1)).unwrap();
    tag_outage(&mut state, tag("A1", Some("ROOT"), 1)).unwrap();
    let groups = group_by_root(&state);
    let members: Vec<&str> =
        groups.get(&"ROOT".to_string()).unwrap().iter().map(|s| s.as_str()).collect();
    assert_eq!(members, vec!["A1", "ROOT", "Z9"]);
}
