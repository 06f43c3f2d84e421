use sla_calculator::dependency_propagation::{
    children_of, clear_outage, is_auto_degraded, manual_status, parent_of, propagate_outage,
    register_dependency, report_status, site_status, would_create_cycle, DependencyError,
    DependencyState, STATUS_DEGRADED, STATUS_DOWN, STATUS_OPERATIONAL,
};
use sla_calculator::Symbol;

fn site(text: &str) -> Symbol {
    Symbol::new(text)
}

#[test]
fn a_site_cannot_depend_on_itself() {
    let mut state = DependencyState::new();
    let result = register_dependency(&mut state, &site("core"), &site("core"));
    assert_eq!(result, Err(DependencyError::SelfDependency));
}

#[test]
fn a_dependency_cycle_is_rejected() {
    let mut state = DependencyState::new();
    register_dependency(&mut state, &site("core"), &site("edge")).expect("core to edge");
    let result = register_dependency(&mut state, &site("edge"), &site("core"));
    assert_eq!(result, Err(DependencyError::CycleDetected));
}

#[test]
fn registering_stores_both_directions() {
    let mut state = DependencyState::new();
    register_dependency(&mut state, &site("core"), &site("edge")).expect("registered");
    assert_eq!(parent_of(&state, &site("edge")), Some(site("core")));
    assert_eq!(children_of(&state, &site("core")).len(), 1);
}

#[test]
fn a_parent_outage_degrades_its_children() {
    let mut state = DependencyState::new();
    register_dependency(&mut state, &site("core"), &site("edge")).expect("registered");
    assert_eq!(propagate_outage(&mut state, &site("core")), 1);
    assert_eq!(site_status(&state, &site("edge")), STATUS_DEGRADED);
    assert!(is_auto_degraded(&state, &site("edge")));
}

#[test]
fn closing_the_parent_outage_clears_the_flag() {
    let mut state = DependencyState::new();
    register_dependency(&mut state, &site("core"), &site("edge")).expect("registered");
    propagate_outage(&mut state, &site("core"));
    assert_eq!(clear_outage(&mut state, &site("core")), 1);
    assert_eq!(site_status(&state, &site("edge")), STATUS_OPERATIONAL);
    assert!(!is_auto_degraded(&state, &site("edge")));
}

#[test]
fn a_child_outage_degrades_the_whole_subtree() {
    let mut state = DependencyState::new();
    register_dependency(&mut state, &site("core"), &site("edge")).expect("core to edge");
    register_dependency(&mut state, &site("edge"), &site("leaf")).expect("edge to leaf");
    propagate_outage(&mut state, &site("core"));
    propagate_outage(&mut state, &site("edge"));
    assert_eq!(site_status(&state, &site("edge")), STATUS_DEGRADED);
    assert_eq!(site_status(&state, &site("leaf")), STATUS_DEGRADED);
}

#[test]
fn a_manual_outage_is_never_overwritten() {
    let mut state = DependencyState::new();
    register_dependency(&mut state, &site("core"), &site("edge")).expect("registered");
    report_status(&mut state, &site("edge"), STATUS_DOWN);
    propagate_outage(&mut state, &site("core"));
    assert_eq!(site_status(&state, &site("edge")), STATUS_DOWN);
}

#[test]
fn clearing_leaves_a_manual_outage_alone() {
    let mut state = DependencyState::new();
    register_dependency(&mut state, &site("core"), &site("edge")).expect("registered");
    report_status(&mut state, &site("edge"), STATUS_DOWN);
    propagate_outage(&mut state, &site("core"));
    clear_outage(&mut state, &site("core"));
    assert_eq!(site_status(&state, &site("edge")), STATUS_DOWN);
}

#[test]
fn an_unregistered_site_stays_operational() {
    let state = DependencyState::new();
    assert_eq!(site_status(&state, &site("lonely")), STATUS_OPERATIONAL);
    assert!(!is_auto_degraded(&state, &site("lonely")));
    assert_eq!(manual_status(&state, &site("lonely")), STATUS_OPERATIONAL);
}

#[test]
fn a_site_with_several_children_flags_each_of_them() {
    let mut state = DependencyState::new();
    register_dependency(&mut state, &site("core"), &site("edge_a")).expect("a");
    register_dependency(&mut state, &site("core"), &site("edge_b")).expect("b");
    assert_eq!(propagate_outage(&mut state, &site("core")), 2);
}

#[test]
fn a_longer_cycle_is_caught_and_relinking_is_allowed() {
    let mut state = DependencyState::new();
    register_dependency(&mut state, &site("a"), &site("b")).unwrap();
    register_dependency(&mut state, &site("b"), &site("c")).unwrap();
    assert!(would_create_cycle(&state, &site("c"), &site("a")));
    assert_eq!(
        register_dependency(&mut state, &site("c"), &site("a")),
        Err(DependencyError::CycleDetected)
    );
    // Moving c under a new parent is fine.
    register_dependency(&mut state, &site("x"), &site("c")).unwrap();
    assert_eq!(parent_of(&state, &site("c")), Some(site("x")));
    assert_eq!(state.events().len(), 3);
}
