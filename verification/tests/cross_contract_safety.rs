use sla_calculator::cross_contract_safety::{
    add_authorized_caller, comp_reverse_settle, comp_unlock_funds, comp_unpause_escrow,
    fn_cancel_settlement, fn_lock_funds, fn_release_payment, initialize_admin,
    is_authorized_caller, remove_authorized_caller, require_authorized_caller, requires_rollback,
    safe_invoke_contract, safe_invoke_result, CallerRegistry, CompensationAction, CrossContractCallStatus,
    CrossContractSafety, CrossContractSafetyError,
};
use sla_calculator::{Account, Symbol};
use soroban_sdk::{Env, Vec};

#[test]
fn test_safe_invoke_unknown_contract_returns_fatal_error() {
    let env = Env::default();
    let unknown = [7u8; 32];
    let result = safe_invoke_contract(&env, &unknown, &Symbol::new("ping"), Vec::new(&env));
    assert_eq!(result.status, CrossContractCallStatus::FatalError);
    assert!(result.error_symbol.is_some());
    assert_eq!(result.error_symbol.unwrap().as_str(), "CROSS_CONTRACT_FAILURE");
}

#[test]
fn a_failed_invocation_is_reported_as_fatal() {
    let result = safe_invoke_result(false);
    assert_eq!(result.status, CrossContractCallStatus::FatalError);
    assert_eq!(result.error_symbol.unwrap().as_str(), "CROSS_CONTRACT_FAILURE");
    let ok = safe_invoke_result(true);
    assert_eq!(ok.status, CrossContractCallStatus::Success);
    assert!(ok.error_symbol.is_none());
}

#[test]
fn test_requires_rollback_for_fatal() {
    assert!(requires_rollback(CrossContractCallStatus::FatalError));
    assert!(requires_rollback(CrossContractCallStatus::DispatchFailed));
    assert!(!requires_rollback(CrossContractCallStatus::Success));
    assert!(!requires_rollback(CrossContractCallStatus::RecoverableError));
}

#[test]
fn test_safety_tracker_starts_empty() {
    let safety = CrossContractSafety::new();
    assert_eq!(safety.depth(), 0);
    assert!(!safety.has_pending());
}

#[test]
fn test_safety_tracker_registers_compensation_on_push() {
    let mut safety = CrossContractSafety::new();
    safety
        .compensation_stack
        .push(CompensationAction { tag: comp_unlock_funds(), fn_name: fn_lock_funds() });
    assert_eq!(safety.depth(), 1);
    assert!(safety.has_pending());
}

#[test]
fn test_safe_call_to_unknown_address_returns_err() {
    let env = Env::default();
    let mut safety = CrossContractSafety::new();
    let unknown = [9u8; 32];
    let result =
        safety.call(&env, &unknown, &Symbol::new("ping"), Vec::new(&env), comp_unlock_funds());
    assert!(result.is_err());
    assert_eq!(result.err().unwrap().status, CrossContractCallStatus::FatalError);
    assert_eq!(safety.depth(), 0);
}

#[test]
fn a_successful_call_registers_its_compensation() {
    let mut safety = CrossContractSafety::new();
    let result =
        safety.record_outcome(safe_invoke_result(true), &fn_lock_funds(), comp_unlock_funds());
    assert!(result.is_ok());
    assert_eq!(safety.depth(), 1);
    assert!(safety.compensation_stack[0].tag == comp_unlock_funds());
    assert!(safety.compensation_stack[0].fn_name == fn_lock_funds());
}

#[test]
fn test_status_variants_are_distinct() {
    let variants = [
        CrossContractCallStatus::Success.code(),
        CrossContractCallStatus::RecoverableError.code(),
        CrossContractCallStatus::FatalError.code(),
        CrossContractCallStatus::DispatchFailed.code(),
        CrossContractCallStatus::Compensated.code(),
    ];
    for i in 0..variants.len() {
        for j in (i + 1)..variants.len() {
            assert_ne!(variants[i], variants[j]);
        }
    }
}

#[test]
fn test_compensation_symbols_are_distinct() {
    let tags = [comp_unlock_funds(), comp_reverse_settle(), comp_unpause_escrow()];
    for i in 0..tags.len() {
        for j in (i + 1)..tags.len() {
            assert!(tags[i] != tags[j]);
        }
    }
}

#[test]
fn test_fn_symbols_are_distinct() {
    let fns = [fn_lock_funds(), fn_release_payment(), fn_cancel_settlement()];
    for i in 0..fns.len() {
        for j in (i + 1)..fns.len() {
            assert!(fns[i] != fns[j]);
        }
    }
}

#[test]
fn test_unregistered_caller_is_rejected() {
    let mut registry = CallerRegistry::new();
    let admin = Account::new("GADMIN");
    initialize_admin(&mut registry, &admin).unwrap();
    let stranger = Account::new("CSTRANGER");
    let result = require_authorized_caller(&registry, &stranger);
    assert_eq!(result, Err(CrossContractSafetyError::UnauthorizedCaller));
}

#[test]
fn test_admin_can_add_and_remove_authorized_caller() {
    let mut registry = CallerRegistry::new();
    let admin = Account::new("GADMIN");
    let caller_contract = Account::new("CCALLER");
    initialize_admin(&mut registry, &admin).unwrap();
    assert!(!is_authorized_caller(&registry, &caller_contract));
    add_authorized_caller(&mut registry, &admin, caller_contract.clone()).unwrap();
    assert!(is_authorized_caller(&registry, &caller_contract));
    assert!(require_authorized_caller(&registry, &caller_contract).is_ok());
    remove_authorized_caller(&mut registry, &admin, caller_contract.clone()).unwrap();
    assert!(!is_authorized_caller(&registry, &caller_contract));
    assert_eq!(
        require_authorized_caller(&registry, &caller_contract),
        Err(CrossContractSafetyError::UnauthorizedCaller)
    );
}

#[test]
fn test_non_admin_cannot_manage_caller_registry() {
    let mut registry = CallerRegistry::new();
    let admin = Account::new("GADMIN");
    initialize_admin(&mut registry, &admin).unwrap();
    let not_admin = Account::new("GOTHER");
    let caller_contract = Account::new("CCALLER");
    let result = add_authorized_caller(&mut registry, &not_admin, caller_contract);
    assert_eq!(result, Err(CrossContractSafetyError::Unauthorized));
}

#[test]
fn test_initialize_admin_rejected_once_already_set() {
    let mut registry = CallerRegistry::new();
    let admin = Account::new("GADMIN");
    initialize_admin(&mut registry, &admin).unwrap();
    let other = Account::new("GOTHER");
    let result = initialize_admin(&mut registry, &other);
    assert_eq!(result, Err(CrossContractSafetyError::Unauthorized));
}

#[test]
fn managing_the_registry_without_an_admin_is_refused() {
    let mut registry = CallerRegistry::new();
    let result = add_authorized_caller(&mut registry, &Account::new("GX"), Account::new("CY"));
    assert_eq!(result, Err(CrossContractSafetyError::NotInitialized));
}
