use vstd::prelude::*;

verus! {

// The host types that the library hands on to the soroban host without
// looking inside them.

#[verifier::external_type_specification]
#[verifier::external_body]
pub struct ExEnv(soroban_sdk::Env);

#[verifier::external_type_specification]
#[verifier::external_body]
pub struct ExVal(soroban_sdk::Val);

#[verifier::external_type_specification]
#[verifier::external_body]
#[verifier::reject_recursive_types(T)]
pub struct ExHostVec<T>(soroban_sdk::Vec<T>);

} // verus!
