use vstd::prelude::*;
use crate::ident::Account;
use crate::store::InstanceStore;

verus! {

#[derive(Clone, Copy, Debug, PartialEq, Eq, Structural)]
pub enum QueryError {
    NotInitialized,
}

/// The current operator, or `NotInitialized` when none is stored.
pub fn get_operator(store: &InstanceStore) -> (r: Result<Account, QueryError>)
    ensures
        match store.operator {
            Some(a) => r == Ok::<Account, QueryError>(a),
            None => r == Err::<Account, QueryError>(QueryError::NotInitialized),
        },
{
    match &store.operator {
        Some(a) => Ok(a.clone()),
        None => Err(QueryError::NotInitialized),
    }
}

} // verus!
