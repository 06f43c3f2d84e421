use vstd::prelude::*;
use crate::ident::Account;
use crate::store::InstanceStore;

verus! {

#[derive(Clone, Copy, Debug, PartialEq, Eq, Structural)]
pub enum QueryError {
    NotInitialized,
}

/// The current admin, or `NotInitialized` when none is stored.
pub fn get_admin(store: &InstanceStore) -> (r: Result<Account, QueryError>)
    ensures
        match store.admin {
            Some(a) => r == Ok::<Account, QueryError>(a),
            None => r == Err::<Account, QueryError>(QueryError::NotInitialized),
        },
{
    match &store.admin {
        Some(a) => Ok(a.clone()),
        None => Err(QueryError::NotInitialized),
    }
}

} // verus!
