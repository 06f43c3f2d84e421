use vstd::prelude::*;
use crate::store::InstanceStore;

verus! {

#[derive(Clone, Copy, Debug, PartialEq, Eq, Structural)]
pub enum InitError {
    AlreadyInitialized,
}

/// Refuses a second initialisation: fails exactly when an admin is stored.
pub fn ensure_not_initialized(store: &InstanceStore) -> (r: Result<(), InitError>)
    ensures
        store.admin is Some ==> r == Err::<(), InitError>(InitError::AlreadyInitialized),
        store.admin is None ==> r is Ok,
{
    if store.admin.is_some() {
        return Err(InitError::AlreadyInitialized);
    }
    Ok(())
}

} // verus!
