use vstd::prelude::*;
use crate::ident::{Account, Symbol};
use crate::store::{
    account_listed, holds, is_holder, listed_before, GovernanceEvent, InstanceStore, RoleError,
};

verus! {

/// Guardian signatures needed for a reset.
pub const MIN_GUARDIANS: usize = 4;

#[derive(Clone, Copy, Debug, PartialEq, Eq, Structural)]
pub enum StateResetError {
    InsufficientGuardianSignatures,
    Unauthorized,
}

/// How many distinct guardians of `guardians` are among `signers`.
pub open spec fn approvals(guardians: Seq<Account>, signers: Seq<Account>) -> nat
    decreases guardians.len(),
{
    if guardians.len() == 0 {
        0
    } else {
        let rest = guardians.drop_last();
        let g = guardians.last();
        approvals(rest, signers) + if account_listed(signers, g@) && !account_listed(rest, g@) {
            1nat
        } else {
            0nat
        }
    }
}

/// Whether every signer is one of `guardians`.
pub open spec fn all_guardians(guardians: Seq<Account>, signers: Seq<Account>) -> bool {
    forall|i: int| 0 <= i < signers.len() ==> account_listed(guardians, #[trigger] signers[i]@)
}

/// The admin names the guardians whose signatures an emergency reset
/// needs; their number is published. Anyone but the admin is refused and
/// nothing changes. `admin` must have authorised the call.
pub fn set_guardians(store: &mut InstanceStore, admin: &Account, guardians: Vec<Account>) -> (r:
    Result<(), RoleError>)
    requires
        guardians.len() <= u32::MAX,
    ensures
        !holds(old(store).admin, *admin) ==> r == Err::<(), RoleError>(RoleError::Unauthorized)
            && *final(store) == *old(store),
        holds(old(store).admin, *admin) ==> {
            &&& r is Ok
            &&& *final(store) == (InstanceStore {
                guardians: final(store).guardians,
                events: final(store).events,
                ..*old(store)
            })
            &&& final(store).guardians@ == guardians@
            &&& final(store).events@ == old(store).events@.push(
                GovernanceEvent::GuardiansConfigured { count: guardians.len() as u32 },
            )
        },
{
    if !is_holder(&store.admin, admin) {
        return Err(RoleError::Unauthorized);
    }
    let count = guardians.len() as u32;
    store.guardians = guardians;
    store.events.push(GovernanceEvent::GuardiansConfigured { count });
    Ok(())
}

/// Counts the distinct configured guardians among `signers`.
fn count_approvals(guardians: &Vec<Account>, signers: &Vec<Account>) -> (n: usize)
    ensures
        n == approvals(guardians@, signers@),
{
    let mut n: usize = 0;
    let mut i: usize = 0;
    while i < guardians.len()
        invariant
            i <= guardians@.len(),
            n == approvals(guardians@.subrange(0, i as int), signers@),
            n <= i,
        decreases guardians@.len() - i,
    {
        let ghost before = guardians@.subrange(0, i as int);
        let ghost after = guardians@.subrange(0, i + 1);
        assert(after.drop_last() =~= before);
        assert(after.last() == guardians@[i as int]);
        let signed = listed_before(signers, &guardians[i], signers.len());
        assert(signers@.subrange(0, signers@.len() as int) =~= signers@);
        let seen = listed_before(guardians, &guardians[i], i);
        if signed && !seen {
            n = n + 1;
        }
        i = i + 1;
    }
    assert(guardians@.subrange(0, guardians@.len() as int) =~= guardians@);
    n
}

/// Checks that every signer is a configured guardian.
fn signers_are_guardians(guardians: &Vec<Account>, signers: &Vec<Account>) -> (b: bool)
    ensures
        b == all_guardians(guardians@, signers@),
{
    assert(guardians@.subrange(0, guardians@.len() as int) =~= guardians@);
    let mut i: usize = 0;
    while i < signers.len()
        invariant
            i <= signers@.len(),
            guardians@.subrange(0, guardians@.len() as int) == guardians@,
            forall|j: int| 0 <= j < i ==> account_listed(guardians@, #[trigger] signers@[j]@),
        decreases signers@.len() - i,
    {
        if !listed_before(guardians, &signers[i], guardians.len()) {
            return false;
        }
        i = i + 1;
    }
    true
}

/// Clears the scratch index entry `temp_index_key`, every other entry kept,
/// and publishes the reset, when at least four distinct configured
/// guardians sign (each of whom must have authorised the call). A signer
/// who is not a configured guardian is refused as `Unauthorized`; fewer
/// than four distinct guardians as `InsufficientGuardianSignatures`; on a
/// refusal nothing changes.
pub fn emergency_state_reset(
    store: &mut InstanceStore,
    guardians: &Vec<Account>,
    temp_index_key: &Symbol,
) -> (r: Result<(), StateResetError>)
    requires
        old(store).wf(),
        guardians.len() <= u32::MAX,
    ensures
        final(store).wf(),
        !all_guardians(old(store).guardians@, guardians@) ==> r == Err::<(), StateResetError>(
            StateResetError::Unauthorized,
        ) && *final(store) == *old(store),
        all_guardians(old(store).guardians@, guardians@) && approvals(
            old(store).guardians@,
            guardians@,
        ) < MIN_GUARDIANS ==> r == Err::<(), StateResetError>(
            StateResetError::InsufficientGuardianSignatures,
        ) && *final(store) == *old(store),
        all_guardians(old(store).guardians@, guardians@) && approvals(
            old(store).guardians@,
            guardians@,
        ) >= MIN_GUARDIANS ==> {
            &&& r is Ok
            &&& final(store).temp_index() == old(store).temp_index().remove(temp_index_key@)
            &&& *final(store) == (InstanceStore {
                temp_entries: final(store).temp_entries,
                events: final(store).events,
                ..*old(store)
            })
            &&& final(store).events@ == old(store).events@.push(
                GovernanceEvent::StateReset { guardians: guardians.len() as u32 },
            )
        },
{
    if !signers_are_guardians(&store.guardians, guardians) {
        return Err(StateResetError::Unauthorized);
    }
    if count_approvals(&store.guardians, guardians) < MIN_GUARDIANS {
        return Err(StateResetError::InsufficientGuardianSignatures);
    }
    store.remove_temp_entry(temp_index_key);
    store.events.push(GovernanceEvent::StateReset { guardians: guardians.len() as u32 });
    Ok(())
}

} // verus!
