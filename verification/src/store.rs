use vstd::prelude::*;
use crate::emergency_alert_event::EmergencyAlert;
use crate::ident::{Account, Symbol};
use crate::table::Table;

verus! {

/// What the governance switches publish.
pub enum GovernanceEvent {
    AdminRenounced { caller: Account },
    AdminProposed { new_admin: Account },
    AdminAccepted { new_admin: Account },
    GuardRotated { old_guard: Account, new_guard: Account },
    AnomalyPause { hourly_volume: u32 },
    Alert { alert: EmergencyAlert },
    AdminTakeover { dao_contract: Account },
    ConfigRolledBack { target_version: u32 },
    BundleUpdated { new_version: u32 },
    StateReset { guardians: u32 },
    DisputeWithdrawn { dispute_id: u64 },
    AppealFiled { dispute_id: u64 },
    DisputeForceSettled { dispute_id: u64, outcome: u32 },
    DaoRegistered { dao_contract: Account },
    GuardiansConfigured { count: u32 },
}

/// The refusal of a call made by an account that does not hold the role
/// the call needs.
#[derive(Clone, Copy, Debug, PartialEq, Eq, Structural)]
pub enum RoleError {
    Unauthorized,
}

/// Whether `who` is among `accounts`.
pub open spec fn account_listed(accounts: Seq<Account>, who: Seq<char>) -> bool {
    exists|i: int| 0 <= i < accounts.len() && #[trigger] accounts[i]@ == who
}

/// Whether `who` holds the role stored in `role`.
pub open spec fn holds(role: Option<Account>, who: Account) -> bool {
    role matches Some(r) && r@ == who@
}

/// Whether `who` is among the first `upto` entries of `accounts`.
pub fn listed_before(accounts: &Vec<Account>, who: &Account, upto: usize) -> (b: bool)
    requires
        upto <= accounts@.len(),
    ensures
        b == account_listed(accounts@.subrange(0, upto as int), who@),
{
    let ghost prefix = accounts@.subrange(0, upto as int);
    let mut i: usize = 0;
    while i < upto
        invariant
            i <= upto <= accounts@.len(),
            prefix == accounts@.subrange(0, upto as int),
            forall|j: int| 0 <= j < i ==> #[trigger] accounts@[j]@ != who@,
        decreases upto - i,
    {
        if accounts[i] == *who {
            assert(prefix[i as int]@ == who@);
            return true;
        }
        i = i + 1;
    }
    assert forall|j: int| 0 <= j < prefix.len() implies #[trigger] prefix[j]@ != who@ by {
        assert(prefix[j] == accounts@[j]);
    }
    false
}

/// Whether `who` is the holder of `role`.
pub fn is_holder(role: &Option<Account>, who: &Account) -> (b: bool)
    ensures
        b == holds(*role, *who),
{
    match role {
        Some(r) => *r == *who,
        None => false,
    }
}

/// The contract's instance storage as the governance switches see it:
/// one optional entry per storage key, the scratch index entries that an
/// emergency reset may clear, and the events published so far.
pub struct InstanceStore {
    pub admin: Option<Account>,
    pub pending_admin: Option<Account>,
    pub pending_admin_since: Option<u64>,
    pub operator: Option<Account>,
    pub pending_operator: Option<Account>,
    pub circuit_paused: Option<bool>,
    pub disputes_paused: Option<bool>,
    pub deprecated: Option<bool>,
    pub config_frozen: Option<bool>,
    pub emergency_guard: Option<Account>,
    pub dao_contract: Option<Account>,
    pub guardians: Vec<Account>,
    pub temp_entries: Table<Vec<u8>>,
    pub events: Vec<GovernanceEvent>,
}

impl InstanceStore {
    pub open spec fn wf(&self) -> bool {
        self.temp_entries.wf()
    }

    /// The scratch index entries, by key.
    pub open spec fn temp_index(&self) -> Map<Seq<char>, Vec<u8>> {
        self.temp_entries@
    }

    /// An empty store: nothing set, nothing published.
    pub fn new() -> (s: Self)
        ensures
            s.wf(),
            s.admin is None,
            s.pending_admin is None,
            s.pending_admin_since is None,
            s.operator is None,
            s.pending_operator is None,
            s.circuit_paused is None,
            s.disputes_paused is None,
            s.deprecated is None,
            s.config_frozen is None,
            s.emergency_guard is None,
            s.dao_contract is None,
            s.guardians@ == Seq::<Account>::empty(),
            s.temp_index() == Map::<Seq<char>, Vec<u8>>::empty(),
            s.events@ == Seq::<GovernanceEvent>::empty(),
    {
        InstanceStore {
            admin: None,
            pending_admin: None,
            pending_admin_since: None,
            operator: None,
            pending_operator: None,
            circuit_paused: None,
            disputes_paused: None,
            deprecated: None,
            config_frozen: None,
            emergency_guard: None,
            dao_contract: None,
            guardians: Vec::new(),
            temp_entries: Table::new(),
            events: Vec::new(),
        }
    }

    pub fn set_temp_entry(&mut self, key: &Symbol, value: Vec<u8>)
        requires
            old(self).wf(),
        ensures
            final(self).wf(),
            final(self).temp_index() == old(self).temp_index().insert(key@, value),
            final(self).admin == old(self).admin,
            final(self).events == old(self).events,
    {
        self.temp_entries.set(key.text.clone(), value);
    }

    pub fn has_temp_entry(&self, key: &Symbol) -> (b: bool)
        requires
            self.wf(),
        ensures
            b == self.temp_index().contains_key(key@),
    {
        self.temp_entries.contains_key(&key.text)
    }

    pub fn remove_temp_entry(&mut self, key: &Symbol)
        requires
            old(self).wf(),
        ensures
            final(self).wf(),
            final(self).temp_index() == old(self).temp_index().remove(key@),
            *final(self) == (InstanceStore { temp_entries: final(self).temp_entries, ..*old(self) }),
    {
        self.temp_entries.remove(&key.text);
    }
}

} // verus!
