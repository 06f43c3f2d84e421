use vstd::prelude::*;
use crate::ident::Account;
use crate::sla::SLAError;
use crate::table::Table;

verus! {

/// The operators, each marked active or not, and the count of active
/// ones.
pub struct OperatorState {
    pub operators: Table<bool>,
    pub count: u32,
}

impl OperatorState {
    /// The registry is consistent, holds no more entries than a host map
    /// can (`u32::MAX`), and `count` is the number of active operators.
    pub open spec fn wf(&self) -> bool {
        &&& self.operators.wf()
        &&& self.operators.key_seq().len() <= u32::MAX
        &&& self.count == self.active().len()
    }

    /// The active operators.
    pub open spec fn active(&self) -> Set<Seq<char>> {
        Set::new(|k: Seq<char>| self.operators@.contains_key(k) && self.operators@[k])
    }

    pub open spec fn is_active(&self, who: Seq<char>) -> bool {
        self.operators@.contains_key(who) && self.operators@[who]
    }
}

/// What the operator functions publish.
pub enum OperatorEvent {
    Added { caller: Account, operator: Account },
    Removed { caller: Account, operator: Account },
}

/// The storage the operator functions use: the admin, the operator
/// registry (absent until initialised), and the events published.
pub struct MultiOperatorState {
    pub admin: Option<Account>,
    pub operators: Option<OperatorState>,
    pub events: Vec<OperatorEvent>,
}

impl MultiOperatorState {
    pub open spec fn wf(&self) -> bool {
        self.operators matches Some(s) ==> s.wf()
    }
}

/// Starts the registry with `operator` as its one active operator.
pub fn init_operators(state: &mut MultiOperatorState, operator: &Account)
    requires
        old(state).wf(),
    ensures
        final(state).wf(),
        final(state).operators matches Some(s) && s.operators@ == map![operator@ => true] && s.count
            == 1 && s.operators.key_seq() == seq![operator@],
        final(state).admin == old(state).admin,
        final(state).events == old(state).events,
{
    let mut operators: Table<bool> = Table::new();
    operators.set(operator.text.clone(), true);
    assert(operators@ =~= map![operator@ => true]);
    let s = OperatorState { operators, count: 1 };
    assert(s.active() =~= set![operator@]);
    state.operators = Some(s);
}

/// Whether `caller` may act as an operator: refused before the registry
/// exists, and for anyone not active in it.
pub open spec fn operator_check(state: &MultiOperatorState, caller: Seq<char>) -> Result<(), SLAError> {
    match state.operators {
        None => Err(SLAError::NotInitialized),
        Some(s) => if s.is_active(caller) {
            Ok(())
        } else {
            Err(SLAError::Unauthorized)
        },
    }
}

fn active_in(s: &OperatorState, who: &Account) -> (b: bool)
    requires
        s.wf(),
    ensures
        b == s.is_active(who@),
{
    match s.operators.get(&who.text) {
        Some(v) => *v,
        None => false,
    }
}

pub fn is_operator(state: &MultiOperatorState, caller: &Account) -> (r: Result<(), SLAError>)
    requires
        state.wf(),
    ensures
        r == operator_check(state, caller@),
{
    match &state.operators {
        None => Err(SLAError::NotInitialized),
        Some(s) => if active_in(s, caller) {
            Ok(())
        } else {
            Err(SLAError::Unauthorized)
        },
    }
}

/// Why the admin's change to the registry is refused: no admin, a caller
/// who is not the admin, no registry.
pub open spec fn registry_refusal(state: &MultiOperatorState, caller: Seq<char>) -> Option<SLAError> {
    match state.admin {
        None => Some(SLAError::NotInitialized),
        Some(a) => if a@ != caller {
            Some(SLAError::Unauthorized)
        } else if state.operators is None {
            Some(SLAError::NotInitialized)
        } else {
            None
        },
    }
}

fn check_registry(state: &MultiOperatorState, caller: &Account) -> (r: Result<(), SLAError>)
    ensures
        match registry_refusal(state, caller@) {
            Some(e) => r == Err::<(), SLAError>(e),
            None => r is Ok,
        },
{
    match &state.admin {
        None => Err(SLAError::NotInitialized),
        Some(admin) => if *caller != *admin {
            Err(SLAError::Unauthorized)
        } else if state.operators.is_none() {
            Err(SLAError::NotInitialized)
        } else {
            Ok(())
        },
    }
}

/// The admin makes `new_operator` active; adding an active operator
/// changes nothing.
pub fn add_operator(state: &mut MultiOperatorState, caller: &Account, new_operator: &Account) -> (r:
    Result<(), SLAError>)
    requires
        old(state).wf(),
        old(state).operators matches Some(s) ==> (!s.operators@.contains_key(new_operator@)
            ==> s.operators.key_seq().len() < u32::MAX),
    ensures
        final(state).wf(),
        match registry_refusal(old(state), caller@) {
            Some(e) => r == Err::<(), SLAError>(e) && *final(state) == *old(state),
            None => {
                let s = old(state).operators->0;
                &&& r is Ok
                &&& s.is_active(new_operator@) ==> *final(state) == *old(state)
                &&& !s.is_active(new_operator@) ==> {
                    &&& final(state).operators matches Some(t) && t.operators@
                        == s.operators@.insert(new_operator@, true) && t.count == s.count + 1
                    &&& final(state).admin == old(state).admin
                    &&& final(state).events@ == old(state).events@.push(
                        OperatorEvent::Added { caller: *caller, operator: *new_operator },
                    )
                }
            },
        },
{
    match check_registry(state, caller) {
        Err(e) => return Err(e),
        Ok(()) => {},
    }
    let mut s = match state.operators.take() {
        Some(s) => s,
        None => return Err(SLAError::NotInitialized),
    };
    if active_in(&s, new_operator) {
        state.operators = Some(s);
        return Ok(());
    }
    let ghost before = s;
    proof {
        lemma_active_bound(s, new_operator@);
    }
    s.operators.set(new_operator.text.clone(), true);
    s.count = s.count + 1;
    proof {
        lemma_count_tracks_active(before, s, new_operator@, true);
    }
    state.operators = Some(s);
    state.events.push(
        OperatorEvent::Added { caller: caller.clone(), operator: new_operator.clone() },
    );
    Ok(())
}

/// The admin makes `operator` inactive (it stays listed in the registry);
/// removing an inactive operator changes nothing.
pub fn remove_operator(state: &mut MultiOperatorState, caller: &Account, operator: &Account) -> (r:
    Result<(), SLAError>)
    requires
        old(state).wf(),
    ensures
        final(state).wf(),
        match registry_refusal(old(state), caller@) {
            Some(e) => r == Err::<(), SLAError>(e) && *final(state) == *old(state),
            None => {
                let s = old(state).operators->0;
                &&& r is Ok
                &&& !s.is_active(operator@) ==> *final(state) == *old(state)
                &&& s.is_active(operator@) ==> {
                    &&& final(state).operators matches Some(t) && t.operators@
                        == s.operators@.insert(operator@, false) && t.count == s.count - 1
                    &&& final(state).admin == old(state).admin
                    &&& final(state).events@ == old(state).events@.push(
                        OperatorEvent::Removed { caller: *caller, operator: *operator },
                    )
                }
            },
        },
{
    match check_registry(state, caller) {
        Err(e) => return Err(e),
        Ok(()) => {},
    }
    let mut s = match state.operators.take() {
        Some(s) => s,
        None => return Err(SLAError::NotInitialized),
    };
    if !active_in(&s, operator) {
        state.operators = Some(s);
        return Ok(());
    }
    let ghost before = s;
    proof {
        lemma_active_nonempty(s, operator@);
    }
    s.operators.set(operator.text.clone(), false);
    s.count = s.count - 1;
    proof {
        lemma_count_tracks_active(before, s, operator@, false);
    }
    state.operators = Some(s);
    state.events.push(OperatorEvent::Removed { caller: caller.clone(), operator: operator.clone() });
    Ok(())
}

/// The active operators, in the order they were first registered.
pub open spec fn active_list(s: OperatorState) -> Seq<Seq<char>> {
    s.operators.key_seq().filter(|k: Seq<char>| s.operators@[k])
}

pub fn list_operators(state: &MultiOperatorState) -> (r: Result<Vec<Account>, SLAError>)
    requires
        state.wf(),
    ensures
        match state.operators {
            None => r == Err::<Vec<Account>, SLAError>(SLAError::NotInitialized),
            Some(s) => r matches Ok(v) && v@.map_values(|a: Account| a@) == active_list(s),
        },
{
    let s = match &state.operators {
        None => return Err(SLAError::NotInitialized),
        Some(s) => s,
    };
    let ghost keys = s.operators.key_seq();
    let ghost pred = |k: Seq<char>| s.operators@[k];
    let mut result: Vec<Account> = Vec::new();
    let n = s.operators.len();
    let mut i: usize = 0;
    while i < n
        invariant
            s.wf(),
            n == keys.len(),
            keys == s.operators.key_seq(),
            pred == (|k: Seq<char>| s.operators@[k]),
            i <= n,
            result@.map_values(|a: Account| a@) == keys.subrange(0, i as int).filter(pred),
        decreases n - i,
    {
        let key = s.operators.key_at(i);
        let active = *s.operators.value_at(i);
        proof {
            reveal(Seq::filter);
            assert(keys.subrange(0, i + 1).drop_last() =~= keys.subrange(0, i as int));
        }
        if active {
            let ghost prev = result@;
            result.push(Account::from_string(key.clone()));
            assert(result@.map_values(|a: Account| a@) =~= prev.map_values(|a: Account| a@).push(
                keys[i as int],
            ));
        }
        i = i + 1;
    }
    assert(keys.subrange(0, n as int) =~= keys);
    Ok(result)
}

/// The stored count of active operators.
pub fn operator_count(state: &MultiOperatorState) -> (r: Result<u32, SLAError>)
    ensures
        match state.operators {
            None => r == Err::<u32, SLAError>(SLAError::NotInitialized),
            Some(s) => r == Ok::<u32, SLAError>(s.count),
        },
{
    match &state.operators {
        None => Err(SLAError::NotInitialized),
        Some(s) => Ok(s.count),
    }
}

/// There are no more active operators than registered ones, and fewer
/// when a registered one is inactive.
proof fn lemma_active_bound(s: OperatorState, who: Seq<char>)
    requires
        s.operators.wf(),
    ensures
        s.active().finite(),
        s.active().len() <= s.operators.key_seq().len(),
        s.operators@.contains_key(who) && !s.is_active(who) ==> s.active().len()
            < s.operators.key_seq().len(),
{
    s.operators.lemma_keys();
    let dom = s.operators@.dom();
    assert(s.active().subset_of(dom));
    vstd::set_lib::lemma_set_subset_finite(dom, s.active());
    vstd::set_lib::lemma_len_subset(s.active(), dom);
    if s.operators@.contains_key(who) && !s.is_active(who) {
        assert(s.active().subset_of(dom.remove(who)));
        vstd::set_lib::lemma_len_subset(s.active(), dom.remove(who));
    }
}

/// An active operator makes the set of active operators non-empty.
proof fn lemma_active_nonempty(s: OperatorState, who: Seq<char>)
    requires
        s.operators.wf(),
        s.is_active(who),
    ensures
        s.active().len() >= 1,
{
    s.operators.lemma_keys();
    assert(s.active().subset_of(s.operators@.dom()));
    vstd::set_lib::lemma_set_subset_finite(s.operators@.dom(), s.active());
    assert(s.active().contains(who));
    vstd::set::axiom_set_remove_len(s.active(), who);
}

/// While the count matches the number of active operators, adding one or
/// removing one keeps it matching (short of `u32::MAX` operators).
pub proof fn lemma_count_tracks_active(before: OperatorState, after: OperatorState, who: Seq<char>, add: bool)
    requires
        before.operators.wf(),
        before.count == before.active().len(),
        add ==> before.active().len() < u32::MAX,
        add ==> !before.is_active(who) && after.operators@ == before.operators@.insert(who, true)
            && after.count == before.count + 1,
        !add ==> before.is_active(who) && after.operators@ == before.operators@.insert(who, false)
            && after.count == before.count - 1,
    ensures
        after.count == after.active().len(),
{
    before.operators.lemma_keys();
    assert(before.active().subset_of(before.operators@.dom()));
    vstd::set_lib::lemma_len_subset(before.active(), before.operators@.dom());
    assert(before.active().finite()) by {
        vstd::set_lib::lemma_set_subset_finite(before.operators@.dom(), before.active());
    }
    if add {
        assert(after.active() =~= before.active().insert(who));
    } else {
        assert(after.active() =~= before.active().remove(who));
    }
}

} // verus!
