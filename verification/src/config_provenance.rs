use vstd::prelude::*;
use crate::ident::{Account, Symbol};
use crate::sla::SLAError;

verus! {

/// One change of a severity tier's configuration.
#[derive(Debug)]
pub struct ProvenanceRecord {
    pub severity: Symbol,
    pub changed_by: Account,
    pub changed_at: u64,
    pub old_threshold: u32,
    pub new_threshold: u32,
    pub old_penalty: i128,
    pub new_penalty: i128,
    pub old_reward: i128,
    pub new_reward: i128,
    pub reason: String,
}

impl Clone for ProvenanceRecord {
    fn clone(&self) -> (r: Self)
        ensures
            r == *self,
    {
        ProvenanceRecord {
            severity: self.severity.clone(),
            changed_by: self.changed_by.clone(),
            changed_at: self.changed_at,
            old_threshold: self.old_threshold,
            new_threshold: self.new_threshold,
            old_penalty: self.old_penalty,
            new_penalty: self.new_penalty,
            old_reward: self.old_reward,
            new_reward: self.new_reward,
            reason: self.reason.clone(),
        }
    }
}

/// Every configuration change, oldest first, with their number (which
/// stops growing at `u32::MAX`).
#[derive(Debug)]
pub struct ProvenanceLog {
    pub records: Vec<ProvenanceRecord>,
    pub count: u32,
}

/// What recording a change publishes: the tier and the new change count.
pub enum ProvenanceEvent {
    Recorded { severity: Symbol, count: u32 },
}

/// The storage provenance tracking uses: the admin, the log, and the
/// events published.
pub struct ProvenanceState {
    pub admin: Option<Account>,
    pub log: Option<ProvenanceLog>,
    pub events: Vec<ProvenanceEvent>,
}

/// The stored records, none before the first change.
pub open spec fn records_of(state: &ProvenanceState) -> Seq<ProvenanceRecord> {
    match state.log {
        Some(log) => log.records@,
        None => Seq::empty(),
    }
}

/// The stored change count, zero before the first change.
pub open spec fn count_of(state: &ProvenanceState) -> u32 {
    match state.log {
        Some(log) => log.count,
        None => 0,
    }
}

fn copy_records(v: &Vec<ProvenanceRecord>) -> (r: Vec<ProvenanceRecord>)
    ensures
        r@ == v@,
{
    let mut r: Vec<ProvenanceRecord> = Vec::new();
    let mut i: usize = 0;
    while i < v.len()
        invariant
            i <= v.len(),
            r@ == v@.subrange(0, i as int),
        decreases v.len() - i,
    {
        r.push(v[i].clone());
        i = i + 1;
    }
    assert(v@.subrange(0, v.len() as int) =~= v@);
    r
}

/// Records that `severity`'s configuration changed at `now`, from the old
/// to the new terms, attributed to the stored admin or, when none is set,
/// to `unattributed` (an address the contract shell makes up for the
/// purpose). The count saturates at `u32::MAX`.
pub fn record_config_change(
    state: &mut ProvenanceState,
    severity: &Symbol,
    old_threshold: u32,
    new_threshold: u32,
    old_penalty: i128,
    new_penalty: i128,
    old_reward: i128,
    new_reward: i128,
    reason: String,
    now: u64,
    unattributed: Account,
)
    ensures
        ({
            let record = ProvenanceRecord {
                severity: *severity,
                changed_by: match old(state).admin {
                    Some(a) => a,
                    None => unattributed,
                },
                changed_at: now,
                old_threshold,
                new_threshold,
                old_penalty,
                new_penalty,
                old_reward,
                new_reward,
                reason,
            };
            let count = if count_of(old(state)) < u32::MAX {
                (count_of(old(state)) + 1) as u32
            } else {
                u32::MAX
            };
            &&& records_of(final(state)) == records_of(old(state)).push(record)
            &&& count_of(final(state)) == count
            &&& final(state).log is Some
            &&& final(state).admin == old(state).admin
            &&& final(state).events@ == old(state).events@.push(
                ProvenanceEvent::Recorded { severity: *severity, count },
            )
        }),
{
    let caller = match &state.admin {
        Some(a) => a.clone(),
        None => unattributed,
    };
    let record = ProvenanceRecord {
        severity: severity.clone(),
        changed_by: caller,
        changed_at: now,
        old_threshold,
        new_threshold,
        old_penalty,
        new_penalty,
        old_reward,
        new_reward,
        reason,
    };
    let mut log = match state.log.take() {
        Some(l) => l,
        None => ProvenanceLog { records: Vec::new(), count: 0 },
    };
    log.records.push(record);
    log.count = log.count.saturating_add(1);
    let count = log.count;
    state.log = Some(log);
    state.events.push(ProvenanceEvent::Recorded { severity: severity.clone(), count });
}

/// The whole log (empty before the first change).
pub fn get_provenance_log(state: &ProvenanceState) -> (r: Result<ProvenanceLog, SLAError>)
    ensures
        r matches Ok(log) && log.records@ == records_of(state) && log.count == count_of(state),
{
    match &state.log {
        Some(log) => Ok(ProvenanceLog { records: copy_records(&log.records), count: log.count }),
        None => Ok(ProvenanceLog { records: Vec::new(), count: 0 }),
    }
}

/// Which records a query keeps.
pub enum Selector {
    Severity(Symbol),
    Between(u64, u64),
    ChangedBy(Account),
}

pub open spec fn selects(which: Selector, r: ProvenanceRecord) -> bool {
    match which {
        Selector::Severity(s) => r.severity@ == s@,
        Selector::Between(from, to) => from <= r.changed_at <= to,
        Selector::ChangedBy(a) => r.changed_by@ == a@,
    }
}

/// The records `which` keeps, oldest first.
pub open spec fn selected(state: &ProvenanceState, which: Selector) -> Seq<ProvenanceRecord> {
    records_of(state).filter(|r: ProvenanceRecord| selects(which, r))
}

fn select(state: &ProvenanceState, which: &Selector) -> (out: Vec<ProvenanceRecord>)
    ensures
        out@ == selected(state, *which),
{
    let mut out: Vec<ProvenanceRecord> = Vec::new();
    let log = match &state.log {
        Some(l) => l,
        None => {
            proof {
                reveal(Seq::filter);
            }
            assert(selected(state, *which) =~= Seq::<ProvenanceRecord>::empty());
            return out;
        },
    };
    let ghost all = log.records@;
    let ghost pred = |r: ProvenanceRecord| selects(*which, r);
    let mut i: usize = 0;
    while i < log.records.len()
        invariant
            i <= log.records.len(),
            all == log.records@,
            pred == (|r: ProvenanceRecord| selects(*which, r)),
            out@ == all.subrange(0, i as int).filter(pred),
        decreases log.records.len() - i,
    {
        let record = &log.records[i];
        let keep = match which {
            Selector::Severity(s) => record.severity == *s,
            Selector::Between(from, to) => record.changed_at >= *from && record.changed_at <= *to,
            Selector::ChangedBy(a) => record.changed_by == *a,
        };
        proof {
            reveal(Seq::filter);
            assert(all.subrange(0, i + 1).drop_last() =~= all.subrange(0, i as int));
        }
        if keep {
            out.push(record.clone());
        }
        i = i + 1;
    }
    assert(all.subrange(0, log.records.len() as int) =~= all);
    out
}

/// The changes of `severity`, oldest first.
pub fn get_severity_provenance(state: &ProvenanceState, severity: &Symbol) -> (r: Result<
    Vec<ProvenanceRecord>,
    SLAError,
>)
    ensures
        r matches Ok(v) && v@ == selected(state, Selector::Severity(*severity)),
{
    Ok(select(state, &Selector::Severity(severity.clone())))
}

/// The latest change of `severity`, if any.
pub fn get_latest_change(state: &ProvenanceState, severity: &Symbol) -> (r: Result<
    Option<ProvenanceRecord>,
    SLAError,
>)
    ensures
        ({
            let s = selected(state, Selector::Severity(*severity));
            r == Ok::<Option<ProvenanceRecord>, SLAError>(
                if s.len() > 0 {
                    Some(s.last())
                } else {
                    None
                },
            )
        }),
{
    let mut records = select(state, &Selector::Severity(severity.clone()));
    Ok(records.pop())
}

/// The number of changes recorded.
pub fn get_change_count(state: &ProvenanceState) -> (r: Result<u32, SLAError>)
    ensures
        r == Ok::<u32, SLAError>(count_of(state)),
{
    match &state.log {
        Some(log) => Ok(log.count),
        None => Ok(0),
    }
}

/// The changes made from `from_timestamp` to `to_timestamp` (both
/// included), oldest first.
pub fn get_changes_in_range(state: &ProvenanceState, from_timestamp: u64, to_timestamp: u64) -> (r:
    Result<Vec<ProvenanceRecord>, SLAError>)
    ensures
        r matches Ok(v) && v@ == selected(state, Selector::Between(from_timestamp, to_timestamp)),
{
    Ok(select(state, &Selector::Between(from_timestamp, to_timestamp)))
}

/// The changes attributed to `admin`, oldest first.
pub fn get_changes_by_admin(state: &ProvenanceState, admin: &Account) -> (r: Result<
    Vec<ProvenanceRecord>,
    SLAError,
>)
    ensures
        r matches Ok(v) && v@ == selected(state, Selector::ChangedBy(*admin)),
{
    Ok(select(state, &Selector::ChangedBy(admin.clone())))
}

/// Recording a change adds it as the latest change of its tier, and
/// leaves the other tiers' histories as they were.
pub proof fn lemma_record_is_latest(
    before: &ProvenanceState,
    after: &ProvenanceState,
    record: ProvenanceRecord,
    other: Symbol,
)
    requires
        records_of(after) == records_of(before).push(record),
    ensures
        selected(after, Selector::Severity(record.severity)) == selected(
            before,
            Selector::Severity(record.severity),
        ).push(record),
        other@ != record.severity@ ==> selected(after, Selector::Severity(other)) == selected(
            before,
            Selector::Severity(other),
        ),
{
    reveal(Seq::filter);
    assert(records_of(after).drop_last() =~= records_of(before));
}

} // verus!
