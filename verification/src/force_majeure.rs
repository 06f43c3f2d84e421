use vstd::prelude::*;
use crate::ident::{Account, Symbol};
use crate::table::Table;

verus! {

/// Longest excuse window that governance may grant: one day.
pub const MAX_EXCUSE_S: u64 = 86_400;
/// Largest residual penalty, in basis points (100%).
pub const MAX_RESIDUAL_BPS: u32 = 10_000;
pub const MIN_REASON_LEN: u32 = 4;

#[derive(Clone, Copy, Debug, PartialEq, Eq, Structural)]
pub enum EventKind {
    Outage,
    Degraded,
    Maintenance,
}

#[derive(Clone, Copy, Debug, PartialEq, Eq, Structural)]
pub enum ForceMajeureError {
    NotGovernance,
    NoGovernance,
    WindowTooLong,
    WindowTooShort,
    EventTooLarge,
    AlreadyRecorded,
    NotRecorded,
    AlreadyClosed,
    StillRunning,
    ReasonTooShort,
}

/// A force-majeure event excusing an outage from `started_at` to
/// `excused_until`; `closed_at` is zero while it is open.
#[derive(Debug)]
pub struct ForceMajeureRecord {
    pub outage_id: Symbol,
    pub kind: EventKind,
    pub started_at: u64,
    pub excused_until: u64,
    pub reason: Symbol,
    pub approved_by: Account,
    pub residual_penalty_bps: u32,
    pub closed_at: u64,
}

impl Clone for ForceMajeureRecord {
    fn clone(&self) -> (r: Self)
        ensures
            r == *self,
    {
        ForceMajeureRecord {
            outage_id: self.outage_id.clone(),
            kind: self.kind,
            started_at: self.started_at,
            excused_until: self.excused_until,
            reason: self.reason.clone(),
            approved_by: self.approved_by.clone(),
            residual_penalty_bps: self.residual_penalty_bps,
            closed_at: self.closed_at,
        }
    }
}

/// What the force-majeure functions publish.
pub enum ForceMajeureEvent {
    Forced { outage_id: Symbol, excused_until: u64 },
    Excuse { outage_id: Symbol, closure: u64 },
    Closed { outage_id: Symbol, at: u64 },
}

/// A record as `record_force_majeure` admits it: a non-empty window of at
/// most a day, and a residual penalty of at most 100%.
pub open spec fn admissible(entry: ForceMajeureRecord) -> bool {
    &&& entry.started_at < entry.excused_until
    &&& entry.excused_until - entry.started_at <= MAX_EXCUSE_S
    &&& entry.residual_penalty_bps <= MAX_RESIDUAL_BPS
}

/// The governance address and the force-majeure records by outage id, as
/// kept in persistent storage, with the events published.
pub struct ForceMajeureState {
    governance: Option<Account>,
    records: Table<ForceMajeureRecord>,
    events: Vec<ForceMajeureEvent>,
}

impl ForceMajeureState {
    pub closed spec fn governance_of(&self) -> Option<Account> {
        self.governance
    }

    pub closed spec fn records(&self) -> Map<Seq<char>, ForceMajeureRecord> {
        self.records@
    }

    pub closed spec fn event_log(&self) -> Seq<ForceMajeureEvent> {
        self.events@
    }

    /// Every stored record was admitted by `record_force_majeure`.
    pub closed spec fn wf(&self) -> bool {
        &&& self.records.wf()
        &&& forall|k: Seq<char>| #[trigger]
            self.records@.contains_key(k) ==> admissible(self.records@[k])
    }

    /// No governance address and no records.
    pub fn new() -> (s: Self)
        ensures
            s.wf(),
            s.governance_of() is None,
            s.records() == Map::<Seq<char>, ForceMajeureRecord>::empty(),
            s.event_log() == Seq::<ForceMajeureEvent>::empty(),
    {
        ForceMajeureState { governance: None, records: Table::new(), events: Vec::new() }
    }

    pub fn events(&self) -> (e: &Vec<ForceMajeureEvent>)
        ensures
            e@ == self.event_log(),
    {
        &self.events
    }
}

/// The stored records, by outage id.
pub fn record_map(state: &ForceMajeureState) -> (m: &Table<ForceMajeureRecord>)
    requires
        state.wf(),
    ensures
        m.wf(),
        m@ == state.records(),
{
    &state.records
}

/// Sets the governance address.
pub fn set_governance(state: &mut ForceMajeureState, admin: &Account)
    requires
        old(state).wf(),
    ensures
        final(state).wf(),
        final(state).governance_of() == Some(*admin),
        final(state).records() == old(state).records(),
        final(state).event_log() == old(state).event_log(),
{
    state.governance = Some(admin.clone());
}

/// The governance address, if set.
pub fn governance(state: &ForceMajeureState) -> (g: Option<Account>)
    ensures
        g == state.governance_of(),
{
    match &state.governance {
        Some(a) => Some(a.clone()),
        None => None,
    }
}

/// `caller` is the governance address (never, while none is set).
pub open spec fn governs(state: &ForceMajeureState, caller: Seq<char>) -> bool {
    state.governance_of() matches Some(g) && g@ == caller
}

pub fn is_governance(state: &ForceMajeureState, caller: &Account) -> (b: bool)
    ensures
        b == governs(state, caller@),
{
    match &state.governance {
        Some(g) => *g == *caller,
        None => false,
    }
}

/// The record of `outage_id`, if any.
pub fn record(state: &ForceMajeureState, outage_id: &Symbol) -> (r: Option<ForceMajeureRecord>)
    requires
        state.wf(),
    ensures
        r is Some <==> state.records().contains_key(outage_id@),
        r matches Some(e) ==> e == state.records()[outage_id@],
{
    match state.records.get(&outage_id.text) {
        Some(e) => Some(e.clone()),
        None => None,
    }
}

/// `at` falls inside the recorded excuse window of `outage_id`, ends
/// included.
pub open spec fn excused_at(state: &ForceMajeureState, outage_id: Seq<char>, at: u64) -> bool {
    state.records().contains_key(outage_id) && {
        let e = state.records()[outage_id];
        e.started_at <= at <= e.excused_until
    }
}

pub fn is_excused(state: &ForceMajeureState, outage_id: &Symbol, at: u64) -> (b: bool)
    requires
        state.wf(),
    ensures
        b == excused_at(state, outage_id@, at),
{
    match state.records.get(&outage_id.text) {
        Some(e) => at >= e.started_at && at <= e.excused_until,
        None => false,
    }
}

/// The record of `outage_id` exists and is not closed.
pub open spec fn open_at(state: &ForceMajeureState, outage_id: Seq<char>) -> bool {
    state.records().contains_key(outage_id) && state.records()[outage_id].closed_at == 0
}

pub fn is_open(state: &ForceMajeureState, outage_id: &Symbol) -> (b: bool)
    requires
        state.wf(),
    ensures
        b == open_at(state, outage_id@),
{
    match state.records.get(&outage_id.text) {
        Some(e) => e.closed_at == 0,
        None => false,
    }
}

/// The penalty due at `at`: nothing inside an excuse window, the base
/// penalty otherwise.
pub fn apply_penalty_bps(state: &ForceMajeureState, outage_id: &Symbol, base_penalty_bps: u32, at: u64) -> (p:
    u32)
    requires
        state.wf(),
    ensures
        p == if excused_at(state, outage_id@, at) {
            0
        } else {
            base_penalty_bps
        },
{
    if is_excused(state, outage_id, at) {
        return 0;
    }
    base_penalty_bps
}

/// Why `record_force_majeure` refuses, checked in this order: the caller
/// is not governance; an open record exists; the window is empty, or
/// longer than a day; the residual penalty exceeds 100%; a partial event
/// with a residual penalty gives an empty reason.
pub open spec fn record_refusal(
    state: &ForceMajeureState,
    caller: Seq<char>,
    outage_id: Seq<char>,
    kind: EventKind,
    started_at: u64,
    excused_until: u64,
    reason: Seq<char>,
    residual_penalty_bps: u32,
) -> Option<ForceMajeureError> {
    if !governs(state, caller) {
        Some(ForceMajeureError::NotGovernance)
    } else if open_at(state, outage_id) {
        Some(ForceMajeureError::AlreadyRecorded)
    } else if excused_until <= started_at {
        Some(ForceMajeureError::WindowTooShort)
    } else if excused_until - started_at > MAX_EXCUSE_S {
        Some(ForceMajeureError::WindowTooLong)
    } else if residual_penalty_bps > MAX_RESIDUAL_BPS {
        Some(ForceMajeureError::EventTooLarge)
    } else if kind != EventKind::Outage && residual_penalty_bps > 0 && reason.len() == 0 {
        Some(ForceMajeureError::ReasonTooShort)
    } else {
        None
    }
}

/// Governance records a force-majeure event for an outage (replacing a
/// closed record of it) and returns the record, open and approved by the
/// caller.
pub fn record_force_majeure(
    state: &mut ForceMajeureState,
    caller: &Account,
    outage_id: &Symbol,
    kind: EventKind,
    started_at: u64,
    excused_until: u64,
    reason: Symbol,
    residual_penalty_bps: u32,
) -> (r: Result<ForceMajeureRecord, ForceMajeureError>)
    requires
        old(state).wf(),
    ensures
        final(state).wf(),
        ({
            let refusal = record_refusal(
                old(state),
                caller@,
                outage_id@,
                kind,
                started_at,
                excused_until,
                reason@,
                residual_penalty_bps,
            );
            match refusal {
                Some(e) => r == Err::<ForceMajeureRecord, ForceMajeureError>(e) && *final(state)
                    == *old(state),
                None => {
                    let entry = ForceMajeureRecord {
                        outage_id: *outage_id,
                        kind,
                        started_at,
                        excused_until,
                        reason,
                        approved_by: *caller,
                        residual_penalty_bps,
                        closed_at: 0,
                    };
                    &&& r == Ok::<ForceMajeureRecord, ForceMajeureError>(entry)
                    &&& final(state).records() == old(state).records().insert(outage_id@, entry)
                    &&& final(state).governance_of() == old(state).governance_of()
                    &&& final(state).event_log() == old(state).event_log().push(
                        ForceMajeureEvent::Forced { outage_id: *outage_id, excused_until },
                    )
                },
            }
        }),
{
    if !is_governance(state, caller) {
        return Err(ForceMajeureError::NotGovernance);
    }
    if is_open(state, outage_id) {
        return Err(ForceMajeureError::AlreadyRecorded);
    }
    if excused_until <= started_at {
        return Err(ForceMajeureError::WindowTooShort);
    }
    if excused_until - started_at > MAX_EXCUSE_S {
        return Err(ForceMajeureError::WindowTooLong);
    }
    if residual_penalty_bps > MAX_RESIDUAL_BPS {
        return Err(ForceMajeureError::EventTooLarge);
    }
    if kind != EventKind::Outage && residual_penalty_bps > 0 && reason.as_str().unicode_len() == 0 {
        return Err(ForceMajeureError::ReasonTooShort);
    }
    let entry = ForceMajeureRecord {
        outage_id: outage_id.clone(),
        kind,
        started_at,
        excused_until,
        reason,
        approved_by: caller.clone(),
        residual_penalty_bps,
        closed_at: 0,
    };
    state.records.set(outage_id.text.clone(), entry.clone());
    state.events.push(
        ForceMajeureEvent::Forced { outage_id: outage_id.clone(), excused_until },
    );
    Ok(entry)
}

/// Why `close_force_majeure` refuses, checked in this order.
pub open spec fn close_refusal(
    state: &ForceMajeureState,
    caller: Seq<char>,
    outage_id: Seq<char>,
    at: u64,
) -> Option<ForceMajeureError> {
    if !governs(state, caller) {
        Some(ForceMajeureError::NotGovernance)
    } else if !state.records().contains_key(outage_id) {
        Some(ForceMajeureError::NotRecorded)
    } else if state.records()[outage_id].closed_at != 0 {
        Some(ForceMajeureError::AlreadyClosed)
    } else if at < state.records()[outage_id].excused_until {
        Some(ForceMajeureError::StillRunning)
    } else {
        None
    }
}

/// Governance closes an open record once its window has run out, at `at`,
/// and gets back the end of the excused period.
pub fn close_force_majeure(
    state: &mut ForceMajeureState,
    caller: &Account,
    outage_id: &Symbol,
    at: u64,
) -> (r: Result<u64, ForceMajeureError>)
    requires
        old(state).wf(),
    ensures
        final(state).wf(),
        ({
            match close_refusal(old(state), caller@, outage_id@, at) {
                Some(e) => r == Err::<u64, ForceMajeureError>(e) && *final(state) == *old(state),
                None => {
                    let entry = old(state).records()[outage_id@];
                    let closure = if at < entry.excused_until {
                        at
                    } else {
                        entry.excused_until
                    };
                    &&& r == Ok::<u64, ForceMajeureError>(closure)
                    &&& final(state).records() == old(state).records().insert(
                        outage_id@,
                        ForceMajeureRecord { closed_at: at, ..entry },
                    )
                    &&& final(state).governance_of() == old(state).governance_of()
                    &&& final(state).event_log() == old(state).event_log().push(
                        ForceMajeureEvent::Excuse { outage_id: *outage_id, closure },
                    ).push(ForceMajeureEvent::Closed { outage_id: *outage_id, at })
                },
            }
        }),
{
    if !is_governance(state, caller) {
        return Err(ForceMajeureError::NotGovernance);
    }
    let entry = match record(state, outage_id) {
        Some(e) => e,
        None => return Err(ForceMajeureError::NotRecorded),
    };
    if entry.closed_at != 0 {
        return Err(ForceMajeureError::AlreadyClosed);
    }
    if at < entry.excused_until {
        return Err(ForceMajeureError::StillRunning);
    }
    let closure = if at < entry.excused_until {
        at
    } else {
        entry.excused_until
    };
    let updated = ForceMajeureRecord { closed_at: at, ..entry };
    state.records.set(outage_id.text.clone(), updated);
    state.events.push(ForceMajeureEvent::Excuse { outage_id: outage_id.clone(), closure });
    state.events.push(ForceMajeureEvent::Closed { outage_id: outage_id.clone(), at });
    Ok(closure)
}

/// Seconds of the outage excused up to `at`: from the start of the window
/// to `at`, or to the window's end (an early closing cuts it short) once
/// `at` is past it; nothing before the start or without a record.
pub open spec fn excused_seconds_at(state: &ForceMajeureState, outage_id: Seq<char>, at: u64) -> int {
    if !state.records().contains_key(outage_id) {
        0
    } else {
        let e = state.records()[outage_id];
        if at <= e.started_at {
            0
        } else {
            let end = if e.closed_at != 0 && e.closed_at < e.excused_until {
                e.closed_at
            } else {
                e.excused_until
            };
            if at <= end {
                at - e.started_at
            } else if end > e.started_at {
                end - e.started_at
            } else {
                0
            }
        }
    }
}

pub fn excused_seconds(state: &ForceMajeureState, outage_id: &Symbol, at: u64) -> (s: u64)
    requires
        state.wf(),
    ensures
        s == excused_seconds_at(state, outage_id@, at),
{
    let entry = match state.records.get(&outage_id.text) {
        Some(value) => value,
        None => return 0,
    };
    if at <= entry.started_at {
        return 0;
    }
    let end = if entry.closed_at != 0 && entry.closed_at < entry.excused_until {
        entry.closed_at
    } else {
        entry.excused_until
    };
    if at <= end {
        at - entry.started_at
    } else {
        end.saturating_sub(entry.started_at)
    }
}

/// The excused time never exceeds the window governance granted, and so
/// never a day.
pub proof fn lemma_excuse_within_grant(state: &ForceMajeureState, outage_id: Seq<char>, at: u64)
    requires
        state.wf(),
    ensures
        0 <= excused_seconds_at(state, outage_id, at),
        state.records().contains_key(outage_id) ==> excused_seconds_at(state, outage_id, at)
            <= state.records()[outage_id].excused_until - state.records()[outage_id].started_at,
        excused_seconds_at(state, outage_id, at) <= MAX_EXCUSE_S,
{
    if state.records().contains_key(outage_id) {
        assert(admissible(state.records()[outage_id]));
    }
}

} // verus!
