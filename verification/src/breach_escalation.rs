use vstd::prelude::*;
use crate::ident::Account;
use crate::table::Table;

verus! {

pub const BPS_DENOMINATOR: u32 = 10_000;
pub const FIRST_BREACH_FACTOR_BPS: u32 = 10_000;
pub const STEP_FACTOR_BPS: u32 = 2_000;
pub const MAX_FACTOR_BPS: u32 = 28_000;
pub const MAX_STRIKES: u32 = 10;
pub const MAX_PENALTY_BPS: u32 = 20_000;

#[derive(Clone, Copy, Debug, PartialEq, Eq, Structural)]
pub enum EscalationError {
    ZeroPenalty,
    PenaltyOutOfRange,
}

#[derive(Clone, Copy, Debug, PartialEq, Eq, Structural)]
pub struct BreachRecord {
    pub breaches: u32,
    pub factor_bps: u32,
    pub last_breach_at: u64,
    pub escalated_penalty_bps: u32,
}

#[derive(Clone, Copy, Debug, PartialEq, Eq, Structural)]
pub struct PenaltyTerms {
    pub base_penalty_bps: u32,
    pub factor_bps: u32,
    pub effective_penalty_bps: u32,
}

/// What the breach book publishes.
pub enum BreachEvent {
    /// A provider's streak after a recorded breach.
    Strike { provider: Account, breaches: u32 },
    /// The escalation factor that now applies to a provider.
    Factor { provider: Account, factor_bps: u32 },
    /// A provider's streak was cleared; `cleared` strikes were dropped.
    Cleared { provider: Account, cleared: u32 },
}

/// Per-provider breach streaks, as kept in persistent storage.
pub struct BreachBook {
    records: Table<BreachRecord>,
    events: Vec<BreachEvent>,
}

/// Escalation factor for a streak of `breaches`: the base factor for none
/// or one breach, one step more for each further breach, at most
/// `MAX_FACTOR_BPS`.
pub open spec fn escalation_factor(breaches: u32) -> u32 {
    if breaches == 0 {
        FIRST_BREACH_FACTOR_BPS
    } else {
        let capped = if breaches > MAX_STRIKES { MAX_STRIKES } else { breaches };
        let factor = FIRST_BREACH_FACTOR_BPS + (capped - 1) * STEP_FACTOR_BPS;
        if factor > MAX_FACTOR_BPS { MAX_FACTOR_BPS } else { factor as u32 }
    }
}

/// The base penalty scaled by the factor, at most `MAX_PENALTY_BPS`.
pub open spec fn effective_penalty(base_penalty_bps: u32, factor_bps: u32) -> u32 {
    let scaled = (base_penalty_bps as int * factor_bps as int) / BPS_DENOMINATOR as int;
    if scaled > MAX_PENALTY_BPS { MAX_PENALTY_BPS } else { scaled as u32 }
}

/// The streak after one more breach, given the stored record.
pub open spec fn next_breaches(previous: Option<BreachRecord>) -> u32 {
    match previous {
        Some(r) => if r.breaches < MAX_STRIKES { (r.breaches + 1) as u32 } else { MAX_STRIKES },
        None => 1,
    }
}

impl BreachBook {
    pub closed spec fn records(&self) -> Map<Seq<char>, BreachRecord> {
        self.records@
    }

    pub closed spec fn event_log(&self) -> Seq<BreachEvent> {
        self.events@
    }

    /// Every stored streak is between one and `MAX_STRIKES` breaches and
    /// carries the factor that its length calls for.
    pub closed spec fn wf(&self) -> bool {
        &&& self.records.wf()
        &&& forall|k: Seq<char>| #[trigger]
            self.records@.contains_key(k) ==> 1 <= self.records@[k].breaches <= MAX_STRIKES
                && self.records@[k].factor_bps == escalation_factor(self.records@[k].breaches)
    }

    pub open spec fn record_of(&self, provider: Seq<char>) -> Option<BreachRecord> {
        if self.records().contains_key(provider) {
            Some(self.records()[provider])
        } else {
            None
        }
    }

    pub open spec fn count_of(&self, provider: Seq<char>) -> u32 {
        match self.record_of(provider) {
            Some(r) => r.breaches,
            None => 0,
        }
    }

    pub fn new() -> (b: Self)
        ensures
            b.wf(),
            b.records() == Map::<Seq<char>, BreachRecord>::empty(),
            b.event_log() == Seq::<BreachEvent>::empty(),
    {
        BreachBook { records: Table::new(), events: Vec::new() }
    }

    pub fn events(&self) -> (e: &Vec<BreachEvent>)
        ensures
            e@ == self.event_log(),
    {
        &self.events
    }
}

/// The stored breach streaks.
pub fn breach_map(book: &BreachBook) -> (m: &Table<BreachRecord>)
    requires
        book.wf(),
    ensures
        m.wf(),
        m@ == book.records(),
{
    &book.records
}

pub fn breach_record(book: &BreachBook, provider: &Account) -> (r: Option<BreachRecord>)
    requires
        book.wf(),
    ensures
        r == book.record_of(provider@),
{
    match book.records.get(&provider.text) {
        Some(record) => Some(*record),
        None => None,
    }
}

pub fn breach_count(book: &BreachBook, provider: &Account) -> (n: u32)
    requires
        book.wf(),
    ensures
        n == book.count_of(provider@),
        n <= MAX_STRIKES,
{
    match book.records.get(&provider.text) {
        Some(record) => record.breaches,
        None => 0,
    }
}

pub fn escalation_factor_bps(breaches: u32) -> (f: u32)
    ensures
        f == escalation_factor(breaches),
        FIRST_BREACH_FACTOR_BPS <= f <= MAX_FACTOR_BPS,
{
    if breaches == 0 {
        return FIRST_BREACH_FACTOR_BPS;
    }
    let capped = if breaches > MAX_STRIKES {
        MAX_STRIKES
    } else {
        breaches
    };
    let factor = FIRST_BREACH_FACTOR_BPS + (capped - 1) * STEP_FACTOR_BPS;
    if factor > MAX_FACTOR_BPS {
        MAX_FACTOR_BPS
    } else {
        factor
    }
}

pub fn effective_penalty_bps(base_penalty_bps: u32, factor_bps: u32) -> (p: u32)
    ensures
        p == effective_penalty(base_penalty_bps, factor_bps),
        p <= MAX_PENALTY_BPS,
{
    let base = base_penalty_bps as u64;
    let factor = factor_bps as u64;
    assert(base * factor <= u32::MAX as int * u32::MAX as int) by (nonlinear_arith)
        requires
            base <= u32::MAX,
            factor <= u32::MAX,
    ;
    let scaled = (base * factor) / (BPS_DENOMINATOR as u64);
    if scaled > MAX_PENALTY_BPS as u64 {
        MAX_PENALTY_BPS
    } else {
        scaled as u32
    }
}

/// The terms a provider faces now: the factor its current streak calls for
/// and the base penalty scaled by it.
pub fn penalty_terms(book: &BreachBook, provider: &Account, base_penalty_bps: u32) -> (t:
    PenaltyTerms)
    requires
        book.wf(),
    ensures
        t.base_penalty_bps == base_penalty_bps,
        t.factor_bps == escalation_factor(book.count_of(provider@)),
        t.effective_penalty_bps == effective_penalty(base_penalty_bps, t.factor_bps),
{
    let factor_bps = escalation_factor_bps(breach_count(book, provider));
    PenaltyTerms {
        base_penalty_bps,
        factor_bps,
        effective_penalty_bps: effective_penalty_bps(base_penalty_bps, factor_bps),
    }
}

/// Records one more breach for `provider`, escalating its factor. A zero
/// base penalty, or one above `MAX_PENALTY_BPS`, is refused and changes
/// nothing.
pub fn record_breach(
    book: &mut BreachBook,
    provider: &Account,
    base_penalty_bps: u32,
    breached_at: u64,
) -> (r: Result<BreachRecord, EscalationError>)
    requires
        old(book).wf(),
    ensures
        final(book).wf(),
        base_penalty_bps == 0 ==> r == Err::<BreachRecord, EscalationError>(
            EscalationError::ZeroPenalty,
        ),
        base_penalty_bps > MAX_PENALTY_BPS ==> r == Err::<BreachRecord, EscalationError>(
            EscalationError::PenaltyOutOfRange,
        ),
        r is Err ==> *final(book) == *old(book),
        (base_penalty_bps != 0 && base_penalty_bps <= MAX_PENALTY_BPS) ==> {
            let breaches = next_breaches(old(book).record_of(provider@));
            let factor = escalation_factor(breaches);
            let rec = BreachRecord {
                breaches,
                factor_bps: factor,
                last_breach_at: breached_at,
                escalated_penalty_bps: effective_penalty(base_penalty_bps, factor),
            };
            &&& r == Ok::<BreachRecord, EscalationError>(rec)
            &&& final(book).records() == old(book).records().insert(provider@, rec)
            &&& final(book).event_log() == old(book).event_log().push(
                BreachEvent::Strike { provider: *provider, breaches },
            ).push(BreachEvent::Factor { provider: *provider, factor_bps: factor })
        },
{
    if base_penalty_bps == 0 {
        return Err(EscalationError::ZeroPenalty);
    }
    if base_penalty_bps > MAX_PENALTY_BPS {
        return Err(EscalationError::PenaltyOutOfRange);
    }
    let previous = breach_record(book, provider);
    let breaches = match previous {
        Some(record) => if record.breaches < MAX_STRIKES {
            record.breaches + 1
        } else {
            MAX_STRIKES
        },
        None => 1,
    };
    let factor_bps = escalation_factor_bps(breaches);
    let updated = BreachRecord {
        breaches,
        factor_bps,
        last_breach_at: breached_at,
        escalated_penalty_bps: effective_penalty_bps(base_penalty_bps, factor_bps),
    };
    book.records.set(provider.text.clone(), updated);
    book.events.push(BreachEvent::Strike { provider: provider.clone(), breaches });
    book.events.push(BreachEvent::Factor { provider: provider.clone(), factor_bps });
    Ok(updated)
}

/// Drops a provider's streak and reports how many strikes it had.
pub fn clear_strikes(book: &mut BreachBook, provider: &Account) -> (cleared: u32)
    requires
        old(book).wf(),
    ensures
        final(book).wf(),
        cleared == old(book).count_of(provider@),
        final(book).records() == old(book).records().remove(provider@),
        final(book).event_log() == old(book).event_log().push(
            BreachEvent::Cleared { provider: *provider, cleared },
        ),
{
    let cleared = breach_count(book, provider);
    book.records.remove(&provider.text);
    book.events.push(BreachEvent::Cleared { provider: provider.clone(), cleared });
    cleared
}

/// A longer streak never lowers the escalation factor, and the factor
/// always stays between the base factor and `MAX_FACTOR_BPS`.
pub proof fn lemma_escalation_monotone(fewer: u32, more: u32)
    requires
        fewer <= more,
    ensures
        escalation_factor(fewer) <= escalation_factor(more),
        FIRST_BREACH_FACTOR_BPS <= escalation_factor(more) <= MAX_FACTOR_BPS,
{
}

/// Scaling by any factor at or above the base factor never lowers a
/// penalty below the base (up to the cap), so a non-zero base penalty
/// never scales down to zero.
pub proof fn lemma_scaling_keeps_base(base_penalty_bps: u32, factor_bps: u32)
    requires
        factor_bps >= FIRST_BREACH_FACTOR_BPS,
    ensures
        effective_penalty(base_penalty_bps, factor_bps) >= if base_penalty_bps
            > MAX_PENALTY_BPS {
            MAX_PENALTY_BPS
        } else {
            base_penalty_bps
        },
{
    assert(base_penalty_bps as int * factor_bps as int >= base_penalty_bps as int
        * FIRST_BREACH_FACTOR_BPS as int) by (nonlinear_arith)
        requires
            factor_bps >= FIRST_BREACH_FACTOR_BPS,
    ;
}

} // verus!
