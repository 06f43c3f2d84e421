use vstd::prelude::*;
use crate::ident::{byte_len, utf8_len, Symbol};
use crate::table::Table;

verus! {

/// Bytes a stored outage summary takes.
pub const SUMMARY_BYTES: u32 = 32;

/// An outage with its free-text description and metadata.
#[derive(Debug, PartialEq)]
pub struct DetailedOutageRecord {
    pub outage_id: Symbol,
    pub start_timestamp: u64,
    pub end_timestamp: u64,
    pub severity: u32,
    pub description: String,
    pub metadata: String,
}

impl Clone for DetailedOutageRecord {
    fn clone(&self) -> (r: Self)
        ensures
            r == *self,
    {
        DetailedOutageRecord {
            outage_id: self.outage_id.clone(),
            start_timestamp: self.start_timestamp,
            end_timestamp: self.end_timestamp,
            severity: self.severity,
            description: self.description.clone(),
            metadata: self.metadata.clone(),
        }
    }
}

/// What an outage keeps once compacted: its id, its window and its
/// severity.
#[derive(Debug, PartialEq)]
pub struct OutageSummary {
    pub outage_id: Symbol,
    pub start_timestamp: u64,
    pub end_timestamp: u64,
    pub severity: u32,
}

impl Clone for OutageSummary {
    fn clone(&self) -> (s: Self)
        ensures
            s == *self,
    {
        OutageSummary {
            outage_id: self.outage_id.clone(),
            start_timestamp: self.start_timestamp,
            end_timestamp: self.end_timestamp,
            severity: self.severity,
        }
    }
}

/// What compaction publishes: the outage and the summary's size.
pub enum CompactionEvent {
    Compacted { outage_id: Symbol, bytes: u32 },
}

/// The summaries and the detailed records by outage id, as kept in
/// persistent storage, with the events published.
pub struct CompactionStore {
    summaries: Table<OutageSummary>,
    details: Table<DetailedOutageRecord>,
    events: Vec<CompactionEvent>,
}

impl CompactionStore {
    pub closed spec fn summaries(&self) -> Map<Seq<char>, OutageSummary> {
        self.summaries@
    }

    pub closed spec fn details(&self) -> Map<Seq<char>, DetailedOutageRecord> {
        self.details@
    }

    pub closed spec fn event_log(&self) -> Seq<CompactionEvent> {
        self.events@
    }

    pub closed spec fn wf(&self) -> bool {
        self.summaries.wf() && self.details.wf()
    }

    /// Nothing stored, nothing published.
    pub fn new() -> (s: Self)
        ensures
            s.wf(),
            s.summaries() == Map::<Seq<char>, OutageSummary>::empty(),
            s.details() == Map::<Seq<char>, DetailedOutageRecord>::empty(),
            s.event_log() == Seq::<CompactionEvent>::empty(),
    {
        CompactionStore { summaries: Table::new(), details: Table::new(), events: Vec::new() }
    }

    pub fn events(&self) -> (e: &Vec<CompactionEvent>)
        ensures
            e@ == self.event_log(),
    {
        &self.events
    }
}

/// The summary of a detailed record.
pub open spec fn summary_of(record: DetailedOutageRecord) -> OutageSummary {
    OutageSummary {
        outage_id: record.outage_id,
        start_timestamp: record.start_timestamp,
        end_timestamp: record.end_timestamp,
        severity: record.severity,
    }
}

/// Drops the free text, keeping the id, the window and the severity.
pub fn compact(record: &DetailedOutageRecord) -> (s: OutageSummary)
    ensures
        s == summary_of(*record),
{
    OutageSummary {
        outage_id: record.outage_id.clone(),
        start_timestamp: record.start_timestamp,
        end_timestamp: record.end_timestamp,
        severity: record.severity,
    }
}

/// Bytes a summary takes.
pub fn summary_bytes() -> (b: u32)
    ensures
        b == SUMMARY_BYTES,
{
    SUMMARY_BYTES
}

/// Bytes a detailed record takes: 24 for the fixed fields, and each text
/// with a 4-byte length prefix, capped at `u32::MAX`.
pub open spec fn verbose_size(record: DetailedOutageRecord) -> int {
    let total = 24 + 4 + utf8_len(record.description@) + 4 + utf8_len(record.metadata@);
    if total > u32::MAX {
        u32::MAX as int
    } else {
        total
    }
}

/// The two texts with their length prefixes fit a `u32`.
pub open spec fn texts_fit(record: DetailedOutageRecord) -> bool {
    8 + utf8_len(record.description@) + utf8_len(record.metadata@) <= u32::MAX
}

pub fn verbose_bytes(record: &DetailedOutageRecord) -> (b: u32)
    requires
        texts_fit(*record),
    ensures
        b == verbose_size(*record),
{
    let fixed: u32 = 4 + 8 + 8 + 4;
    let description = byte_len(&record.description) as u32;
    let metadata = byte_len(&record.metadata) as u32;
    let strings: u32 = 4 + description + 4 + metadata;
    fixed.saturating_add(strings)
}

/// Bytes saved by keeping only the summary (none when the record is no
/// larger).
pub fn byte_reduction(record: &DetailedOutageRecord) -> (b: u32)
    requires
        texts_fit(*record),
    ensures
        b == if verbose_size(*record) > SUMMARY_BYTES {
            verbose_size(*record) - SUMMARY_BYTES
        } else {
            0
        },
{
    verbose_bytes(record).saturating_sub(SUMMARY_BYTES)
}

/// Stores a summary under its outage id and publishes its size.
pub fn store_summary(store: &mut CompactionStore, summary: &OutageSummary)
    requires
        old(store).wf(),
    ensures
        final(store).wf(),
        final(store).summaries() == old(store).summaries().insert(summary.outage_id@, *summary),
        final(store).details() == old(store).details(),
        final(store).event_log() == old(store).event_log().push(
            CompactionEvent::Compacted { outage_id: summary.outage_id, bytes: SUMMARY_BYTES },
        ),
{
    store.summaries.set(summary.outage_id.text.clone(), summary.clone());
    store.events.push(
        CompactionEvent::Compacted { outage_id: summary.outage_id.clone(), bytes: summary_bytes() },
    );
}

pub fn load_summary(store: &CompactionStore, outage_id: &Symbol) -> (s: Option<OutageSummary>)
    requires
        store.wf(),
    ensures
        s is Some <==> store.summaries().contains_key(outage_id@),
        s matches Some(x) ==> x == store.summaries()[outage_id@],
{
    match store.summaries.get(&outage_id.text) {
        Some(s) => Some(s.clone()),
        None => None,
    }
}

/// Stores a detailed record under its outage id.
pub fn store_detailed(store: &mut CompactionStore, record: &DetailedOutageRecord)
    requires
        old(store).wf(),
    ensures
        final(store).wf(),
        final(store).details() == old(store).details().insert(record.outage_id@, *record),
        final(store).summaries() == old(store).summaries(),
        final(store).event_log() == old(store).event_log(),
{
    store.details.set(record.outage_id.text.clone(), record.clone());
}

pub fn load_detailed(store: &CompactionStore, outage_id: &Symbol) -> (r: Option<DetailedOutageRecord>)
    requires
        store.wf(),
    ensures
        r is Some <==> store.details().contains_key(outage_id@),
        r matches Some(x) ==> x == store.details()[outage_id@],
{
    match store.details.get(&outage_id.text) {
        Some(r) => Some(r.clone()),
        None => None,
    }
}

/// Removes the detailed record of `outage_id`, reporting whether there
/// was one.
pub fn evict_details(store: &mut CompactionStore, outage_id: &Symbol) -> (b: bool)
    requires
        old(store).wf(),
    ensures
        final(store).wf(),
        b == old(store).details().contains_key(outage_id@),
        final(store).details() == old(store).details().remove(outage_id@),
        final(store).summaries() == old(store).summaries(),
        final(store).event_log() == old(store).event_log(),
{
    if !store.details.contains_key(&outage_id.text) {
        assert(store.details@ =~= store.details@.remove(outage_id@));
        return false;
    }
    store.details.remove(&outage_id.text);
    true
}

/// Replaces an outage's detailed record by its summary and returns the
/// summary.
pub fn compact_outage(store: &mut CompactionStore, record: &DetailedOutageRecord) -> (s: OutageSummary)
    requires
        old(store).wf(),
    ensures
        final(store).wf(),
        s == summary_of(*record),
        final(store).summaries() == old(store).summaries().insert(record.outage_id@, s),
        final(store).details() == old(store).details().remove(record.outage_id@),
        final(store).event_log() == old(store).event_log().push(
            CompactionEvent::Compacted { outage_id: record.outage_id, bytes: SUMMARY_BYTES },
        ),
{
    let summary = compact(record);
    store_summary(store, &summary);
    evict_details(store, &record.outage_id);
    summary
}

/// Compaction keeps the audit trail: the stored summary carries the
/// outage's id, window and severity, and the detailed record is gone.
pub proof fn lemma_compaction_keeps_audit_trail(
    before: &CompactionStore,
    after: &CompactionStore,
    record: DetailedOutageRecord,
)
    requires
        after.summaries() == before.summaries().insert(record.outage_id@, summary_of(record)),
        after.details() == before.details().remove(record.outage_id@),
    ensures
        after.summaries().contains_key(record.outage_id@),
        after.summaries()[record.outage_id@].outage_id == record.outage_id,
        after.summaries()[record.outage_id@].start_timestamp == record.start_timestamp,
        after.summaries()[record.outage_id@].end_timestamp == record.end_timestamp,
        after.summaries()[record.outage_id@].severity == record.severity,
        !after.details().contains_key(record.outage_id@),
{
}

} // verus!
