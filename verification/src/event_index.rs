use vstd::prelude::*;
use crate::ident::Symbol;
use crate::sla::{SLAError, SLAResult};

verus! {

/// Where one calculation sits in the history, with the fields queries
/// look it up by.
#[derive(Debug)]
pub struct EventIndexEntry {
    pub position: u32,
    pub outage_id: Symbol,
    pub recorded_at: u64,
    pub status: Symbol,
    pub payment_type: Symbol,
}

impl Clone for EventIndexEntry {
    fn clone(&self) -> (e: Self)
        ensures
            e == *self,
    {
        EventIndexEntry {
            position: self.position,
            outage_id: self.outage_id.clone(),
            recorded_at: self.recorded_at,
            status: self.status.clone(),
            payment_type: self.payment_type.clone(),
        }
    }
}

/// The index over the history: one entry per calculation, in order.
#[derive(Debug)]
pub struct EventIndex {
    pub entries: Vec<EventIndexEntry>,
    pub count: u32,
}

/// The calculation history and the index stored over it (absent until
/// built, and after it is invalidated).
pub struct IndexState {
    pub history: Vec<SLAResult>,
    pub index: Option<EventIndex>,
}

/// The index entry of the calculation at `i`.
pub open spec fn entry_for(history: Seq<SLAResult>, i: int) -> EventIndexEntry {
    EventIndexEntry {
        position: i as u32,
        outage_id: history[i].outage_id,
        recorded_at: history[i].recorded_at,
        status: history[i].status,
        payment_type: history[i].payment_type,
    }
}

/// The index entries of a whole history.
pub open spec fn entries_for(history: Seq<SLAResult>) -> Seq<EventIndexEntry> {
    Seq::new(history.len(), |i: int| entry_for(history, i))
}

/// The entries queries use: the stored index's, or those of the history
/// when none is stored.
pub open spec fn entries_in_force(state: &IndexState) -> Seq<EventIndexEntry> {
    match state.index {
        Some(ix) => ix.entries@,
        None => entries_for(state.history@),
    }
}

/// The count reported with the index in force.
pub open spec fn count_in_force(state: &IndexState) -> u32 {
    match state.index {
        Some(ix) => ix.count,
        None => state.history@.len() as u32,
    }
}

fn copy_entries(v: &Vec<EventIndexEntry>) -> (r: Vec<EventIndexEntry>)
    ensures
        r@ == v@,
{
    let mut r: Vec<EventIndexEntry> = Vec::new();
    let mut i: usize = 0;
    while i < v.len()
        invariant
            i <= v.len(),
            r@ == v@.subrange(0, i as int),
        decreases v.len() - i,
    {
        r.push(v[i].clone());
        i = i + 1;
    }
    assert(v@.subrange(0, v.len() as int) =~= v@);
    r
}

/// Builds the index over the whole history, stores it and returns a copy.
pub fn build_event_index(state: &mut IndexState) -> (r: Result<EventIndex, SLAError>)
    requires
        old(state).history@.len() <= u32::MAX,
    ensures
        final(state).history == old(state).history,
        final(state).index matches Some(ix) && ix.entries@ == entries_for(old(state).history@)
            && ix.count == old(state).history@.len(),
        r matches Ok(ix) && ix.entries@ == entries_for(old(state).history@) && ix.count
            == old(state).history@.len(),
{
    let mut entries: Vec<EventIndexEntry> = Vec::new();
    let n = state.history.len();
    let mut i: usize = 0;
    while i < n
        invariant
            n == state.history@.len(),
            n <= u32::MAX,
            i <= n,
            entries@ == entries_for(state.history@).subrange(0, i as int),
        decreases n - i,
    {
        let result = &state.history[i];
        entries.push(
            EventIndexEntry {
                position: i as u32,
                outage_id: result.outage_id.clone(),
                recorded_at: result.recorded_at,
                status: result.status.clone(),
                payment_type: result.payment_type.clone(),
            },
        );
        assert(entries@ =~= entries_for(state.history@).subrange(0, i + 1));
        i = i + 1;
    }
    assert(entries@ =~= entries_for(state.history@));
    let count = n as u32;
    let copy = EventIndex { entries: copy_entries(&entries), count };
    state.index = Some(EventIndex { entries, count });
    Ok(copy)
}

/// The stored index, built first when none is stored.
pub fn get_event_index(state: &mut IndexState) -> (r: Result<EventIndex, SLAError>)
    requires
        old(state).history@.len() <= u32::MAX,
    ensures
        final(state).history == old(state).history,
        final(state).index is Some,
        entries_in_force(final(state)) == entries_in_force(old(state)),
        count_in_force(final(state)) == count_in_force(old(state)),
        r matches Ok(ix) && ix.entries@ == entries_in_force(old(state)) && ix.count
            == count_in_force(old(state)),
{
    match &state.index {
        Some(index) => Ok(EventIndex { entries: copy_entries(&index.entries), count: index.count }),
        None => build_event_index(state),
    }
}

/// What an index query keeps.
pub enum IndexQuery {
    Outage(Symbol),
    Status(Symbol),
    PaymentType(Symbol),
    Between(u64, u64),
}

pub open spec fn query_keeps(q: IndexQuery, e: EventIndexEntry) -> bool {
    match q {
        IndexQuery::Outage(id) => e.outage_id@ == id@,
        IndexQuery::Status(s) => e.status@ == s@,
        IndexQuery::PaymentType(p) => e.payment_type@ == p@,
        IndexQuery::Between(from, to) => from <= e.recorded_at <= to,
    }
}

/// The history positions of the entries in force that `q` keeps, in
/// order.
pub open spec fn query_positions(state: &IndexState, q: IndexQuery) -> Seq<u32> {
    entries_in_force(state).filter(|e: EventIndexEntry| query_keeps(q, e)).map_values(
        |e: EventIndexEntry| e.position,
    )
}

fn run_query(state: &mut IndexState, q: &IndexQuery) -> (r: Result<Vec<u32>, SLAError>)
    requires
        old(state).history@.len() <= u32::MAX,
    ensures
        final(state).history == old(state).history,
        final(state).index is Some,
        entries_in_force(final(state)) == entries_in_force(old(state)),
        count_in_force(final(state)) == count_in_force(old(state)),
        r matches Ok(v) && v@ == query_positions(old(state), *q),
{
    let index = match get_event_index(state) {
        Ok(ix) => ix,
        Err(e) => return Err(e),
    };
    let ghost all = index.entries@;
    let ghost keep = |e: EventIndexEntry| query_keeps(*q, e);
    let mut positions: Vec<u32> = Vec::new();
    let mut i: usize = 0;
    while i < index.entries.len()
        invariant
            all == index.entries@,
            keep == (|e: EventIndexEntry| query_keeps(*q, e)),
            i <= index.entries.len(),
            positions@ == all.subrange(0, i as int).filter(keep).map_values(
                |e: EventIndexEntry| e.position,
            ),
        decreases index.entries.len() - i,
    {
        let entry = &index.entries[i];
        let wanted = match q {
            IndexQuery::Outage(id) => entry.outage_id == *id,
            IndexQuery::Status(s) => entry.status == *s,
            IndexQuery::PaymentType(p) => entry.payment_type == *p,
            IndexQuery::Between(from, to) => entry.recorded_at >= *from && entry.recorded_at <= *to,
        };
        proof {
            reveal(Seq::filter);
            assert(all.subrange(0, i + 1).drop_last() =~= all.subrange(0, i as int));
        }
        if wanted {
            positions.push(entry.position);
        }
        assert(positions@ =~= all.subrange(0, i + 1).filter(keep).map_values(
            |e: EventIndexEntry| e.position,
        ));
        i = i + 1;
    }
    assert(all.subrange(0, index.entries.len() as int) =~= all);
    Ok(positions)
}

/// History positions of the calculations for `outage_id`.
pub fn find_events_by_outage(state: &mut IndexState, outage_id: &Symbol) -> (r: Result<
    Vec<u32>,
    SLAError,
>)
    requires
        old(state).history@.len() <= u32::MAX,
    ensures
        final(state).history == old(state).history,
        entries_in_force(final(state)) == entries_in_force(old(state)),
        r matches Ok(v) && v@ == query_positions(old(state), IndexQuery::Outage(*outage_id)),
{
    run_query(state, &IndexQuery::Outage(outage_id.clone()))
}

/// History positions of the calculations with status `status`.
pub fn find_events_by_status(state: &mut IndexState, status: &Symbol) -> (r: Result<
    Vec<u32>,
    SLAError,
>)
    requires
        old(state).history@.len() <= u32::MAX,
    ensures
        final(state).history == old(state).history,
        entries_in_force(final(state)) == entries_in_force(old(state)),
        r matches Ok(v) && v@ == query_positions(old(state), IndexQuery::Status(*status)),
{
    run_query(state, &IndexQuery::Status(status.clone()))
}

/// History positions of the calculations with payment type
/// `payment_type`.
pub fn find_events_by_payment_type(state: &mut IndexState, payment_type: &Symbol) -> (r: Result<
    Vec<u32>,
    SLAError,
>)
    requires
        old(state).history@.len() <= u32::MAX,
    ensures
        final(state).history == old(state).history,
        entries_in_force(final(state)) == entries_in_force(old(state)),
        r matches Ok(v) && v@ == query_positions(
            old(state),
            IndexQuery::PaymentType(*payment_type),
        ),
{
    run_query(state, &IndexQuery::PaymentType(payment_type.clone()))
}

/// History positions of the calculations recorded from `from_timestamp`
/// to `to_timestamp`, both included.
pub fn find_events_in_range(state: &mut IndexState, from_timestamp: u64, to_timestamp: u64) -> (r:
    Result<Vec<u32>, SLAError>)
    requires
        old(state).history@.len() <= u32::MAX,
    ensures
        final(state).history == old(state).history,
        entries_in_force(final(state)) == entries_in_force(old(state)),
        r matches Ok(v) && v@ == query_positions(
            old(state),
            IndexQuery::Between(from_timestamp, to_timestamp),
        ),
{
    run_query(state, &IndexQuery::Between(from_timestamp, to_timestamp))
}

/// The index's entry count and the timestamp of its last entry (zero when
/// it is empty).
pub fn get_index_metadata(state: &mut IndexState) -> (r: Result<(u32, u64), SLAError>)
    requires
        old(state).history@.len() <= u32::MAX,
    ensures
        final(state).history == old(state).history,
        entries_in_force(final(state)) == entries_in_force(old(state)),
        ({
            let entries = entries_in_force(old(state));
            r == Ok::<(u32, u64), SLAError>(
                (
                    count_in_force(old(state)),
                    if entries.len() > 0 {
                        entries.last().recorded_at
                    } else {
                        0
                    },
                ),
            )
        }),
{
    let index = match get_event_index(state) {
        Ok(ix) => ix,
        Err(e) => return Err(e),
    };
    let latest_timestamp = if index.entries.len() > 0 {
        index.entries[index.entries.len() - 1].recorded_at
    } else {
        0
    };
    Ok((index.count, latest_timestamp))
}

/// Drops the stored index; the next query rebuilds it.
pub fn invalidate_index(state: &mut IndexState)
    ensures
        final(state).history == old(state).history,
        final(state).index is None,
{
    state.index = None;
}

/// A freshly built index finds exactly the calculations a query asks
/// for: the positions it returns hold matching calculations, in order,
/// and every matching calculation's position is among them.
pub proof fn lemma_fresh_index_is_exact(history: Seq<SLAResult>, q: IndexQuery, i: int)
    requires
        history.len() <= u32::MAX,
        0 <= i < history.len(),
    ensures
        query_keeps(q, entry_for(history, i)) ==> entries_for(history).filter(
            |e: EventIndexEntry| query_keeps(q, e),
        ).contains(entry_for(history, i)),
        entry_for(history, i).position == i,
{
    let keep = |e: EventIndexEntry| query_keeps(q, e);
    if query_keeps(q, entry_for(history, i)) {
        entries_for(history).lemma_filter_contains(keep, i);
    }
}

} // verus!
