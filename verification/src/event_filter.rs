use vstd::prelude::*;
use crate::ident::Symbol;
use crate::sla::{SLAError, SLAResult};

verus! {

/// A stored query over the calculation history.
pub struct EventFilter {
    pub from_timestamp: Option<u64>,
    pub to_timestamp: Option<u64>,
    pub status_filter: Option<Symbol>,
    pub payment_type_filter: Option<Symbol>,
    pub limit: u32,
    pub offset: u32,
}

/// Whether a history entry passes the time window (both ends inclusive)
/// and the optional status and payment-type filters.
pub open spec fn entry_matches(
    entry: SLAResult,
    from_timestamp: Option<u64>,
    to_timestamp: Option<u64>,
    status_filter: Option<Symbol>,
    payment_type_filter: Option<Symbol>,
) -> bool {
    &&& (from_timestamp matches Some(from) ==> entry.recorded_at >= from)
    &&& (to_timestamp matches Some(to) ==> entry.recorded_at <= to)
    &&& (status_filter matches Some(status) ==> entry.status@ == status@)
    &&& (payment_type_filter matches Some(payment) ==> entry.payment_type@ == payment@)
}

/// The entries of `history` that pass the filters, in history order.
pub open spec fn matching(
    history: Seq<SLAResult>,
    from_timestamp: Option<u64>,
    to_timestamp: Option<u64>,
    status_filter: Option<Symbol>,
    payment_type_filter: Option<Symbol>,
) -> Seq<SLAResult>
    decreases history.len(),
{
    if history.len() == 0 {
        Seq::empty()
    } else {
        let earlier = matching(
            history.drop_last(),
            from_timestamp,
            to_timestamp,
            status_filter,
            payment_type_filter,
        );
        if entry_matches(
            history.last(),
            from_timestamp,
            to_timestamp,
            status_filter,
            payment_type_filter,
        ) {
            earlier.push(history.last())
        } else {
            earlier
        }
    }
}

/// The page of `items` that skips `offset` entries and keeps at most
/// `limit`.
pub open spec fn page(items: Seq<SLAResult>, offset: u32, limit: u32) -> Seq<SLAResult> {
    if items.len() <= offset {
        Seq::empty()
    } else if items.len() <= offset + limit {
        items.subrange(offset as int, items.len() as int)
    } else {
        items.subrange(offset as int, offset + limit)
    }
}

/// Whether the entries of `s` are in ascending `recorded_at` order.
pub open spec fn sorted_by_time(s: Seq<SLAResult>) -> bool {
    forall|i: int, j: int|
        0 <= i < j < s.len() ==> #[trigger] s[i].recorded_at <= #[trigger] s[j].recorded_at
}

/// `e` placed into `s` after every entry recorded no later than it (and
/// before the later ones at the end of `s`).
pub open spec fn insert_by_time(s: Seq<SLAResult>, e: SLAResult) -> Seq<SLAResult>
    decreases s.len(),
{
    if s.len() == 0 {
        seq![e]
    } else if s.last().recorded_at <= e.recorded_at {
        s.push(e)
    } else {
        insert_by_time(s.drop_last(), e).push(s.last())
    }
}

/// `s` ordered by `recorded_at`, oldest first; entries recorded at the same
/// time keep their order in `s`.
pub open spec fn by_time(s: Seq<SLAResult>) -> Seq<SLAResult>
    decreases s.len(),
{
    if s.len() == 0 {
        Seq::empty()
    } else {
        insert_by_time(by_time(s.drop_last()), s.last())
    }
}

/// Inserting into a sorted sequence keeps it sorted and adds one entry;
/// an entry bound that holds of `s` and of `e` holds of the result.
proof fn lemma_insert_props(s: Seq<SLAResult>, e: SLAResult, bound: u64)
    ensures
        insert_by_time(s, e).len() == s.len() + 1,
        sorted_by_time(s) ==> sorted_by_time(insert_by_time(s, e)),
        (forall|k: int| 0 <= k < s.len() ==> #[trigger] s[k].recorded_at <= bound)
            && e.recorded_at <= bound ==> forall|k: int|
            0 <= k < insert_by_time(s, e).len() ==> #[trigger] insert_by_time(s, e)[k].recorded_at
                <= bound,
    decreases s.len(),
{
    if s.len() == 0 {
    } else if s.last().recorded_at <= e.recorded_at {
    } else {
        let rest = s.drop_last();
        lemma_insert_props(rest, e, bound);
        lemma_insert_props(rest, e, s.last().recorded_at);
        let t = insert_by_time(rest, e);
        if sorted_by_time(s) {
            assert forall|k: int| 0 <= k < rest.len() implies #[trigger] rest[k].recorded_at
                <= s.last().recorded_at by {
                assert(rest[k] == s[k]);
            }
            assert(sorted_by_time(rest)) by {
                assert forall|i: int, j: int| 0 <= i < j < rest.len() implies #[trigger] rest[i].recorded_at
                    <= #[trigger] rest[j].recorded_at by {
                    assert(rest[i] == s[i] && rest[j] == s[j]);
                }
            }
            assert forall|i: int, j: int| 0 <= i < j < t.push(s.last()).len() implies #[trigger] t.push(
                s.last(),
            )[i].recorded_at <= #[trigger] t.push(s.last())[j].recorded_at by {
                if j < t.len() {
                    assert(t.push(s.last())[i] == t[i] && t.push(s.last())[j] == t[j]);
                } else {
                    assert(t.push(s.last())[i] == t[i]);
                }
            }
        }
        if (forall|k: int| 0 <= k < s.len() ==> #[trigger] s[k].recorded_at <= bound)
            && e.recorded_at <= bound {
            assert forall|k: int| 0 <= k < rest.len() implies #[trigger] rest[k].recorded_at
                <= bound by {
                assert(rest[k] == s[k]);
            }
            assert forall|k: int| 0 <= k < t.push(s.last()).len() implies #[trigger] t.push(
                s.last(),
            )[k].recorded_at <= bound by {
                if k < t.len() {
                    assert(t.push(s.last())[k] == t[k]);
                }
            }
        }
    }
}

/// Ordering by time gives a sorted sequence of the same length.
pub proof fn lemma_by_time_sorted(s: Seq<SLAResult>)
    ensures
        by_time(s).len() == s.len(),
        sorted_by_time(by_time(s)),
    decreases s.len(),
{
    if s.len() > 0 {
        lemma_by_time_sorted(s.drop_last());
        lemma_insert_props(by_time(s.drop_last()), s.last(), 0);
    }
}

/// Inserting `e` at the position `p` that follows every entry recorded no
/// later than `e` is what `insert_by_time` does.
proof fn lemma_insert_split(s: Seq<SLAResult>, e: SLAResult, p: int)
    requires
        0 <= p <= s.len(),
        forall|k: int| p <= k < s.len() ==> #[trigger] s[k].recorded_at > e.recorded_at,
        p == 0 || s[p - 1].recorded_at <= e.recorded_at,
    ensures
        insert_by_time(s, e) == s.insert(p, e),
    decreases s.len(),
{
    if s.len() == 0 {
        assert(s.insert(p, e) =~= seq![e]);
    } else if p == s.len() {
        assert(s.insert(p, e) =~= s.push(e));
    } else {
        let rest = s.drop_last();
        assert forall|k: int| p <= k < rest.len() implies #[trigger] rest[k].recorded_at
            > e.recorded_at by {
            assert(rest[k] == s[k]);
        }
        lemma_insert_split(rest, e, p);
        assert(s.insert(p, e) =~= rest.insert(p, e).push(s.last()));
    }
}

/// Whether one history entry passes the filters.
fn passes(
    entry: &SLAResult,
    from_timestamp: Option<u64>,
    to_timestamp: Option<u64>,
    status_filter: &Option<Symbol>,
    payment_type_filter: &Option<Symbol>,
) -> (keep: bool)
    ensures
        keep == entry_matches(
            *entry,
            from_timestamp,
            to_timestamp,
            *status_filter,
            *payment_type_filter,
        ),
{
    let mut keep = true;
    match from_timestamp {
        Some(from) => if entry.recorded_at < from {
            keep = false;
        },
        None => {},
    }
    match to_timestamp {
        Some(to) => if entry.recorded_at > to {
            keep = false;
        },
        None => {},
    }
    match status_filter {
        Some(status) => if entry.status != *status {
            keep = false;
        },
        None => {},
    }
    match payment_type_filter {
        Some(payment_type) => if entry.payment_type != *payment_type {
            keep = false;
        },
        None => {},
    }
    keep
}

/// The entries that pass the filters, in history order.
fn collect_matching(
    history: &Vec<SLAResult>,
    from_timestamp: Option<u64>,
    to_timestamp: Option<u64>,
    status_filter: &Option<Symbol>,
    payment_type_filter: &Option<Symbol>,
) -> (found: Vec<SLAResult>)
    ensures
        found@ == matching(
            history@,
            from_timestamp,
            to_timestamp,
            *status_filter,
            *payment_type_filter,
        ),
{
    let mut found: Vec<SLAResult> = Vec::new();
    let mut i: usize = 0;
    while i < history.len()
        invariant
            i <= history.len(),
            found@ == matching(
                history@.subrange(0, i as int),
                from_timestamp,
                to_timestamp,
                *status_filter,
                *payment_type_filter,
            ),
        decreases history.len() - i,
    {
        proof {
            assert(history@.subrange(0, i + 1).drop_last() =~= history@.subrange(0, i as int));
            assert(history@.subrange(0, i + 1).last() == history@[i as int]);
        }
        if passes(&history[i], from_timestamp, to_timestamp, status_filter, payment_type_filter) {
            found.push(history[i].clone());
        }
        i = i + 1;
    }
    assert(history@.subrange(0, i as int) =~= history@);
    found
}

/// The entries of `items` ordered by `recorded_at`, oldest first, entries
/// recorded at the same time in their order in `items`.
fn order_by_time(items: Vec<SLAResult>) -> (sorted: Vec<SLAResult>)
    ensures
        sorted@ == by_time(items@),
{
    let mut sorted: Vec<SLAResult> = Vec::new();
    let mut i: usize = 0;
    while i < items.len()
        invariant
            i <= items.len(),
            sorted@ == by_time(items@.subrange(0, i as int)),
        decreases items.len() - i,
    {
        let e = items[i].clone();
        proof {
            assert(items@.subrange(0, i + 1).drop_last() =~= items@.subrange(0, i as int));
            assert(items@.subrange(0, i + 1).last() == items@[i as int]);
        }
        let mut p: usize = sorted.len();
        while p > 0 && sorted[p - 1].recorded_at > e.recorded_at
            invariant
                p <= sorted@.len(),
                forall|k: int| p <= k < sorted@.len() ==> #[trigger] sorted@[k].recorded_at
                    > e.recorded_at,
            decreases p,
        {
            p = p - 1;
        }
        proof {
            lemma_insert_split(sorted@, e, p as int);
        }
        sorted.insert(p, e);
        i = i + 1;
    }
    assert(items@.subrange(0, i as int) =~= items@);
    sorted
}

/// Returns a page of the history entries passing the filters (time window
/// inclusive at both ends, exact status and payment type when given),
/// ordered by `recorded_at` ascending (oldest first; entries recorded at
/// the same time in history order): after skipping `offset` of them, at
/// most `limit`.
pub fn filter_events(
    history: &Vec<SLAResult>,
    from_timestamp: Option<u64>,
    to_timestamp: Option<u64>,
    status_filter: Option<Symbol>,
    payment_type_filter: Option<Symbol>,
    offset: u32,
    limit: u32,
) -> (r: Result<Vec<SLAResult>, SLAError>)
    ensures
        r matches Ok(page_found) && page_found@ == page(
            by_time(
                matching(history@, from_timestamp, to_timestamp, status_filter, payment_type_filter),
            ),
            offset,
            limit,
        ),
        r matches Ok(page_found) && sorted_by_time(page_found@),
{
    let all = collect_matching(
        history,
        from_timestamp,
        to_timestamp,
        &status_filter,
        &payment_type_filter,
    );
    let sorted = order_by_time(all);
    proof {
        lemma_by_time_sorted(all@);
    }
    let mut filtered: Vec<SLAResult> = Vec::new();
    let start: usize = if (offset as usize) < sorted.len() {
        offset as usize
    } else {
        sorted.len()
    };
    let end: usize = if sorted.len() - start <= limit as usize {
        sorted.len()
    } else {
        start + limit as usize
    };
    let mut i: usize = start;
    while i < end
        invariant
            start <= i <= end <= sorted@.len(),
            filtered@ == sorted@.subrange(start as int, i as int),
        decreases end - i,
    {
        filtered.push(sorted[i].clone());
        proof {
            assert(filtered@ =~= sorted@.subrange(start as int, i + 1));
        }
        i = i + 1;
    }
    proof {
        assert(filtered@ =~= page(sorted@, offset, limit));
        assert forall|a: int, b: int| 0 <= a < b < filtered@.len() implies #[trigger] filtered@[a].recorded_at
            <= #[trigger] filtered@[b].recorded_at by {
            assert(filtered@[a] == sorted@[start + a] && filtered@[b] == sorted@[start + b]);
        }
    }
    Ok(filtered)
}

/// How many history entries pass the filters, without paging; a count
/// beyond `u32::MAX` is reported as `u32::MAX`.
pub fn count_filtered_events(
    history: &Vec<SLAResult>,
    from_timestamp: Option<u64>,
    to_timestamp: Option<u64>,
    status_filter: Option<Symbol>,
    payment_type_filter: Option<Symbol>,
) -> (r: Result<u32, SLAError>)
    ensures
        ({
            let m = matching(
                history@,
                from_timestamp,
                to_timestamp,
                status_filter,
                payment_type_filter,
            ).len();
            r matches Ok(n) && n == if m <= u32::MAX { m } else { u32::MAX as nat }
        }),
{
    let mut count: u32 = 0;
    let ghost mut exact: nat = 0;
    let mut i: usize = 0;
    while i < history.len()
        invariant
            i <= history.len(),
            exact == matching(
                history@.subrange(0, i as int),
                from_timestamp,
                to_timestamp,
                status_filter,
                payment_type_filter,
            ).len(),
            count == if exact <= u32::MAX { exact } else { u32::MAX as nat },
        decreases history.len() - i,
    {
        proof {
            assert(history@.subrange(0, i + 1).drop_last() =~= history@.subrange(0, i as int));
            assert(history@.subrange(0, i + 1).last() == history@[i as int]);
        }
        if passes(&history[i], from_timestamp, to_timestamp, &status_filter, &payment_type_filter) {
            count = count.saturating_add(1);
            proof {
                exact = exact + 1;
            }
        }
        i = i + 1;
    }
    assert(history@.subrange(0, i as int) =~= history@);
    Ok(count)
}

/// Entries recorded between `start_seconds_ago` and `end_seconds_ago`
/// before `now` (each bound clamped at time zero), oldest first, at most
/// `limit`.
pub fn get_events_in_window(
    history: &Vec<SLAResult>,
    start_seconds_ago: u64,
    end_seconds_ago: u64,
    limit: u32,
    now: u64,
) -> (r: Result<Vec<SLAResult>, SLAError>)
    ensures
        ({
            let from = if now >= start_seconds_ago { (now - start_seconds_ago) as u64 } else { 0 };
            let to = if now >= end_seconds_ago { (now - end_seconds_ago) as u64 } else { 0 };
            r matches Ok(found) && found@ == page(
                by_time(matching(history@, Some(from), Some(to), None, None)),
                0,
                limit,
            )
        }),
{
    let from = now.saturating_sub(start_seconds_ago);
    let to = now.saturating_sub(end_seconds_ago);
    filter_events(history, Some(from), Some(to), None, None, 0, limit)
}

/// Violations recorded within `[from_timestamp, to_timestamp]`, oldest
/// first, at most `limit`.
pub fn get_violations_in_range(
    history: &Vec<SLAResult>,
    from_timestamp: u64,
    to_timestamp: u64,
    limit: u32,
) -> (r: Result<Vec<SLAResult>, SLAError>)
    ensures
        r matches Ok(found) && exists|viol: Symbol|
            viol@ == "viol"@ && found@ == page(
                by_time(
                    matching(
                        history@,
                        Some(from_timestamp),
                        Some(to_timestamp),
                        Some(viol),
                        None,
                    ),
                ),
                0,
                limit,
            ),
{
    let viol = Symbol::new("viol");
    filter_events(history, Some(from_timestamp), Some(to_timestamp), Some(viol), None, 0, limit)
}

/// Rewards recorded within `[from_timestamp, to_timestamp]`, oldest first,
/// at most `limit`.
pub fn get_rewards_in_range(
    history: &Vec<SLAResult>,
    from_timestamp: u64,
    to_timestamp: u64,
    limit: u32,
) -> (r: Result<Vec<SLAResult>, SLAError>)
    ensures
        r matches Ok(found) && exists|rew: Symbol|
            rew@ == "rew"@ && found@ == page(
                by_time(
                    matching(history@, Some(from_timestamp), Some(to_timestamp), None, Some(rew)),
                ),
                0,
                limit,
            ),
{
    let rew = Symbol::new("rew");
    filter_events(history, Some(from_timestamp), Some(to_timestamp), None, Some(rew), 0, limit)
}

} // verus!
