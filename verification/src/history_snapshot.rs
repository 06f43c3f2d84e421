use vstd::prelude::*;
use crate::ident::Symbol;
use crate::sla::SLAResult;

verus! {

#[derive(Clone, Copy, Debug, PartialEq, Eq, Structural)]
pub enum SnapshotError {
    AlreadyFinalized,
    InvalidMonthIndex,
    SnapshotNotFound,
}

/// What a history holds, in short.
#[derive(Debug)]
pub struct NormalizedSnapshot {
    pub count: u32,
    pub has_violations: bool,
    pub has_rewards: bool,
}

/// The final SLA figures of one month.
#[derive(Debug, PartialEq)]
pub struct MonthlySlaSnapshot {
    pub month_index: u32,
    pub total_downtime_minutes: u32,
    pub mttr_minutes: u32,
    pub final_compliance_status: Symbol,
    pub recorded_at: u64,
}

impl Clone for MonthlySlaSnapshot {
    fn clone(&self) -> (s: Self)
        ensures
            s == *self,
    {
        MonthlySlaSnapshot {
            month_index: self.month_index,
            total_downtime_minutes: self.total_downtime_minutes,
            mttr_minutes: self.mttr_minutes,
            final_compliance_status: self.final_compliance_status.clone(),
            recorded_at: self.recorded_at,
        }
    }
}

/// What finalising a month publishes.
pub enum SnapshotEvent {
    MonthlySnapshot { month_index: u32, final_compliance_status: Symbol },
}

/// Whether some calculation has status `viol`.
pub open spec fn has_violation(history: Seq<SLAResult>) -> bool {
    exists|i: int| 0 <= i < history.len() && #[trigger] history[i].status@ == "viol"@
}

/// Whether some calculation paid a reward.
pub open spec fn has_reward(history: Seq<SLAResult>) -> bool {
    exists|i: int| 0 <= i < history.len() && #[trigger] history[i].payment_type@ == "rew"@
}

/// Summarises a history: how many calculations, whether any violated the
/// SLA, whether any paid a reward.
pub fn normalize_history(history: &Vec<SLAResult>) -> (n: NormalizedSnapshot)
    requires
        history@.len() <= u32::MAX,
    ensures
        n.count == history@.len(),
        n.has_violations == has_violation(history@),
        n.has_rewards == has_reward(history@),
{
    let viol = Symbol::new("viol");
    let rew = Symbol::new("rew");
    let mut has_violations = false;
    let mut has_rewards = false;
    let mut i: usize = 0;
    while i < history.len()
        invariant
            i <= history.len(),
            viol@ == "viol"@,
            rew@ == "rew"@,
            has_violations == exists|j: int| 0 <= j < i && #[trigger] history@[j].status@ == "viol"@,
            has_rewards == exists|j: int|
                0 <= j < i && #[trigger] history@[j].payment_type@ == "rew"@,
        decreases history.len() - i,
    {
        let entry = &history[i];
        if entry.status == viol {
            has_violations = true;
        }
        if entry.payment_type == rew {
            has_rewards = true;
        }
        i = i + 1;
    }
    NormalizedSnapshot { count: history.len() as u32, has_violations, has_rewards }
}

/// The finalised monthly snapshots, as kept in persistent storage, with
/// the events published.
pub struct SnapshotBook {
    snapshots: Vec<MonthlySlaSnapshot>,
    events: Vec<SnapshotEvent>,
}

impl SnapshotBook {
    /// The snapshots by month index.
    pub closed spec fn months(&self) -> Map<u32, MonthlySlaSnapshot> {
        Map::new(
            |m: u32| exists|i: int| 0 <= i < self.snapshots@.len() && #[trigger] self.snapshots@[i].month_index == m,
            |m: u32|
                self.snapshots@[choose|i: int|
                    0 <= i < self.snapshots@.len() && #[trigger] self.snapshots@[i].month_index == m],
        )
    }

    pub closed spec fn event_log(&self) -> Seq<SnapshotEvent> {
        self.events@
    }

    /// Each month appears once.
    pub closed spec fn wf(&self) -> bool {
        forall|i: int, j: int|
            0 <= i < j < self.snapshots@.len() ==> #[trigger] self.snapshots@[i].month_index
                != #[trigger] self.snapshots@[j].month_index
    }

    /// No snapshots, no events.
    pub fn new() -> (b: Self)
        ensures
            b.wf(),
            b.months() == Map::<u32, MonthlySlaSnapshot>::empty(),
            b.event_log() == Seq::<SnapshotEvent>::empty(),
    {
        let b = SnapshotBook { snapshots: Vec::new(), events: Vec::new() };
        assert(b.months() =~= Map::<u32, MonthlySlaSnapshot>::empty());
        b
    }

    pub fn events(&self) -> (e: &Vec<SnapshotEvent>)
        ensures
            e@ == self.event_log(),
    {
        &self.events
    }

    fn find(&self, month_index: u32) -> (r: Option<usize>)
        requires
            self.wf(),
        ensures
            match r {
                Some(i) => i < self.snapshots@.len() && self.snapshots@[i as int].month_index
                    == month_index && self.months().contains_key(month_index)
                    && self.months()[month_index] == self.snapshots@[i as int],
                None => !self.months().contains_key(month_index),
            },
    {
        let mut i: usize = 0;
        while i < self.snapshots.len()
            invariant
                self.wf(),
                i <= self.snapshots.len(),
                forall|j: int| 0 <= j < i ==> #[trigger] self.snapshots@[j].month_index != month_index,
            decreases self.snapshots.len() - i,
        {
            if self.snapshots[i].month_index == month_index {
                proof {
                    let k = choose|k: int|
                        0 <= k < self.snapshots@.len() && #[trigger] self.snapshots@[k].month_index
                            == month_index;
                    if k != i {
                        if k < i {
                            assert(self.snapshots@[k].month_index != self.snapshots@[i as int].month_index);
                        } else {
                            assert(self.snapshots@[i as int].month_index != self.snapshots@[k].month_index);
                        }
                    }
                }
                return Some(i);
            }
            i = i + 1;
        }
        None
    }
}

/// Finalises month `month_index` at `now` with its downtime, MTTR and
/// compliance status. Month zero is refused, and so is a month already
/// finalised: a snapshot is never overwritten.
pub fn snapshot_monthly_sla(
    book: &mut SnapshotBook,
    month_index: u32,
    total_downtime_minutes: u32,
    mttr_minutes: u32,
    final_compliance_status: Symbol,
    now: u64,
) -> (r: Result<MonthlySlaSnapshot, SnapshotError>)
    requires
        old(book).wf(),
    ensures
        final(book).wf(),
        month_index == 0 ==> r == Err::<MonthlySlaSnapshot, SnapshotError>(
            SnapshotError::InvalidMonthIndex,
        ) && *final(book) == *old(book),
        month_index != 0 && old(book).months().contains_key(month_index) ==> r == Err::<
            MonthlySlaSnapshot,
            SnapshotError,
        >(SnapshotError::AlreadyFinalized) && *final(book) == *old(book),
        month_index != 0 && !old(book).months().contains_key(month_index) ==> {
            let snap = MonthlySlaSnapshot {
                month_index,
                total_downtime_minutes,
                mttr_minutes,
                final_compliance_status,
                recorded_at: now,
            };
            &&& r == Ok::<MonthlySlaSnapshot, SnapshotError>(snap)
            &&& final(book).months() == old(book).months().insert(month_index, snap)
            &&& final(book).event_log() == old(book).event_log().push(
                SnapshotEvent::MonthlySnapshot { month_index, final_compliance_status },
            )
        },
{
    if month_index == 0 {
        return Err(SnapshotError::InvalidMonthIndex);
    }
    if book.find(month_index).is_some() {
        return Err(SnapshotError::AlreadyFinalized);
    }
    let snapshot = MonthlySlaSnapshot {
        month_index,
        total_downtime_minutes,
        mttr_minutes,
        final_compliance_status: final_compliance_status.clone(),
        recorded_at: now,
    };
    let ghost before = book.months();
    let ghost n = book.snapshots@.len();
    book.snapshots.push(snapshot.clone());
    proof {
        assert forall|i: int, j: int|
            0 <= i < j < book.snapshots@.len() implies #[trigger] book.snapshots@[i].month_index
            != #[trigger] book.snapshots@[j].month_index by {
            if j == n {
                assert(book.snapshots@[i] == old(book).snapshots@[i]);
                assert(!(exists|k: int|
                    0 <= k < old(book).snapshots@.len() && #[trigger] old(book).snapshots@[k].month_index
                        == month_index));
            } else {
                assert(book.snapshots@[i] == old(book).snapshots@[i]);
                assert(book.snapshots@[j] == old(book).snapshots@[j]);
            }
        }
        assert forall|m: u32| #[trigger] book.months().contains_key(m) <==> before.insert(
            month_index,
            snapshot,
        ).contains_key(m) by {
            if book.months().contains_key(m) && m != month_index {
                let k = choose|k: int|
                    0 <= k < book.snapshots@.len() && #[trigger] book.snapshots@[k].month_index == m;
                assert(old(book).snapshots@[k].month_index == m);
            }
            if before.contains_key(m) {
                let k = choose|k: int|
                    0 <= k < old(book).snapshots@.len() && #[trigger] old(book).snapshots@[k].month_index
                        == m;
                assert(book.snapshots@[k].month_index == m);
            }
            if m == month_index {
                assert(book.snapshots@[n as int].month_index == m);
            }
        }
        assert forall|m: u32| #[trigger] book.months().contains_key(m) implies book.months()[m]
            == before.insert(month_index, snapshot)[m] by {
            let k = choose|k: int|
                0 <= k < book.snapshots@.len() && #[trigger] book.snapshots@[k].month_index == m;
            if m == month_index {
                if k != n {
                    assert(book.snapshots@[k].month_index != book.snapshots@[n as int].month_index);
                }
            } else {
                let k0 = choose|k0: int|
                    0 <= k0 < old(book).snapshots@.len() && #[trigger] old(book).snapshots@[k0].month_index
                        == m;
                assert(book.snapshots@[k0].month_index == m);
                if k != k0 {
                    if k < k0 {
                        assert(book.snapshots@[k].month_index != book.snapshots@[k0].month_index);
                    } else {
                        assert(book.snapshots@[k0].month_index != book.snapshots@[k].month_index);
                    }
                }
            }
        }
        assert(book.months() =~= before.insert(month_index, snapshot));
    }
    book.events.push(
        SnapshotEvent::MonthlySnapshot { month_index, final_compliance_status },
    );
    Ok(snapshot)
}

/// The snapshot of month `month_index`.
pub fn get_monthly_sla_snapshot(book: &SnapshotBook, month_index: u32) -> (r: Result<
    MonthlySlaSnapshot,
    SnapshotError,
>)
    requires
        book.wf(),
    ensures
        book.months().contains_key(month_index) ==> r == Ok::<MonthlySlaSnapshot, SnapshotError>(
            book.months()[month_index],
        ),
        !book.months().contains_key(month_index) ==> r == Err::<MonthlySlaSnapshot, SnapshotError>(
            SnapshotError::SnapshotNotFound,
        ),
{
    match book.find(month_index) {
        Some(i) => Ok(book.snapshots[i].clone()),
        None => Err(SnapshotError::SnapshotNotFound),
    }
}

/// Whether month `month_index` has been finalised.
pub fn has_monthly_sla_snapshot(book: &SnapshotBook, month_index: u32) -> (b: bool)
    requires
        book.wf(),
    ensures
        b == book.months().contains_key(month_index),
{
    book.find(month_index).is_some()
}

/// A finalised month never changes: whatever `snapshot_monthly_sla` is
/// asked, the snapshots already stored keep their figures.
pub proof fn lemma_finalised_months_are_immutable(
    before: &SnapshotBook,
    after: &SnapshotBook,
    month_index: u32,
    snap: MonthlySlaSnapshot,
    m: u32,
)
    requires
        after.months() == before.months() || (!before.months().contains_key(month_index)
            && after.months() == before.months().insert(month_index, snap)),
        before.months().contains_key(m),
    ensures
        after.months().contains_key(m),
        after.months()[m] == before.months()[m],
{
}

} // verus!
