use vstd::prelude::*;
use crate::arith::div_trunc;
use crate::ident::Account;
use crate::table::Table;

verus! {

pub const BPS_DENOMINATOR: i128 = 10_000;
/// Largest coverage ratio, in basis points (200%).
pub const MAX_COVERAGE_BPS: u32 = 20_000;

#[derive(Clone, Copy, Debug, PartialEq, Eq, Structural)]
pub enum LockState {
    Unlocked,
    Locked,
    Released,
}

/// A provider's collateral: the amount still locked, the penalties it
/// covers (as a ratio of the amount), and when it was locked and
/// released (zero while it is not).
#[derive(Debug)]
pub struct LockRecord {
    pub provider: Account,
    pub amount: i128,
    pub coverage_bps: u32,
    pub state: LockState,
    pub locked_at: u64,
    pub released_at: u64,
}

impl Clone for LockRecord {
    fn clone(&self) -> (r: Self)
        ensures
            r == *self,
    {
        LockRecord {
            provider: self.provider.clone(),
            amount: self.amount,
            coverage_bps: self.coverage_bps,
            state: self.state,
            locked_at: self.locked_at,
            released_at: self.released_at,
        }
    }
}

#[derive(Clone, Copy, Debug, PartialEq, Eq, Structural)]
pub enum LockError {
    ZeroAmount,
    NegativeAmount,
    CoverageOutOfRange,
    AlreadyLocked,
    NotLocked,
    AlreadyReleased,
    ZeroPenalty,
    NegativePenalty,
    PenaltyExceedsCoverage,
    PayoutExceedsLocked,
}

/// What the collateral functions publish.
pub enum CollateralEvent {
    Locked { provider: Account, amount: i128 },
    Coverage { provider: Account, coverage_bps: u32 },
    Payout { provider: Account, penalty: i128 },
    Released { provider: Account, amount: i128 },
}

/// A record as locking and payouts leave it: a non-negative amount, a
/// coverage ratio in range, and a positive amount while locked.
pub open spec fn sound_record(r: LockRecord) -> bool {
    &&& r.amount >= 0
    &&& 0 < r.coverage_bps <= MAX_COVERAGE_BPS
    &&& r.state == LockState::Locked ==> r.amount > 0
}

/// The providers' collateral records, by provider, as kept in persistent
/// storage, with the events published.
pub struct CollateralBook {
    records: Table<LockRecord>,
    events: Vec<CollateralEvent>,
}

impl CollateralBook {
    pub closed spec fn records(&self) -> Map<Seq<char>, LockRecord> {
        self.records@
    }

    /// Providers in the order their collateral was first locked.
    pub closed spec fn providers(&self) -> Seq<Seq<char>> {
        self.records.key_seq()
    }

    pub closed spec fn event_log(&self) -> Seq<CollateralEvent> {
        self.events@
    }

    pub closed spec fn wf(&self) -> bool {
        &&& self.records.wf()
        &&& forall|k: Seq<char>| #[trigger]
            self.records@.contains_key(k) ==> sound_record(self.records@[k])
    }

    /// No collateral, no events.
    pub fn new() -> (b: Self)
        ensures
            b.wf(),
            b.records() == Map::<Seq<char>, LockRecord>::empty(),
            b.providers() == Seq::<Seq<char>>::empty(),
            b.event_log() == Seq::<CollateralEvent>::empty(),
    {
        CollateralBook { records: Table::new(), events: Vec::new() }
    }

    pub fn events(&self) -> (e: &Vec<CollateralEvent>)
        ensures
            e@ == self.event_log(),
    {
        &self.events
    }

    pub proof fn lemma_providers(&self)
        requires
            self.wf(),
        ensures
            forall|k: Seq<char>| #[trigger]
                self.records().contains_key(k) <==> self.providers().contains(k),
            self.providers().no_duplicates(),
    {
        self.records.lemma_keys();
    }

    fn put(&mut self, provider: &Account, record: LockRecord)
        requires
            old(self).wf(),
            sound_record(record),
        ensures
            final(self).wf(),
            final(self).records() == old(self).records().insert(provider@, record),
            final(self).event_log() == old(self).event_log(),
            old(self).records().contains_key(provider@) ==> final(self).providers() == old(
                self,
            ).providers(),
            !old(self).records().contains_key(provider@) ==> final(self).providers() == old(
                self,
            ).providers().push(provider@),
    {
        self.records.set(provider.text.clone(), record);
    }
}

/// The stored records, by provider.
pub fn collateral_map(book: &CollateralBook) -> (m: &Table<LockRecord>)
    requires
        book.wf(),
    ensures
        m.wf(),
        m@ == book.records(),
{
    &book.records
}

pub fn lock_record(book: &CollateralBook, provider: &Account) -> (r: Option<LockRecord>)
    requires
        book.wf(),
    ensures
        r is Some <==> book.records().contains_key(provider@),
        r matches Some(x) ==> x == book.records()[provider@],
{
    match book.records.get(&provider.text) {
        Some(r) => Some(r.clone()),
        None => None,
    }
}

/// The state of a provider's collateral: unlocked when nothing was ever
/// locked.
pub open spec fn state_of(book: &CollateralBook, provider: Seq<char>) -> LockState {
    if book.records().contains_key(provider) {
        book.records()[provider].state
    } else {
        LockState::Unlocked
    }
}

pub fn lock_state(book: &CollateralBook, provider: &Account) -> (s: LockState)
    requires
        book.wf(),
    ensures
        s == state_of(book, provider@),
{
    match book.records.get(&provider.text) {
        Some(r) => r.state,
        None => LockState::Unlocked,
    }
}

/// The collateral a provider has locked; nothing unless it is locked.
pub open spec fn available_of(book: &CollateralBook, provider: Seq<char>) -> int {
    if state_of(book, provider) == LockState::Locked {
        book.records()[provider].amount as int
    } else {
        0
    }
}

pub fn available_collateral(book: &CollateralBook, provider: &Account) -> (a: i128)
    requires
        book.wf(),
    ensures
        a == available_of(book, provider@),
{
    match book.records.get(&provider.text) {
        Some(r) => if r.state == LockState::Locked {
            r.amount
        } else {
            0
        },
        None => 0,
    }
}

/// The largest penalty a provider's collateral covers: the coverage
/// ratio of the locked amount, rounded down; nothing unless locked.
pub open spec fn capacity_of(book: &CollateralBook, provider: Seq<char>) -> int {
    if state_of(book, provider) == LockState::Locked {
        let r = book.records()[provider];
        div_trunc(r.amount * r.coverage_bps, BPS_DENOMINATOR as int)
    } else {
        0
    }
}

/// The locked amount times the coverage ratio fits an `i128`.
pub open spec fn capacity_fits(book: &CollateralBook, provider: Seq<char>) -> bool {
    state_of(book, provider) == LockState::Locked ==> book.records()[provider].amount
        * book.records()[provider].coverage_bps <= i128::MAX
}

pub fn coverage_capacity(book: &CollateralBook, provider: &Account) -> (c: i128)
    requires
        book.wf(),
        capacity_fits(book, provider@),
    ensures
        c == capacity_of(book, provider@),
{
    let record = match book.records.get(&provider.text) {
        Some(entry) => if entry.state == LockState::Locked {
            entry
        } else {
            return 0;
        },
        None => return 0,
    };
    proof {
        assert(record.amount * record.coverage_bps >= 0) by (nonlinear_arith)
            requires
                record.amount >= 0,
                record.coverage_bps >= 0,
        ;
    }
    (record.amount * (record.coverage_bps as i128)) / BPS_DENOMINATOR
}

/// Why collateral cannot be locked, checked in this order.
pub open spec fn lock_refusal(
    book: &CollateralBook,
    provider: Seq<char>,
    amount: i128,
    coverage_bps: u32,
) -> Option<LockError> {
    if amount < 0 {
        Some(LockError::NegativeAmount)
    } else if amount == 0 {
        Some(LockError::ZeroAmount)
    } else if coverage_bps == 0 || coverage_bps > MAX_COVERAGE_BPS {
        Some(LockError::CoverageOutOfRange)
    } else if state_of(book, provider) == LockState::Locked {
        Some(LockError::AlreadyLocked)
    } else {
        None
    }
}

/// Locks a provider's collateral at `locked_at` (replacing a released
/// record) and returns the new record.
pub fn lock_collateral(
    book: &mut CollateralBook,
    provider: &Account,
    amount: i128,
    coverage_bps: u32,
    locked_at: u64,
) -> (r: Result<LockRecord, LockError>)
    requires
        old(book).wf(),
    ensures
        final(book).wf(),
        match lock_refusal(old(book), provider@, amount, coverage_bps) {
            Some(e) => r == Err::<LockRecord, LockError>(e) && *final(book) == *old(book),
            None => {
                let record = LockRecord {
                    provider: *provider,
                    amount,
                    coverage_bps,
                    state: LockState::Locked,
                    locked_at,
                    released_at: 0,
                };
                &&& r == Ok::<LockRecord, LockError>(record)
                &&& final(book).records() == old(book).records().insert(provider@, record)
                &&& final(book).event_log() == old(book).event_log().push(
                    CollateralEvent::Locked { provider: *provider, amount },
                ).push(CollateralEvent::Coverage { provider: *provider, coverage_bps })
            },
        },
{
    if amount < 0 {
        return Err(LockError::NegativeAmount);
    }
    if amount == 0 {
        return Err(LockError::ZeroAmount);
    }
    if coverage_bps == 0 || coverage_bps > MAX_COVERAGE_BPS {
        return Err(LockError::CoverageOutOfRange);
    }
    if lock_state(book, provider) == LockState::Locked {
        return Err(LockError::AlreadyLocked);
    }
    let record = LockRecord {
        provider: provider.clone(),
        amount,
        coverage_bps,
        state: LockState::Locked,
        locked_at,
        released_at: 0,
    };
    book.put(provider, record.clone());
    book.events.push(CollateralEvent::Locked { provider: provider.clone(), amount });
    book.events.push(CollateralEvent::Coverage { provider: provider.clone(), coverage_bps });
    Ok(record)
}

/// Whether the collateral covers `penalty`, checked in this order: the
/// penalty is positive, the collateral locked, the penalty within its
/// capacity.
pub open spec fn coverage_check(book: &CollateralBook, provider: Seq<char>, penalty: i128) -> Result<
    i128,
    LockError,
> {
    if penalty < 0 {
        Err(LockError::NegativePenalty)
    } else if penalty == 0 {
        Err(LockError::ZeroPenalty)
    } else if state_of(book, provider) != LockState::Locked {
        Err(LockError::NotLocked)
    } else if penalty > capacity_of(book, provider) {
        Err(LockError::PenaltyExceedsCoverage)
    } else {
        Ok(penalty)
    }
}

pub fn verify_coverage(book: &CollateralBook, provider: &Account, penalty: i128) -> (r: Result<
    i128,
    LockError,
>)
    requires
        book.wf(),
        capacity_fits(book, provider@),
    ensures
        r == coverage_check(book, provider@, penalty),
{
    if penalty < 0 {
        return Err(LockError::NegativePenalty);
    }
    if penalty == 0 {
        return Err(LockError::ZeroPenalty);
    }
    if lock_state(book, provider) != LockState::Locked {
        return Err(LockError::NotLocked);
    }
    if penalty > coverage_capacity(book, provider) {
        return Err(LockError::PenaltyExceedsCoverage);
    }
    Ok(penalty)
}

/// Pays a covered penalty out of the collateral at `paid_at`: the locked
/// amount drops by the penalty, and collateral drained to zero is
/// released. A penalty above the locked amount is refused even when the
/// coverage ratio would allow it.
pub fn payout_from_collateral(
    book: &mut CollateralBook,
    provider: &Account,
    penalty: i128,
    paid_at: u64,
) -> (r: Result<i128, LockError>)
    requires
        old(book).wf(),
        capacity_fits(old(book), provider@),
    ensures
        final(book).wf(),
        r is Err ==> *final(book) == *old(book),
        coverage_check(old(book), provider@, penalty) is Err ==> r == coverage_check(
            old(book),
            provider@,
            penalty,
        ),
        coverage_check(old(book), provider@, penalty) is Ok ==> {
            let rec = old(book).records()[provider@];
            if penalty > rec.amount {
                r == Err::<i128, LockError>(LockError::PayoutExceedsLocked)
            } else {
                let remaining = (rec.amount - penalty) as i128;
                let drained = remaining == 0;
                &&& r == Ok::<i128, LockError>(penalty)
                &&& final(book).providers() == old(book).providers()
                &&& total_locked_of(final(book)) == total_locked_of(old(book)) - penalty
                &&& final(book).records() == old(book).records().insert(
                    provider@,
                    LockRecord {
                        amount: remaining,
                        state: if drained {
                            LockState::Released
                        } else {
                            LockState::Locked
                        },
                        released_at: if drained {
                            paid_at
                        } else {
                            0
                        },
                        ..rec
                    },
                )
                &&& final(book).event_log() == if drained {
                    old(book).event_log().push(
                        CollateralEvent::Payout { provider: *provider, penalty },
                    ).push(CollateralEvent::Released { provider: *provider, amount: 0 })
                } else {
                    old(book).event_log().push(
                        CollateralEvent::Payout { provider: *provider, penalty },
                    )
                }
            }
        },
{
    match verify_coverage(book, provider, penalty) {
        Err(e) => return Err(e),
        Ok(_) => {},
    }
    let record = match lock_record(book, provider) {
        Some(r) => r,
        None => return Err(LockError::NotLocked),
    };
    if penalty > record.amount {
        return Err(LockError::PayoutExceedsLocked);
    }
    let remaining = record.amount - penalty;
    let updated = LockRecord {
        amount: remaining,
        state: if remaining == 0 {
            LockState::Released
        } else {
            LockState::Locked
        },
        released_at: if remaining == 0 {
            paid_at
        } else {
            0
        },
        ..record
    };
    proof {
        book.lemma_providers();
        lemma_locked_sum_update(book.records(), book.providers(), provider@, updated);
    }
    book.put(provider, updated);
    book.events.push(CollateralEvent::Payout { provider: provider.clone(), penalty });
    if remaining == 0 {
        book.events.push(CollateralEvent::Released { provider: provider.clone(), amount: 0 });
    }
    Ok(penalty)
}

/// Why collateral cannot be released, checked in this order.
pub open spec fn release_refusal(book: &CollateralBook, provider: Seq<char>) -> Option<LockError> {
    if state_of(book, provider) == LockState::Released {
        Some(LockError::AlreadyReleased)
    } else if state_of(book, provider) != LockState::Locked {
        Some(LockError::NotLocked)
    } else {
        None
    }
}

/// Releases locked collateral at `released_at` and returns the amount
/// released.
pub fn release_collateral(book: &mut CollateralBook, provider: &Account, released_at: u64) -> (r:
    Result<i128, LockError>)
    requires
        old(book).wf(),
    ensures
        final(book).wf(),
        match release_refusal(old(book), provider@) {
            Some(e) => r == Err::<i128, LockError>(e) && *final(book) == *old(book),
            None => {
                let rec = old(book).records()[provider@];
                &&& r == Ok::<i128, LockError>(rec.amount)
                &&& final(book).providers() == old(book).providers()
                &&& total_locked_of(final(book)) == total_locked_of(old(book)) - rec.amount
                &&& final(book).records() == old(book).records().insert(
                    provider@,
                    LockRecord { state: LockState::Released, released_at, ..rec },
                )
                &&& final(book).event_log() == old(book).event_log().push(
                    CollateralEvent::Released { provider: *provider, amount: rec.amount },
                )
            },
        },
{
    if lock_state(book, provider) == LockState::Released {
        return Err(LockError::AlreadyReleased);
    }
    let record = match lock_record(book, provider) {
        Some(r) => r,
        None => return Err(LockError::NotLocked),
    };
    if record.state != LockState::Locked {
        return Err(LockError::NotLocked);
    }
    let released = record.amount;
    let updated = LockRecord { state: LockState::Released, released_at, ..record };
    proof {
        book.lemma_providers();
        lemma_locked_sum_update(book.records(), book.providers(), provider@, updated);
    }
    book.put(provider, updated);
    book.events.push(CollateralEvent::Released { provider: provider.clone(), amount: released });
    Ok(released)
}

/// The collateral locked by the providers under `keys`.
pub open spec fn locked_sum(records: Map<Seq<char>, LockRecord>, keys: Seq<Seq<char>>) -> int
    decreases keys.len(),
{
    if keys.len() == 0 {
        0
    } else {
        locked_sum(records, keys.drop_last()) + if records[keys.last()].state
            == LockState::Locked {
            records[keys.last()].amount as int
        } else {
            0
        }
    }
}

/// What one record contributes to the locked total.
pub open spec fn locked_part(r: LockRecord) -> int {
    if r.state == LockState::Locked {
        r.amount as int
    } else {
        0
    }
}

/// Replacing the record of one provider changes the locked sum over a
/// list without repeats by the difference of the two records' parts.
proof fn lemma_locked_sum_update(
    records: Map<Seq<char>, LockRecord>,
    keys: Seq<Seq<char>>,
    k: Seq<char>,
    rec: LockRecord,
)
    requires
        keys.no_duplicates(),
    ensures
        locked_sum(records.insert(k, rec), keys) == locked_sum(records, keys) + if keys.contains(
            k,
        ) {
            locked_part(rec) - locked_part(records[k])
        } else {
            0
        },
    decreases keys.len(),
{
    if keys.len() > 0 {
        let rest = keys.drop_last();
        assert(rest.no_duplicates()) by {
            assert forall|i: int, j: int| 0 <= i < rest.len() && 0 <= j < rest.len() && i != j implies rest[i]
                != rest[j] by {
                assert(rest[i] == keys[i] && rest[j] == keys[j]);
            }
        }
        lemma_locked_sum_update(records, rest, k, rec);
        if keys.last() == k {
            assert(keys.contains(k)) by {
                assert(keys[keys.len() - 1] == k);
            }
            assert(!rest.contains(k)) by {
                if rest.contains(k) {
                    let i = choose|i: int| 0 <= i < rest.len() && rest[i] == k;
                    assert(keys[i] == k && keys[keys.len() - 1] == k);
                }
            }
        } else {
            assert(keys.contains(k) == rest.contains(k)) by {
                if keys.contains(k) {
                    let i = choose|i: int| 0 <= i < keys.len() && keys[i] == k;
                    assert(i < rest.len());
                    assert(rest[i] == k);
                }
                if rest.contains(k) {
                    let i = choose|i: int| 0 <= i < rest.len() && rest[i] == k;
                    assert(keys[i] == k);
                }
            }
        }
    }
}

/// The collateral locked by every provider.
pub open spec fn total_locked_of(book: &CollateralBook) -> int {
    locked_sum(book.records(), book.providers())
}

proof fn lemma_locked_sum_nonneg(records: Map<Seq<char>, LockRecord>, keys: Seq<Seq<char>>)
    requires
        forall|j: int| 0 <= j < keys.len() ==> #[trigger] records[keys[j]].amount >= 0,
    ensures
        0 <= locked_sum(records, keys),
    decreases keys.len(),
{
    if keys.len() > 0 {
        let rest = keys.drop_last();
        assert forall|j: int| 0 <= j < rest.len() implies #[trigger] records[rest[j]].amount >= 0 by {
            assert(rest[j] == keys[j]);
        }
        lemma_locked_sum_nonneg(records, rest);
        assert(records[keys[keys.len() - 1]].amount >= 0);
    }
}

proof fn lemma_locked_sum_prefix(records: Map<Seq<char>, LockRecord>, keys: Seq<Seq<char>>, i: int)
    requires
        0 <= i <= keys.len(),
        forall|j: int| 0 <= j < keys.len() ==> #[trigger] records[keys[j]].amount >= 0,
    ensures
        0 <= locked_sum(records, keys.subrange(0, i)) <= locked_sum(records, keys),
    decreases keys.len() - i,
{
    let pre = keys.subrange(0, i);
    assert forall|j: int| 0 <= j < pre.len() implies #[trigger] records[pre[j]].amount >= 0 by {
        assert(pre[j] == keys[j]);
    }
    lemma_locked_sum_nonneg(records, pre);
    if i < keys.len() {
        lemma_locked_sum_prefix(records, keys, i + 1);
        assert(keys.subrange(0, i + 1).drop_last() =~= pre);
        assert(keys.subrange(0, i + 1).last() == keys[i]);
        assert(records[keys[i]].amount >= 0);
    } else {
        assert(pre =~= keys);
    }
}

/// The collateral currently locked, summed over every provider.
pub fn total_locked(book: &CollateralBook) -> (t: i128)
    requires
        book.wf(),
        total_locked_of(book) <= i128::MAX,
    ensures
        t == total_locked_of(book),
{
    let n = book.records.len();
    let ghost keys = book.providers();
    let ghost records = book.records();
    proof {
        book.lemma_providers();
        assert forall|j: int| 0 <= j < keys.len() implies #[trigger] records[keys[j]].amount
            >= 0 by {
            assert(records.contains_key(keys[j]));
        }
    }
    let mut total: i128 = 0;
    let mut i: usize = 0;
    while i < n
        invariant
            book.wf(),
            n == keys.len(),
            keys == book.providers(),
            records == book.records(),
            i <= n,
            total == locked_sum(records, keys.subrange(0, i as int)),
            locked_sum(records, keys) <= i128::MAX,
            forall|j: int| 0 <= j < keys.len() ==> #[trigger] records[keys[j]].amount >= 0,
        decreases n - i,
    {
        let record = book.records.value_at(i);
        proof {
            assert(keys.subrange(0, i + 1).drop_last() =~= keys.subrange(0, i as int));
            assert(keys.subrange(0, i + 1).last() == keys[i as int]);
            lemma_locked_sum_prefix(records, keys, i + 1);
        }
        if record.state == LockState::Locked {
            total = total + record.amount;
        }
        i = i + 1;
    }
    assert(keys.subrange(0, n as int) =~= keys);
    total
}

/// A payout moves exactly the penalty out of the locked collateral: what
/// stays available plus what was paid is what was available before.
pub proof fn lemma_payout_conserves(
    before: &CollateralBook,
    after: &CollateralBook,
    provider: Seq<char>,
    penalty: i128,
    paid_at: u64,
)
    requires
        before.wf(),
        coverage_check(before, provider, penalty) is Ok,
        penalty <= before.records()[provider].amount,
        ({
            let rec = before.records()[provider];
            let remaining = (rec.amount - penalty) as i128;
            after.records() == before.records().insert(
                provider,
                LockRecord {
                    amount: remaining,
                    state: if remaining == 0 {
                        LockState::Released
                    } else {
                        LockState::Locked
                    },
                    released_at: if remaining == 0 {
                        paid_at
                    } else {
                        0
                    },
                    ..rec
                },
            )
        }),
    ensures
        available_of(after, provider) + penalty == available_of(before, provider),
{
}

/// Only locked collateral is available: a provider whose collateral is
/// released, drained or was never locked has nothing available, and a
/// locked provider has its whole locked amount available.
pub proof fn lemma_available_only_while_locked(book: &CollateralBook, provider: Seq<char>)
    ensures
        !(book.records().contains_key(provider) && book.records()[provider].state
            == LockState::Locked) ==> available_of(book, provider) == 0,
        book.records().contains_key(provider) && book.records()[provider].state
            == LockState::Locked ==> available_of(book, provider) == book.records()[provider].amount,
{
}

/// After a release, whatever was locked, the provider has nothing
/// available (the released amount was handed back).
pub proof fn lemma_released_is_not_available(
    before: &CollateralBook,
    after: &CollateralBook,
    provider: Seq<char>,
    released_at: u64,
)
    requires
        before.records().contains_key(provider),
        after.records() == before.records().insert(
            provider,
            LockRecord { state: LockState::Released, released_at, ..before.records()[provider] },
        ),
    ensures
        available_of(after, provider) == 0,
{
}

/// A provider may lock again once its collateral was released (or before
/// it ever locked): with a positive amount and a coverage in
/// `1..=MAX_COVERAGE_BPS`, locking is refused as `AlreadyLocked` exactly
/// when the provider's collateral is currently locked, and otherwise
/// succeeds.
pub proof fn lemma_relock_after_release(
    book: &CollateralBook,
    provider: Seq<char>,
    amount: i128,
    coverage_bps: u32,
)
    requires
        amount > 0,
        0 < coverage_bps <= MAX_COVERAGE_BPS,
    ensures
        (lock_refusal(book, provider, amount, coverage_bps) == Some(LockError::AlreadyLocked)) <==> (
        book.records().contains_key(provider) && book.records()[provider].state
            == LockState::Locked),
        !(book.records().contains_key(provider) && book.records()[provider].state
            == LockState::Locked) ==> lock_refusal(book, provider, amount, coverage_bps) is None,
        book.records().contains_key(provider) && book.records()[provider].state
            == LockState::Released ==> lock_refusal(book, provider, amount, coverage_bps) is None,
{
}

} // verus!
