use vstd::prelude::*;
use crate::ident::Symbol;
use crate::table::Table;

verus! {

/// An entry whose remaining lifetime falls below this many ledgers is due
/// for a refresh.
pub const TTL_THRESHOLD_LEDGERS: u32 = 100_000;
/// A refresh extends an entry to live this many more ledgers.
pub const TTL_EXTEND_TO_LEDGERS: u32 = 500_000;

pub fn needs_refresh(remaining_ledgers: u32) -> (b: bool)
    ensures
        b == (remaining_ledgers < TTL_THRESHOLD_LEDGERS),
{
    remaining_ledgers < TTL_THRESHOLD_LEDGERS
}

/// The remaining lifetime, in ledgers, of each persistent entry.
pub struct TtlStore {
    entries: Table<u32>,
}

/// A lifetime after `extend_ttl(threshold, extend_to)`: raised to
/// `extend_to` when it was below `threshold`, unchanged otherwise.
pub open spec fn extended(ttl: u32, threshold: u32, extend_to: u32) -> u32 {
    if ttl < threshold {
        extend_to
    } else {
        ttl
    }
}

impl TtlStore {
    pub closed spec fn ttls(&self) -> Map<Seq<char>, u32> {
        self.entries@
    }

    pub closed spec fn wf(&self) -> bool {
        self.entries.wf()
    }

    pub fn new() -> (s: Self)
        ensures
            s.wf(),
            s.ttls() == Map::<Seq<char>, u32>::empty(),
    {
        TtlStore { entries: Table::new() }
    }

    /// Creates or overwrites an entry living `ttl` more ledgers.
    pub fn put(&mut self, key: &Symbol, ttl: u32)
        requires
            old(self).wf(),
        ensures
            final(self).wf(),
            final(self).ttls() == old(self).ttls().insert(key@, ttl),
    {
        self.entries.set(key.text.clone(), ttl);
    }

    pub fn has(&self, key: &Symbol) -> (b: bool)
        requires
            self.wf(),
        ensures
            b == self.ttls().contains_key(key@),
    {
        self.entries.contains_key(&key.text)
    }

    pub fn get_ttl(&self, key: &Symbol) -> (t: Option<u32>)
        requires
            self.wf(),
        ensures
            t is Some <==> self.ttls().contains_key(key@),
            t matches Some(v) ==> v == self.ttls()[key@],
    {
        match self.entries.get(&key.text) {
            Some(t) => Some(*t),
            None => None,
        }
    }

    /// Raises a stored entry's lifetime to `extend_to` when it is below
    /// `threshold`; a missing entry is left missing.
    pub fn extend_ttl(&mut self, key: &Symbol, threshold: u32, extend_to: u32)
        requires
            old(self).wf(),
        ensures
            final(self).wf(),
            old(self).ttls().contains_key(key@) ==> final(self).ttls() == old(self).ttls().insert(
                key@,
                extended(old(self).ttls()[key@], threshold, extend_to),
            ),
            !old(self).ttls().contains_key(key@) ==> final(self).ttls() == old(self).ttls(),
    {
        match self.entries.get(&key.text) {
            Some(t) => {
                let current = *t;
                if current < threshold {
                    self.entries.set(key.text.clone(), extend_to);
                } else {
                    proof {
                        assert(self.entries@.insert(key@, current) =~= self.entries@);
                    }
                }
            },
            None => {},
        }
    }

    /// Lets `ledgers` ledgers pass: every lifetime shrinks by that much,
    /// down to zero.
    pub fn advance_ledgers(&mut self, ledgers: u32)
        requires
            old(self).wf(),
        ensures
            final(self).wf(),
            final(self).ttls().dom() == old(self).ttls().dom(),
            forall|k: Seq<char>| #[trigger]
                final(self).ttls().contains_key(k) ==> final(self).ttls()[k] == if old(
                    self,
                ).ttls()[k] > ledgers {
                    (old(self).ttls()[k] - ledgers) as u32
                } else {
                    0
                },
    {
        let n = self.entries.len();
        let mut i: usize = 0;
        proof {
            self.entries.lemma_keys();
        }
        while i < n
            invariant
                self.entries.wf(),
                n == self.entries.key_seq().len(),
                self.entries.key_seq() == old(self).entries.key_seq(),
                i <= n,
                self.entries@.dom() == old(self).entries@.dom(),
                old(self).entries.key_seq().no_duplicates(),
                forall|k: Seq<char>| #[trigger]
                    old(self).entries@.contains_key(k) <==> old(self).entries.key_seq().contains(k),
                forall|j: int|
                    0 <= j < n ==> #[trigger] self.entries@[old(self).entries.key_seq()[j]] == if j
                        < i {
                        if old(self).entries@[old(self).entries.key_seq()[j]] > ledgers {
                            (old(self).entries@[old(self).entries.key_seq()[j]] - ledgers) as u32
                        } else {
                            0
                        }
                    } else {
                        old(self).entries@[old(self).entries.key_seq()[j]]
                    },
            decreases n - i,
        {
            let current = *self.entries.value_at(i);
            let aged = if current > ledgers {
                current - ledgers
            } else {
                0
            };
            let ghost before = self.entries@;
            self.entries.set_value_at(i, aged);
            proof {
                let ks = old(self).entries.key_seq();
                assert forall|j: int| 0 <= j < n && j != i implies ks[j] != ks[i as int] by {}
                assert(self.entries@.dom() =~= before.dom());
            }
            i = i + 1;
        }
        proof {
            let ks = old(self).entries.key_seq();
            assert forall|k: Seq<char>| #[trigger] self.entries@.contains_key(k) implies self.entries@[k]
                == if old(self).entries@[k] > ledgers {
                (old(self).entries@[k] - ledgers) as u32
            } else {
                0
            } by {
                assert(ks.contains(k));
                let j = choose|j: int| 0 <= j < ks.len() && ks[j] == k;
                assert(self.entries@[ks[j]] == self.entries@[k]);
            }
        }
    }
}

/// Extends the lifetime of a stored outage index entry (see
/// `extend_ttl` with the refresh threshold and target) and reports whether
/// the entry exists.
pub fn refresh_outage_index_ttl(store: &mut TtlStore, key: &Symbol) -> (refreshed: bool)
    requires
        old(store).wf(),
    ensures
        final(store).wf(),
        refreshed == old(store).ttls().contains_key(key@),
        refreshed ==> final(store).ttls() == old(store).ttls().insert(
            key@,
            extended(old(store).ttls()[key@], TTL_THRESHOLD_LEDGERS, TTL_EXTEND_TO_LEDGERS),
        ),
        !refreshed ==> final(store).ttls() == old(store).ttls(),
{
    if !store.has(key) {
        return false;
    }
    store.extend_ttl(key, TTL_THRESHOLD_LEDGERS, TTL_EXTEND_TO_LEDGERS);
    true
}

/// How many of `keys` name stored entries (a key listed twice counts twice).
pub open spec fn count_present(ttls: Map<Seq<char>, u32>, keys: Seq<Symbol>) -> nat
    decreases keys.len(),
{
    if keys.len() == 0 {
        0
    } else {
        count_present(ttls, keys.drop_last()) + if ttls.contains_key(keys.last()@) {
            1nat
        } else {
            0nat
        }
    }
}

/// Refreshes every listed key and returns how many of them were stored;
/// which entries exist does not change.
pub fn refresh_many(store: &mut TtlStore, keys: &Vec<Symbol>) -> (refreshed: u32)
    requires
        old(store).wf(),
        keys.len() <= u32::MAX,
    ensures
        final(store).wf(),
        refreshed == count_present(old(store).ttls(), keys@),
        final(store).ttls().dom() == old(store).ttls().dom(),
        forall|k: Seq<char>| #[trigger]
            final(store).ttls().contains_key(k) ==> final(store).ttls()[k] == if exists|i: int|
                0 <= i < keys.len() && keys@[i]@ == k {
                extended(old(store).ttls()[k], TTL_THRESHOLD_LEDGERS, TTL_EXTEND_TO_LEDGERS)
            } else {
                old(store).ttls()[k]
            },
{
    let mut refreshed: u32 = 0;
    let mut i: usize = 0;
    while i < keys.len()
        invariant
            store.wf(),
            i <= keys.len(),
            keys.len() <= u32::MAX,
            refreshed == count_present(old(store).ttls(), keys@.subrange(0, i as int)),
            refreshed <= i,
            store.ttls().dom() == old(store).ttls().dom(),
            forall|k: Seq<char>| #[trigger]
                store.ttls().contains_key(k) ==> store.ttls()[k] == if exists|j: int|
                    0 <= j < i && keys@[j]@ == k {
                    extended(old(store).ttls()[k], TTL_THRESHOLD_LEDGERS, TTL_EXTEND_TO_LEDGERS)
                } else {
                    old(store).ttls()[k]
                },
        decreases keys.len() - i,
    {
        let ghost before = store.ttls();
        let present = refresh_outage_index_ttl(store, &keys[i]);
        proof {
            assert(keys@.subrange(0, i + 1).drop_last() =~= keys@.subrange(0, i as int));
            let k = keys@[i as int]@;
            if present {
                assert(before.contains_key(k));
                assert(store.ttls().dom() =~= before.dom());
                assert forall|k2: Seq<char>| #[trigger]
                    store.ttls().contains_key(k2) implies store.ttls()[k2] == if exists|j: int|
                    0 <= j < i + 1 && keys@[j]@ == k2 {
                    extended(old(store).ttls()[k2], TTL_THRESHOLD_LEDGERS, TTL_EXTEND_TO_LEDGERS)
                } else {
                    old(store).ttls()[k2]
                } by {
                    if k2 == k {
                        assert(keys@[i as int]@ == k2);
                        if exists|j: int| 0 <= j < i && keys@[j]@ == k2 {
                            assert(extended(
                                extended(old(store).ttls()[k2], TTL_THRESHOLD_LEDGERS, TTL_EXTEND_TO_LEDGERS),
                                TTL_THRESHOLD_LEDGERS,
                                TTL_EXTEND_TO_LEDGERS,
                            ) == extended(old(store).ttls()[k2], TTL_THRESHOLD_LEDGERS, TTL_EXTEND_TO_LEDGERS));
                        }
                    } else {
                        if exists|j: int| 0 <= j < i + 1 && keys@[j]@ == k2 {
                            let j = choose|j: int| 0 <= j < i + 1 && keys@[j]@ == k2;
                            assert(j < i);
                        }
                    }
                }
            } else {
                assert(!old(store).ttls().contains_key(k));
                assert forall|k2: Seq<char>| #[trigger]
                    store.ttls().contains_key(k2) implies store.ttls()[k2] == if exists|j: int|
                    0 <= j < i + 1 && keys@[j]@ == k2 {
                    extended(old(store).ttls()[k2], TTL_THRESHOLD_LEDGERS, TTL_EXTEND_TO_LEDGERS)
                } else {
                    old(store).ttls()[k2]
                } by {
                    if exists|j: int| 0 <= j < i + 1 && keys@[j]@ == k2 {
                        let j = choose|j: int| 0 <= j < i + 1 && keys@[j]@ == k2;
                        assert(j < i);
                    }
                }
            }
        }
        if present {
            refreshed = refreshed + 1;
        }
        i = i + 1;
    }
    assert(keys@.subrange(0, keys.len() as int) =~= keys@);
    refreshed
}

/// Refreshing is idempotent when the target lifetime clears the
/// threshold: a second refresh right after the first changes nothing, and
/// a refreshed entry lives at least the target.
pub proof fn lemma_refresh_idempotent(ttl: u32, threshold: u32, extend_to: u32)
    requires
        extend_to >= threshold,
    ensures
        extended(extended(ttl, threshold, extend_to), threshold, extend_to) == extended(
            ttl,
            threshold,
            extend_to,
        ),
        extended(ttl, threshold, extend_to) >= threshold,
{
}

} // verus!
