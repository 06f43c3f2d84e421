use vstd::prelude::*;

verus! {

/// How many configuration versions the history keeps.
pub const MAX_HISTORY_ENTRIES: usize = 20;

#[derive(Clone, Copy, Debug, PartialEq, Eq, Structural)]
pub struct ConfigVersionRecord {
    pub version: u32,
    pub applied_at: u64,
}

/// The newest `MAX_HISTORY_ENTRIES` entries of `s`, oldest first.
pub open spec fn retained(s: Seq<ConfigVersionRecord>) -> Seq<ConfigVersionRecord> {
    if s.len() > MAX_HISTORY_ENTRIES {
        s.subrange(s.len() - MAX_HISTORY_ENTRIES, s.len() as int)
    } else {
        s
    }
}

/// Appends `record` and evicts the oldest entries until at most
/// `MAX_HISTORY_ENTRIES` remain.
pub fn push_config_history(history: &mut Vec<ConfigVersionRecord>, record: ConfigVersionRecord)
    ensures
        final(history)@ == retained(old(history)@.push(record)),
{
    let ghost full = old(history)@.push(record);
    history.push(record);
    let ghost mut dropped: int = 0;
    while history.len() > MAX_HISTORY_ENTRIES
        invariant
            0 <= dropped <= full.len(),
            history@ == full.subrange(dropped, full.len() as int),
            dropped > 0 ==> full.len() - dropped >= MAX_HISTORY_ENTRIES,
        decreases history.len(),
    {
        history.remove(0);
        proof {
            dropped = dropped + 1;
        }
        assert(history@ =~= full.subrange(dropped, full.len() as int));
    }
    assert(history@ =~= retained(full));
}

} // verus!
