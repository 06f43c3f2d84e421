use vstd::prelude::*;
use crate::dependency_propagation::distinct_ids;
use crate::ident::{
    contains_id, copy_ids, key_order, lemma_key_order_distinct, listed_id, order_keys, texts, Symbol,
};
use crate::links::{
    acyclic, at_top, in_ancestry, lemma_empty_acyclic, lemma_relink_keeps_acyclic, lemma_walk_stays,
    link_walk, reaches_top, relink,
};
use crate::table::Table;

verus! {

/// Most parent links `resolve_root` follows.
pub const MAX_CORRELATION_DEPTH: u32 = 64;

/// An outage, the outage it cascaded from (if any), and its downtime.
#[derive(Debug)]
pub struct OutageTag {
    pub outage_id: Symbol,
    pub parent_outage_id: Option<Symbol>,
    pub downtime_seconds: u64,
}

impl Clone for OutageTag {
    fn clone(&self) -> (t: Self)
        ensures
            t == *self,
    {
        OutageTag {
            outage_id: self.outage_id.clone(),
            parent_outage_id: match &self.parent_outage_id {
                Some(p) => Some(p.clone()),
                None => None,
            },
            downtime_seconds: self.downtime_seconds,
        }
    }
}

#[derive(Clone, Copy, Debug, PartialEq, Eq, Structural)]
pub enum CorrelationError {
    SelfParent,
    CycleDetected,
}

/// The parent links of the tagged outages.
pub open spec fn links_of(tags: Map<Seq<char>, OutageTag>) -> Map<Seq<char>, Seq<char>> {
    Map::new(
        |k: Seq<char>| tags.contains_key(k) && tags[k].parent_outage_id is Some,
        |k: Seq<char>| tags[k].parent_outage_id->0@,
    )
}

/// The parent a tag gives, by name.
pub open spec fn parent_name(t: OutageTag) -> Option<Seq<char>> {
    match t.parent_outage_id {
        Some(p) => Some(p@),
        None => None,
    }
}

/// The root `resolve_root` reports: where at most `MAX_CORRELATION_DEPTH`
/// steps up the parent links lead.
pub open spec fn root_of(tags: Map<Seq<char>, OutageTag>, k: Seq<char>) -> Seq<char> {
    link_walk(links_of(tags), k, MAX_CORRELATION_DEPTH as nat)
}

proof fn lemma_links_after_tag(tags: Map<Seq<char>, OutageTag>, key: Seq<char>, t: OutageTag)
    ensures
        links_of(tags.insert(key, t)) == relink(links_of(tags), key, parent_name(t)),
{
    assert(links_of(tags.insert(key, t)) =~= relink(links_of(tags), key, parent_name(t)));
}

/// The tags by outage id and the children of each parent, as kept in
/// persistent storage.
pub struct CorrelationState {
    tags: Table<OutageTag>,
    children: Table<Vec<Symbol>>,
}

impl CorrelationState {
    pub closed spec fn tags(&self) -> Map<Seq<char>, OutageTag> {
        self.tags@
    }

    /// Tagged outages, in the order they were first tagged.
    pub closed spec fn tagged(&self) -> Seq<Seq<char>> {
        self.tags.key_seq()
    }

    /// The children recorded under each parent, in tagging order.
    pub closed spec fn children(&self) -> Map<Seq<char>, Seq<Symbol>> {
        self.children@.map_values(|v: Vec<Symbol>| v@)
    }

    /// The tables are consistent, each parent lists each child once, and
    /// the parent links form no cycle.
    pub closed spec fn wf(&self) -> bool {
        &&& self.tags.wf()
        &&& self.children.wf()
        &&& forall|k: Seq<char>| #[trigger]
            self.children@.contains_key(k) ==> distinct_ids(self.children@[k]@)
        &&& acyclic(links_of(self.tags@))
    }

    /// No tags, no children.
    pub fn new() -> (s: Self)
        ensures
            s.wf(),
            s.tags() == Map::<Seq<char>, OutageTag>::empty(),
            s.tagged() == Seq::<Seq<char>>::empty(),
            s.children() == Map::<Seq<char>, Seq<Symbol>>::empty(),
    {
        let s = CorrelationState { tags: Table::new(), children: Table::new() };
        proof {
            lemma_empty_acyclic();
            assert(links_of(s.tags@) =~= Map::<Seq<char>, Seq<char>>::empty());
        }
        assert(s.children() =~= Map::<Seq<char>, Seq<Symbol>>::empty());
        s
    }

    /// What every state the correlation functions leave satisfies: the
    /// parent links form no cycle, and each parent lists each child once.
    pub proof fn lemma_index_sound(&self)
        requires
            self.wf(),
        ensures
            acyclic(links_of(self.tags())),
            forall|k: Seq<char>| #[trigger]
                self.children().contains_key(k) ==> distinct_ids(self.children()[k]),
    {
    }

    pub proof fn lemma_tagged(&self)
        requires
            self.wf(),
        ensures
            forall|k: Seq<char>| #[trigger] self.tags().contains_key(k) <==> self.tagged().contains(k),
            self.tagged().no_duplicates(),
    {
        self.tags.lemma_keys();
    }
}

/// An outage may not be its own parent.
pub fn validate_parent(outage_id: &Symbol, parent_outage_id: &Option<Symbol>) -> (r: Result<
    (),
    CorrelationError,
>)
    ensures
        r == (if parent_outage_id matches Some(p) && p@ == outage_id@ {
            Err::<(), CorrelationError>(CorrelationError::SelfParent)
        } else {
            Ok::<(), CorrelationError>(())
        }),
{
    match parent_outage_id {
        Some(parent) => if *parent == *outage_id {
            return Err(CorrelationError::SelfParent);
        },
        None => {},
    }
    Ok(())
}

pub fn immediate_parent(tag: &OutageTag) -> (p: Option<Symbol>)
    ensures
        p == tag.parent_outage_id,
{
    match &tag.parent_outage_id {
        Some(p) => Some(p.clone()),
        None => None,
    }
}

/// The root of `outage_id`'s cascade: its ancestor without a parent, or
/// the outage reached after `MAX_CORRELATION_DEPTH` steps up.
pub fn resolve_root(state: &CorrelationState, outage_id: &Symbol) -> (root: Symbol)
    requires
        state.wf(),
    ensures
        root@ == root_of(state.tags(), outage_id@),
{
    let ghost links = links_of(state.tags());
    let mut current = outage_id.clone();
    let mut depth: u32 = 0;
    while depth < MAX_CORRELATION_DEPTH
        invariant
            state.wf(),
            links == links_of(state.tags()),
            depth <= MAX_CORRELATION_DEPTH,
            current@ == link_walk(links, outage_id@, depth as nat),
        decreases MAX_CORRELATION_DEPTH - depth,
    {
        let next = match state.tags.get(&current.text) {
            Some(tag) => match &tag.parent_outage_id {
                Some(parent) => parent.clone(),
                None => {
                    proof {
                        lemma_walk_stays(links, outage_id@, depth as nat, MAX_CORRELATION_DEPTH as nat);
                    }
                    return current;
                },
            },
            None => {
                proof {
                    lemma_walk_stays(links, outage_id@, depth as nat, MAX_CORRELATION_DEPTH as nat);
                }
                return current;
            },
        };
        current = next;
        depth = depth + 1;
    }
    current
}

/// Whether `target` is `start` or one of its ancestors.
fn ancestry_contains(state: &CorrelationState, start: &Symbol, target: &Symbol) -> (b: bool)
    requires
        state.wf(),
    ensures
        b == in_ancestry(links_of(state.tags()), start@, target@),
{
    let ghost links = links_of(state.tags());
    proof {
        assert(reaches_top(links, start@));
    }
    let ghost n = choose|n: nat| at_top(links, #[trigger] link_walk(links, start@, n));
    let mut current = start.clone();
    let ghost mut i: nat = 0;
    loop
        invariant
            state.wf(),
            links == links_of(state.tags()),
            at_top(links, link_walk(links, start@, n)),
            i <= n,
            current@ == link_walk(links, start@, i),
            forall|j: nat| j < i ==> #[trigger] link_walk(links, start@, j) != target@,
        decreases n - i,
    {
        if current == *target {
            return true;
        }
        let next = match state.tags.get(&current.text) {
            Some(tag) => match &tag.parent_outage_id {
                Some(parent) => parent.clone(),
                None => {
                    proof {
                        assert forall|j: nat| #[trigger] link_walk(links, start@, j) != target@ by {
                            if j > i {
                                lemma_walk_stays(links, start@, i, j);
                            }
                        }
                    }
                    return false;
                },
            },
            None => {
                proof {
                    assert forall|j: nat| #[trigger] link_walk(links, start@, j) != target@ by {
                        if j > i {
                            lemma_walk_stays(links, start@, i, j);
                        }
                    }
                }
                return false;
            },
        };
        proof {
            if i == n {
                assert(at_top(links, link_walk(links, start@, i)));
            }
        }
        current = next;
        proof {
            i = i + 1;
        }
    }
}

/// Tagging `outage_id` under `parent` would close a cycle: `outage_id` is
/// `parent` or one of its ancestors.
pub fn would_create_cycle(state: &CorrelationState, outage_id: &Symbol, parent: &Symbol) -> (b: bool)
    requires
        state.wf(),
    ensures
        b == in_ancestry(links_of(state.tags()), parent@, outage_id@),
{
    ancestry_contains(state, parent, outage_id)
}

/// Tags an outage (replacing its earlier tag), records it among its
/// parent's children (once), and returns its root. A parent equal to the
/// outage, or descending from it, is refused.
pub fn tag_outage(state: &mut CorrelationState, tag: OutageTag) -> (r: Result<Symbol, CorrelationError>)
    requires
        old(state).wf(),
    ensures
        final(state).wf(),
        acyclic(links_of(final(state).tags())),
        forall|k: Seq<char>| #[trigger]
            final(state).children().contains_key(k) ==> distinct_ids(final(state).children()[k]),
        r is Ok ==> (tag.parent_outage_id matches Some(p) ==> listed_id(
            final(state).children()[p@],
            tag.outage_id@,
        )),
        ({
            let id = tag.outage_id@;
            let tags2 = old(state).tags().insert(id, tag);
            if tag.parent_outage_id matches Some(p) && p@ == id {
                r == Err::<Symbol, CorrelationError>(CorrelationError::SelfParent) && *final(state)
                    == *old(state)
            } else if tag.parent_outage_id matches Some(p) && in_ancestry(
                links_of(old(state).tags()),
                p@,
                id,
            ) {
                r == Err::<Symbol, CorrelationError>(CorrelationError::CycleDetected)
                    && *final(state) == *old(state)
            } else {
                &&& r matches Ok(root) && root@ == root_of(tags2, id)
                &&& final(state).tags() == tags2
                &&& final(state).children() == match tag.parent_outage_id {
                    None => old(state).children(),
                    Some(p) => {
                        let siblings = if old(state).children().contains_key(p@) {
                            old(state).children()[p@]
                        } else {
                            Seq::<Symbol>::empty()
                        };
                        old(state).children().insert(
                            p@,
                            if listed_id(siblings, id) {
                                siblings
                            } else {
                                siblings.push(tag.outage_id)
                            },
                        )
                    },
                }
            }
        }),
{
    match validate_parent(&tag.outage_id, &tag.parent_outage_id) {
        Err(e) => return Err(e),
        Ok(()) => {},
    }
    match &tag.parent_outage_id {
        Some(parent) => if would_create_cycle(state, &tag.outage_id, parent) {
            return Err(CorrelationError::CycleDetected);
        },
        None => {},
    }
    let outage_id = tag.outage_id.clone();
    let parent_outage_id = immediate_parent(&tag);
    proof {
        lemma_links_after_tag(state.tags(), outage_id@, tag);
        lemma_relink_keeps_acyclic(links_of(state.tags()), outage_id@, parent_name(tag));
    }
    state.tags.set(outage_id.text.clone(), tag);
    match parent_outage_id {
        Some(parent) => {
            let mut siblings = match state.children.get(&parent.text) {
                Some(v) => copy_ids(v),
                None => Vec::new(),
            };
            if !contains_id(&siblings, &outage_id) {
                let ghost before = siblings@;
                siblings.push(outage_id.clone());
                proof {
                    assert forall|i: int, j: int|
                        0 <= i < j < siblings@.len() implies #[trigger] siblings@[i]@
                        != #[trigger] siblings@[j]@ by {
                        if j < before.len() {
                            assert(siblings@[i] == before[i] && siblings@[j] == before[j]);
                        } else {
                            assert(siblings@[i] == before[i]);
                        }
                    }
                    assert(siblings@[siblings@.len() - 1]@ == outage_id@);
                }
            }
            assert(listed_id(siblings@, outage_id@));
            let ghost old_children = state.children();
            let ghost sib = siblings@;
            state.children.set(parent.text.clone(), siblings);
            assert(state.children() =~= old_children.insert(parent@, sib));
        },
        None => {},
    }
    Ok(resolve_root(state, &outage_id))
}

/// The tag of `outage_id`, if any.
pub fn load_tag(state: &CorrelationState, outage_id: &Symbol) -> (t: Option<OutageTag>)
    requires
        state.wf(),
    ensures
        t is Some <==> state.tags().contains_key(outage_id@),
        t matches Some(x) ==> x == state.tags()[outage_id@],
{
    match state.tags.get(&outage_id.text) {
        Some(t) => Some(t.clone()),
        None => None,
    }
}

/// The children recorded under `parent`, none if there are none.
pub fn children_of(state: &CorrelationState, parent: &Symbol) -> (c: Vec<Symbol>)
    requires
        state.wf(),
    ensures
        c@ == if state.children().contains_key(parent@) {
            state.children()[parent@]
        } else {
            Seq::<Symbol>::empty()
        },
{
    match state.children.get(&parent.text) {
        Some(v) => copy_ids(v),
        None => Vec::new(),
    }
}

/// The outages among `keys` whose root is `root`, in order.
pub open spec fn group_members(tags: Map<Seq<char>, OutageTag>, keys: Seq<Seq<char>>, root: Seq<char>) -> Seq<
    Seq<char>,
> {
    keys.filter(|k: Seq<char>| root_of(tags, k) == root)
}

/// The outages among `keys` grouped by root.
pub open spec fn groups_of(tags: Map<Seq<char>, OutageTag>, keys: Seq<Seq<char>>) -> Map<
    Seq<char>,
    Seq<Seq<char>>,
> {
    Map::new(
        |r: Seq<char>| exists|i: int| 0 <= i < keys.len() && root_of(tags, #[trigger] keys[i]) == r,
        |r: Seq<char>| group_members(tags, keys, r),
    )
}

proof fn lemma_filter_within(s: Seq<Seq<char>>, pred: spec_fn(Seq<char>) -> bool, x: Seq<char>)
    requires
        s.filter(pred).contains(x),
    ensures
        s.contains(x),
    decreases s.len(),
{
    reveal(Seq::filter);
    if s.len() > 0 {
        let rest = s.drop_last();
        if rest.filter(pred).contains(x) {
            lemma_filter_within(rest, pred, x);
            let j = choose|j: int| 0 <= j < rest.len() && rest[j] == x;
            assert(s[j] == x);
        } else {
            assert(x == s.last());
        }
    }
}

/// Every tagged outage grouped under its root, the members of each group
/// in the host's order of outage ids.
pub fn group_by_root(state: &CorrelationState) -> (groups: Table<Vec<Symbol>>)
    requires
        state.wf(),
    ensures
        groups.wf(),
        groups@.map_values(|v: Vec<Symbol>| v@.map_values(|s: Symbol| s@)) == groups_of(
            state.tags(),
            key_order(state.tagged()),
        ),
{
    let ghost tags = state.tags();
    let ghost keys = key_order(state.tagged());
    let ids = state.tags.keys();
    let ks = order_keys(&ids);
    proof {
        state.lemma_tagged();
        lemma_key_order_distinct(state.tagged());
    }
    let mut groups: Table<Vec<Symbol>> = Table::new();
    let n = ks.len();
    let mut i: usize = 0;
    assert(groups@.map_values(|v: Vec<Symbol>| v@.map_values(|s: Symbol| s@)) =~= groups_of(
        tags,
        keys.subrange(0, 0),
    ));
    while i < n
        invariant
            state.wf(),
            tags == state.tags(),
            keys == key_order(state.tagged()),
            texts(ks@) == keys,
            n == ks@.len(),
            keys.no_duplicates(),
            n == keys.len(),
            i <= n,
            groups.wf(),
            groups@.map_values(|v: Vec<Symbol>| v@.map_values(|s: Symbol| s@)) == groups_of(
                tags,
                keys.subrange(0, i as int),
            ),
        decreases n - i,
    {
        let outage_id = Symbol::from_string(ks[i].clone());
        assert(texts(ks@)[i as int] == ks@[i as int]@);
        let root = resolve_root(state, &outage_id);
        let ghost pre = keys.subrange(0, i as int);
        let ghost next = keys.subrange(0, i + 1);
        let ghost k = keys[i as int];
        let ghost r = root@;
        let ghost before = groups@.map_values(|v: Vec<Symbol>| v@.map_values(|s: Symbol| s@));
        let mut members = match groups.get(&root.text) {
            Some(v) => copy_ids(v),
            None => Vec::new(),
        };
        proof {
            reveal(Seq::filter);
            assert(next.drop_last() =~= pre);
            assert(next.last() == k);
            if !before.contains_key(r) {
                assert(group_members(tags, pre, r) =~= Seq::<Seq<char>>::empty()) by {
                    if group_members(tags, pre, r).len() > 0 {
                        let pred = |x: Seq<char>| root_of(tags, x) == r;
                        pre.lemma_filter_pred(pred, 0);
                        let x = pre.filter(pred)[0];
                        assert(pre.filter(pred).contains(x));
                        lemma_filter_within(pre, pred, x);
                        let j = choose|j: int| 0 <= j < pre.len() && pre[j] == x;
                        assert(root_of(tags, pre[j]) == r);
                    }
                }
            }
            if before.contains_key(r) {
                assert(groups@.contains_key(r));
                assert(before[r] == groups@[r]@.map_values(|s: Symbol| s@));
                assert(groups_of(tags, pre)[r] == group_members(tags, pre, r));
            }
            assert(members@.map_values(|s: Symbol| s@) =~= group_members(tags, pre, r));
        }
        let present = contains_id(&members, &outage_id);
        proof {
            if present {
                let j = choose|j: int| 0 <= j < members@.len() && #[trigger] members@[j]@ == k;
                assert(members@.map_values(|s: Symbol| s@)[j] == k);
                let pred = |x: Seq<char>| root_of(tags, x) == r;
                assert(pre.filter(pred).contains(k));
                lemma_filter_within(pre, pred, k);
                let j2 = choose|j2: int| 0 <= j2 < pre.len() && pre[j2] == k;
                assert(keys[j2] == keys[i as int]);
            }
        }
        let ghost prev = members@;
        members.push(outage_id);
        assert(members@.map_values(|s: Symbol| s@) =~= prev.map_values(|s: Symbol| s@).push(k));
        let ghost added = members@.map_values(|s: Symbol| s@);
        groups.set(root.text.clone(), members);
        proof {
            let after = groups@.map_values(|v: Vec<Symbol>| v@.map_values(|s: Symbol| s@));
            assert(after =~= before.insert(r, added));
            assert forall|r2: Seq<char>| #[trigger] groups_of(tags, next).contains_key(r2)
                <==> after.contains_key(r2) by {
                if after.contains_key(r2) && r2 != r {
                    let j = choose|j: int| 0 <= j < pre.len() && root_of(tags, #[trigger] pre[j]) == r2;
                    assert(next[j] == pre[j]);
                }
                if groups_of(tags, next).contains_key(r2) && r2 != r {
                    let j = choose|j: int| 0 <= j < next.len() && root_of(tags, #[trigger] next[j]) == r2;
                    assert(j < i);
                    assert(pre[j] == next[j]);
                }
                if r2 == r {
                    assert(root_of(tags, next[i as int]) == r);
                }
            }
            assert forall|r2: Seq<char>| #[trigger] after.contains_key(r2) implies after[r2]
                == group_members(tags, next, r2) by {
                if r2 != r {
                    assert(group_members(tags, next, r2) =~= group_members(tags, pre, r2));
                } else {
                    assert(group_members(tags, next, r2) =~= group_members(tags, pre, r2).push(k));
                }
            }
            assert(after =~= groups_of(tags, next));
        }
        i = i + 1;
    }
    assert(keys.subrange(0, n as int) =~= keys);
    groups
}

/// The downtime of `members`, added up and capped at `u64::MAX`.
pub open spec fn total_downtime(tags: Map<Seq<char>, OutageTag>, members: Seq<Seq<char>>) -> int
    decreases members.len(),
{
    if members.len() == 0 {
        0
    } else {
        let sum = total_downtime(tags, members.drop_last()) + if tags.contains_key(
            members.last(),
        ) {
            tags[members.last()].downtime_seconds as int
        } else {
            0
        };
        if sum > u64::MAX {
            u64::MAX as int
        } else {
            sum
        }
    }
}

/// The downtime of every outage in `root`'s group, added up and capped
/// at `u64::MAX`.
pub fn aggregate_root_downtime(state: &CorrelationState, root: &Symbol) -> (total: u64)
    requires
        state.wf(),
    ensures
        total == total_downtime(
            state.tags(),
            group_members(state.tags(), key_order(state.tagged()), root@),
        ),
{
    let ghost tags = state.tags();
    let ghost want = group_members(tags, key_order(state.tagged()), root@);
    let groups = group_by_root(state);
    let members = match groups.get(&root.text) {
        Some(v) => copy_ids(v),
        None => Vec::new(),
    };
    proof {
        let g = groups@.map_values(|v: Vec<Symbol>| v@.map_values(|s: Symbol| s@));
        if !g.contains_key(root@) {
            let keys = key_order(state.tagged());
            let pred = |x: Seq<char>| root_of(tags, x) == root@;
            if want.len() > 0 {
                keys.lemma_filter_pred(pred, 0);
                let x = keys.filter(pred)[0];
                assert(keys.filter(pred).contains(x));
                lemma_filter_within(keys, pred, x);
                let j = choose|j: int| 0 <= j < keys.len() && keys[j] == x;
                assert(root_of(tags, keys[j]) == root@);
            }
            assert(want =~= Seq::<Seq<char>>::empty());
        } else {
            assert(groups@.contains_key(root@));
            assert(g[root@] == groups@[root@]@.map_values(|s: Symbol| s@));
            assert(groups_of(tags, key_order(state.tagged()))[root@] == want);
        }
    }
    let ghost ids = members@.map_values(|s: Symbol| s@);
    assert(ids =~= want);
    let mut total: u64 = 0;
    let mut i: usize = 0;
    while i < members.len()
        invariant
            state.wf(),
            tags == state.tags(),
            ids == members@.map_values(|s: Symbol| s@),
            i <= members.len(),
            total == total_downtime(tags, ids.subrange(0, i as int)),
        decreases members.len() - i,
    {
        proof {
            assert(ids.subrange(0, i + 1).drop_last() =~= ids.subrange(0, i as int));
            assert(ids.subrange(0, i + 1).last() == members@[i as int]@);
        }
        match load_tag(state, &members[i]) {
            Some(tag) => {
                total = total.saturating_add(tag.downtime_seconds);
            },
            None => {},
        }
        i = i + 1;
    }
    assert(ids.subrange(0, members.len() as int) =~= ids);
    total
}

} // verus!
