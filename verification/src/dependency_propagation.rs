use vstd::prelude::*;
use crate::ident::{contains_id, copy_ids, listed_id, Symbol};
use crate::links::{
    acyclic, at_top, in_ancestry, lemma_empty_acyclic, lemma_relink_keeps_acyclic, lemma_walk_stays,
    link_walk, reaches_top,
};
use crate::table::Table;

verus! {

pub const STATUS_OPERATIONAL: u32 = 0;
pub const STATUS_DEGRADED: u32 = 1;
pub const STATUS_DOWN: u32 = 2;

#[derive(Clone, Copy, Debug, PartialEq, Eq, Structural)]
pub enum DependencyError {
    SelfDependency,
    CycleDetected,
}

/// What registering a dependency publishes.
pub enum DependencyEvent {
    Registered { parent: Symbol, child: Symbol },
}

/// The dependency links between sites, each site's children, the statuses
/// reported by hand, and which sites were degraded automatically by a
/// parent's outage, as kept in persistent storage.
pub struct DependencyState {
    parents: Table<Symbol>,
    children: Table<Vec<Symbol>>,
    manual: Table<u32>,
    auto_flags: Table<bool>,
    events: Vec<DependencyEvent>,
}

/// A list of names without repeats.
pub open spec fn distinct_ids(ids: Seq<Symbol>) -> bool {
    forall|i: int, j: int| 0 <= i < j < ids.len() ==> #[trigger] ids[i]@ != #[trigger] ids[j]@
}

impl DependencyState {
    /// The parent links, by site name.
    pub open spec fn links(&self) -> Map<Seq<char>, Seq<char>> {
        self.parents().map_values(|p: Symbol| p@)
    }

    pub closed spec fn parents(&self) -> Map<Seq<char>, Symbol> {
        self.parents@
    }

    pub closed spec fn children(&self) -> Map<Seq<char>, Seq<Symbol>> {
        self.children@.map_values(|v: Vec<Symbol>| v@)
    }

    /// The status reported for each site.
    pub closed spec fn reported(&self) -> Map<Seq<char>, u32> {
        self.manual@
    }

    /// The sites degraded automatically.
    pub closed spec fn degraded(&self) -> Set<Seq<char>> {
        Set::new(|k: Seq<char>| self.auto_flags@.contains_key(k) && self.auto_flags@[k])
    }

    pub closed spec fn event_log(&self) -> Seq<DependencyEvent> {
        self.events@
    }

    /// The tables are consistent, each child is listed once under its
    /// parent, and the links form no cycle.
    pub closed spec fn wf(&self) -> bool {
        &&& self.parents.wf()
        &&& self.children.wf()
        &&& self.manual.wf()
        &&& self.auto_flags.wf()
        &&& forall|k: Seq<char>| #[trigger]
            self.children@.contains_key(k) ==> distinct_ids(self.children@[k]@)
        &&& acyclic(self.links())
    }

    /// No dependencies, statuses or flags.
    pub fn new() -> (s: Self)
        ensures
            s.wf(),
            s.links() == Map::<Seq<char>, Seq<char>>::empty(),
            s.children() == Map::<Seq<char>, Seq<Symbol>>::empty(),
            s.reported() == Map::<Seq<char>, u32>::empty(),
            s.degraded() == Set::<Seq<char>>::empty(),
            s.event_log() == Seq::<DependencyEvent>::empty(),
    {
        let s = DependencyState {
            parents: Table::new(),
            children: Table::new(),
            manual: Table::new(),
            auto_flags: Table::new(),
            events: Vec::new(),
        };
        proof {
            lemma_empty_acyclic();
            assert(s.links() =~= Map::<Seq<char>, Seq<char>>::empty());
            assert(s.children() =~= Map::<Seq<char>, Seq<Symbol>>::empty());
            assert(s.degraded() =~= Set::<Seq<char>>::empty());
        }
        s
    }

    pub fn events(&self) -> (e: &Vec<DependencyEvent>)
        ensures
            e@ == self.event_log(),
    {
        &self.events
    }
}

fn ancestry_contains(state: &DependencyState, start: &Symbol, target: &Symbol) -> (b: bool)
    requires
        state.wf(),
    ensures
        b == in_ancestry(state.links(), start@, target@),
{
    let ghost links = state.links();
    proof {
        assert(reaches_top(links, start@));
    }
    let ghost n = choose|n: nat| at_top(links, #[trigger] link_walk(links, start@, n));
    let mut current = start.clone();
    let ghost mut i: nat = 0;
    loop
        invariant
            state.wf(),
            links == state.links(),
            at_top(links, link_walk(links, start@, n)),
            i <= n,
            current@ == link_walk(links, start@, i),
            forall|j: nat| j < i ==> #[trigger] link_walk(links, start@, j) != target@,
        decreases n - i,
    {
        if current == *target {
            return true;
        }
        let next = match state.parents.get(&current.text) {
            Some(parent) => parent.clone(),
            None => {
                proof {
                    assert forall|j: nat| #[trigger] link_walk(links, start@, j) != target@ by {
                        if j > i {
                            lemma_walk_stays(links, start@, i, j);
                        }
                    }
                }
                return false;
            },
        };
        proof {
            if i == n {
                assert(at_top(links, link_walk(links, start@, i)));
            }
        }
        current = next;
        proof {
            i = i + 1;
        }
    }
}

/// Making `child` depend on `parent` would close a cycle: `child` is
/// `parent` or one of its ancestors.
pub fn would_create_cycle(state: &DependencyState, parent: &Symbol, child: &Symbol) -> (b: bool)
    requires
        state.wf(),
    ensures
        b == in_ancestry(state.links(), parent@, child@),
{
    ancestry_contains(state, parent, child)
}

/// Makes `child` depend on `parent` (replacing its earlier parent link)
/// and lists it once among `parent`'s children. A site cannot depend on
/// itself or on one of its descendants.
pub fn register_dependency(state: &mut DependencyState, parent: &Symbol, child: &Symbol) -> (r:
    Result<(), DependencyError>)
    requires
        old(state).wf(),
    ensures
        final(state).wf(),
        acyclic(final(state).links()),
        forall|k: Seq<char>| #[trigger]
            final(state).children().contains_key(k) ==> distinct_ids(final(state).children()[k]),
        r is Ok ==> listed_id(final(state).children()[parent@], child@),
        ({
            if parent@ == child@ {
                r == Err::<(), DependencyError>(DependencyError::SelfDependency) && *final(state)
                    == *old(state)
            } else if in_ancestry(old(state).links(), parent@, child@) {
                r == Err::<(), DependencyError>(DependencyError::CycleDetected) && *final(state)
                    == *old(state)
            } else {
                let siblings = if old(state).children().contains_key(parent@) {
                    old(state).children()[parent@]
                } else {
                    Seq::<Symbol>::empty()
                };
                &&& r is Ok
                &&& final(state).parents() == old(state).parents().insert(child@, *parent)
                &&& final(state).children() == old(state).children().insert(
                    parent@,
                    if listed_id(siblings, child@) {
                        siblings
                    } else {
                        siblings.push(*child)
                    },
                )
                &&& final(state).reported() == old(state).reported()
                &&& final(state).degraded() == old(state).degraded()
                &&& final(state).event_log() == old(state).event_log().push(
                    DependencyEvent::Registered { parent: *parent, child: *child },
                )
            }
        }),
{
    if *parent == *child {
        return Err(DependencyError::SelfDependency);
    }
    if would_create_cycle(state, parent, child) {
        return Err(DependencyError::CycleDetected);
    }
    proof {
        lemma_relink_keeps_acyclic(state.links(), child@, Some(parent@));
        assert(state.links().insert(child@, parent@) =~= state.parents@.insert(
            child@,
            *parent,
        ).map_values(|p: Symbol| p@));
    }
    state.parents.set(child.text.clone(), parent.clone());
    let mut entries = match state.children.get(&parent.text) {
        Some(v) => copy_ids(v),
        None => Vec::new(),
    };
    if !contains_id(&entries, child) {
        let ghost before = entries@;
        entries.push(child.clone());
        proof {
            assert forall|i: int, j: int|
                0 <= i < j < entries@.len() implies #[trigger] entries@[i]@
                != #[trigger] entries@[j]@ by {
                if j == entries@.len() - 1 {
                    assert(entries@[i] == before[i]);
                } else {
                    assert(entries@[i] == before[i] && entries@[j] == before[j]);
                }
            }
            assert(entries@[entries@.len() - 1]@ == child@);
        }
    }
    assert(listed_id(entries@, child@));
    let ghost old_children = state.children();
    let ghost listed = entries@;
    state.children.set(parent.text.clone(), entries);
    assert(state.children() =~= old_children.insert(parent@, listed));
    state.events.push(DependencyEvent::Registered { parent: parent.clone(), child: child.clone() });
    Ok(())
}

/// The children listed under `parent`, none if there are none.
pub fn children_of(state: &DependencyState, parent: &Symbol) -> (c: Vec<Symbol>)
    requires
        state.wf(),
    ensures
        c@ == if state.children().contains_key(parent@) {
            state.children()[parent@]
        } else {
            Seq::<Symbol>::empty()
        },
{
    match state.children.get(&parent.text) {
        Some(v) => copy_ids(v),
        None => Vec::new(),
    }
}

/// The site `child` depends on, if any.
pub fn parent_of(state: &DependencyState, child: &Symbol) -> (p: Option<Symbol>)
    requires
        state.wf(),
    ensures
        p is Some <==> state.parents().contains_key(child@),
        p matches Some(x) ==> x == state.parents()[child@],
{
    match state.parents.get(&child.text) {
        Some(p) => Some(p.clone()),
        None => None,
    }
}

/// The status reported for `site`, operational if none was.
pub open spec fn reported_status(state: &DependencyState, site: Seq<char>) -> u32 {
    if state.reported().contains_key(site) {
        state.reported()[site]
    } else {
        STATUS_OPERATIONAL
    }
}

pub fn manual_status(state: &DependencyState, site: &Symbol) -> (s: u32)
    requires
        state.wf(),
    ensures
        s == reported_status(state, site@),
{
    match state.manual.get(&site.text) {
        Some(s) => *s,
        None => STATUS_OPERATIONAL,
    }
}

/// Records the status reported for `site`.
pub fn report_status(state: &mut DependencyState, site: &Symbol, status: u32)
    requires
        old(state).wf(),
    ensures
        final(state).wf(),
        final(state).reported() == old(state).reported().insert(site@, status),
        final(state).parents() == old(state).parents(),
        final(state).children() == old(state).children(),
        final(state).degraded() == old(state).degraded(),
        final(state).event_log() == old(state).event_log(),
{
    state.manual.set(site.text.clone(), status);
}

fn set_auto_flag(state: &mut DependencyState, site: &Symbol, flagged: bool)
    requires
        old(state).wf(),
    ensures
        final(state).wf(),
        final(state).degraded() == if flagged {
            old(state).degraded().insert(site@)
        } else {
            old(state).degraded().remove(site@)
        },
        final(state).parents() == old(state).parents(),
        final(state).children() == old(state).children(),
        final(state).reported() == old(state).reported(),
        final(state).event_log() == old(state).event_log(),
{
    let ghost before = state.degraded();
    state.auto_flags.set(site.text.clone(), flagged);
    if flagged {
        assert(state.degraded() =~= before.insert(site@));
    } else {
        assert(state.degraded() =~= before.remove(site@));
    }
}

pub fn is_auto_degraded(state: &DependencyState, site: &Symbol) -> (b: bool)
    requires
        state.wf(),
    ensures
        b == state.degraded().contains(site@),
{
    match state.auto_flags.get(&site.text) {
        Some(f) => *f,
        None => false,
    }
}

/// The status of `site`: down when reported down, otherwise degraded
/// when a parent's outage degraded it, otherwise as reported.
pub open spec fn status_of(state: &DependencyState, site: Seq<char>) -> u32 {
    if reported_status(state, site) == STATUS_DOWN {
        STATUS_DOWN
    } else if state.degraded().contains(site) {
        STATUS_DEGRADED
    } else {
        reported_status(state, site)
    }
}

pub fn site_status(state: &DependencyState, site: &Symbol) -> (s: u32)
    requires
        state.wf(),
    ensures
        s == status_of(state, site@),
{
    let reported = manual_status(state, site);
    if reported == STATUS_DOWN {
        return STATUS_DOWN;
    }
    if is_auto_degraded(state, site) {
        return STATUS_DEGRADED;
    }
    reported
}

/// The children listed under `parent`.
pub open spec fn children_list(state: &DependencyState, parent: Seq<char>) -> Seq<Symbol> {
    if state.children().contains_key(parent) {
        state.children()[parent]
    } else {
        Seq::<Symbol>::empty()
    }
}

/// A parent's outage degrades each of its children not reported down,
/// and returns how many it flagged.
pub fn propagate_outage(state: &mut DependencyState, parent: &Symbol) -> (flagged: u32)
    requires
        old(state).wf(),
        children_list(old(state), parent@).len() <= u32::MAX,
    ensures
        final(state).wf(),
        ({
            let kids = children_list(old(state), parent@);
            let hit = |c: Symbol| reported_status(old(state), c@) != STATUS_DOWN;
            &&& flagged == kids.filter(hit).len()
            &&& final(state).degraded() == old(state).degraded().union(
                Set::new(|k: Seq<char>| listed_id(kids, k) && reported_status(old(state), k) != STATUS_DOWN),
            )
            &&& final(state).parents() == old(state).parents()
            &&& final(state).children() == old(state).children()
            &&& final(state).reported() == old(state).reported()
            &&& final(state).event_log() == old(state).event_log()
        }),
{
    let kids = children_of(state, parent);
    let ghost start = *state;
    let ghost hit = |c: Symbol| reported_status(&start, c@) != STATUS_DOWN;
    let mut flagged: u32 = 0;
    let mut i: usize = 0;
    while i < kids.len()
        invariant
            state.wf(),
            kids@ == children_list(&start, parent@),
            kids.len() <= u32::MAX,
            hit == (|c: Symbol| reported_status(&start, c@) != STATUS_DOWN),
            i <= kids.len(),
            flagged == kids@.subrange(0, i as int).filter(hit).len(),
            flagged <= i,
            state.degraded() == start.degraded().union(
                Set::new(
                    |k: Seq<char>|
                        listed_id(kids@.subrange(0, i as int), k) && reported_status(&start, k)
                            != STATUS_DOWN,
                ),
            ),
            state.parents() == start.parents(),
            state.children() == start.children(),
            state.reported() == start.reported(),
            state.event_log() == start.event_log(),
        decreases kids.len() - i,
    {
        let child = &kids[i];
        let ghost pre = kids@.subrange(0, i as int);
        let ghost next = kids@.subrange(0, i + 1);
        proof {
            reveal(Seq::filter);
            assert(next.drop_last() =~= pre);
            assert(next.last() == *child);
            assert forall|k: Seq<char>| listed_id(next, k) <==> (listed_id(pre, k) || k == child@) by {
                if listed_id(next, k) {
                    let j = choose|j: int| 0 <= j < next.len() && #[trigger] next[j]@ == k;
                    if j < i {
                        assert(pre[j] == next[j]);
                    }
                }
                if listed_id(pre, k) {
                    let j = choose|j: int| 0 <= j < pre.len() && #[trigger] pre[j]@ == k;
                    assert(next[j] == pre[j]);
                }
                if k == child@ {
                    assert(next[i as int]@ == k);
                }
            }
        }
        if manual_status(state, child) != STATUS_DOWN {
            let ghost before = state.degraded();
            set_auto_flag(state, child, true);
            flagged = flagged + 1;
            assert(state.degraded() =~= start.degraded().union(
                Set::new(
                    |k: Seq<char>| listed_id(next, k) && reported_status(&start, k) != STATUS_DOWN,
                ),
            ));
        } else {
            assert(state.degraded() =~= start.degraded().union(
                Set::new(
                    |k: Seq<char>| listed_id(next, k) && reported_status(&start, k) != STATUS_DOWN,
                ),
            ));
        }
        i = i + 1;
    }
    assert(kids@.subrange(0, kids.len() as int) =~= kids@);
    flagged
}

/// Closing a parent's outage lifts the automatic degradation of its
/// children, and returns how many it cleared.
pub fn clear_outage(state: &mut DependencyState, parent: &Symbol) -> (cleared: u32)
    requires
        old(state).wf(),
        children_list(old(state), parent@).len() <= u32::MAX,
    ensures
        final(state).wf(),
        ({
            let kids = children_list(old(state), parent@);
            let hit = |c: Symbol| old(state).degraded().contains(c@);
            &&& cleared == kids.filter(hit).len()
            &&& final(state).degraded() == old(state).degraded().difference(
                Set::new(|k: Seq<char>| listed_id(kids, k)),
            )
            &&& final(state).parents() == old(state).parents()
            &&& final(state).children() == old(state).children()
            &&& final(state).reported() == old(state).reported()
            &&& final(state).event_log() == old(state).event_log()
        }),
{
    let kids = children_of(state, parent);
    let ghost start = *state;
    let ghost hit = |c: Symbol| start.degraded().contains(c@);
    proof {
        assert(start.children@.contains_key(parent@) ==> distinct_ids(start.children@[parent@]@));
        assert(distinct_ids(kids@));
    }
    let mut cleared: u32 = 0;
    let mut i: usize = 0;
    while i < kids.len()
        invariant
            state.wf(),
            kids@ == children_list(&start, parent@),
            distinct_ids(kids@),
            kids.len() <= u32::MAX,
            hit == (|c: Symbol| start.degraded().contains(c@)),
            i <= kids.len(),
            cleared == kids@.subrange(0, i as int).filter(hit).len(),
            cleared <= i,
            state.degraded() == start.degraded().difference(
                Set::new(|k: Seq<char>| listed_id(kids@.subrange(0, i as int), k)),
            ),
            state.parents() == start.parents(),
            state.children() == start.children(),
            state.reported() == start.reported(),
            state.event_log() == start.event_log(),
        decreases kids.len() - i,
    {
        let child = &kids[i];
        let ghost pre = kids@.subrange(0, i as int);
        let ghost next = kids@.subrange(0, i + 1);
        proof {
            reveal(Seq::filter);
            assert(next.drop_last() =~= pre);
            assert(next.last() == *child);
            assert forall|k: Seq<char>| listed_id(next, k) <==> (listed_id(pre, k) || k == child@) by {
                if listed_id(next, k) {
                    let j = choose|j: int| 0 <= j < next.len() && #[trigger] next[j]@ == k;
                    if j < i {
                        assert(pre[j] == next[j]);
                    }
                }
                if listed_id(pre, k) {
                    let j = choose|j: int| 0 <= j < pre.len() && #[trigger] pre[j]@ == k;
                    assert(next[j] == pre[j]);
                }
                if k == child@ {
                    assert(next[i as int]@ == k);
                }
            }
            assert(!listed_id(pre, child@)) by {
                if listed_id(pre, child@) {
                    let j = choose|j: int| 0 <= j < pre.len() && #[trigger] pre[j]@ == child@;
                    assert(kids@[j]@ != kids@[i as int]@);
                }
            }
        }
        if is_auto_degraded(state, child) {
            set_auto_flag(state, child, false);
            cleared = cleared + 1;
        }
        assert(state.degraded() =~= start.degraded().difference(
            Set::new(|k: Seq<char>| listed_id(next, k)),
        ));
        i = i + 1;
    }
    assert(kids@.subrange(0, kids.len() as int) =~= kids@);
    cleared
}

/// Registering dependencies never creates a cycle, so the walk up from
/// any site reaches a site that depends on nothing.
pub proof fn lemma_dependencies_acyclic(state: &DependencyState, site: Seq<char>)
    requires
        state.wf(),
    ensures
        reaches_top(state.links(), site),
{
}

/// What every state the dependency functions leave satisfies: the parent
/// links form no cycle, and each parent lists each of its children once.
pub proof fn lemma_dependency_index_sound(state: &DependencyState)
    requires
        state.wf(),
    ensures
        acyclic(state.links()),
        forall|k: Seq<char>| #[trigger]
            state.children().contains_key(k) ==> distinct_ids(state.children()[k]),
{
}

/// A site reported down is down, whatever a parent's outage did to it;
/// and a site is down only when it was reported down (an outage of a
/// parent degrades it, never more).
pub proof fn lemma_reported_down_wins(state: &DependencyState, site: Seq<char>)
    ensures
        reported_status(state, site) == STATUS_DOWN ==> status_of(state, site) == STATUS_DOWN,
        status_of(state, site) == STATUS_DOWN ==> reported_status(state, site) == STATUS_DOWN,
        reported_status(state, site) != STATUS_DOWN && state.degraded().contains(site) ==> status_of(
            state,
            site,
        ) == STATUS_DEGRADED,
{
}

} // verus!
