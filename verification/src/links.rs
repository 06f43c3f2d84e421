use vstd::prelude::*;

verus! {

// Parent links between named items (outages, sites): each item maps to at
// most one parent. Walking up the links from an item follows parents
// until an item without one.

/// One step up: the parent of `k`, or `k` itself at the top.
pub open spec fn link_step(links: Map<Seq<char>, Seq<char>>, k: Seq<char>) -> Seq<char> {
    if links.contains_key(k) {
        links[k]
    } else {
        k
    }
}

/// Where `n` steps up from `k` lead.
pub open spec fn link_walk(links: Map<Seq<char>, Seq<char>>, k: Seq<char>, n: nat) -> Seq<char>
    decreases n,
{
    if n == 0 {
        k
    } else {
        link_step(links, link_walk(links, k, (n - 1) as nat))
    }
}

/// `k` has no parent.
pub open spec fn at_top(links: Map<Seq<char>, Seq<char>>, k: Seq<char>) -> bool {
    !links.contains_key(k)
}

/// The walk up from `k` reaches an item without a parent.
pub open spec fn reaches_top(links: Map<Seq<char>, Seq<char>>, k: Seq<char>) -> bool {
    exists|n: nat| at_top(links, #[trigger] link_walk(links, k, n))
}

/// The links form no cycle: every walk up ends.
pub open spec fn acyclic(links: Map<Seq<char>, Seq<char>>) -> bool {
    forall|k: Seq<char>| #[trigger] reaches_top(links, k)
}

/// `target` is `start` or one of its ancestors.
pub open spec fn in_ancestry(links: Map<Seq<char>, Seq<char>>, start: Seq<char>, target: Seq<char>) -> bool {
    exists|i: nat| #[trigger] link_walk(links, start, i) == target
}

/// The links with `key`'s parent set to `parent`, or removed when there is
/// none.
pub open spec fn relink(links: Map<Seq<char>, Seq<char>>, key: Seq<char>, parent: Option<Seq<char>>) -> Map<
    Seq<char>,
    Seq<char>,
> {
    match parent {
        Some(p) => links.insert(key, p),
        None => links.remove(key),
    }
}

/// No links at all are acyclic.
pub proof fn lemma_empty_acyclic()
    ensures
        acyclic(Map::<Seq<char>, Seq<char>>::empty()),
{
    let links = Map::<Seq<char>, Seq<char>>::empty();
    assert forall|k: Seq<char>| #[trigger] reaches_top(links, k) by {
        assert(at_top(links, link_walk(links, k, 0)));
    }
}

/// Once at the top, a walk stays there.
pub proof fn lemma_walk_stays(links: Map<Seq<char>, Seq<char>>, k: Seq<char>, i: nat, j: nat)
    requires
        i <= j,
        at_top(links, link_walk(links, k, i)),
    ensures
        link_walk(links, k, j) == link_walk(links, k, i),
    decreases j - i,
{
    if i < j {
        lemma_walk_stays(links, k, i, (j - 1) as nat);
    }
}

pub proof fn lemma_walk_add(links: Map<Seq<char>, Seq<char>>, k: Seq<char>, a: nat, b: nat)
    ensures
        link_walk(links, k, a + b) == link_walk(links, link_walk(links, k, a), b),
    decreases b,
{
    if b > 0 {
        lemma_walk_add(links, k, a, (b - 1) as nat);
        assert((a + b - 1) as nat == a + (b - 1) as nat);
    }
}

/// After one step, a walk goes on from the parent.
pub proof fn lemma_walk_first(links: Map<Seq<char>, Seq<char>>, k: Seq<char>, n: nat)
    ensures
        link_walk(links, k, n + 1) == link_walk(links, link_step(links, k), n),
{
    lemma_walk_add(links, k, 1, n);
    assert(link_walk(links, k, 1) == link_step(links, link_walk(links, k, 0)));
}

proof fn lemma_top_avoiding(
    links: Map<Seq<char>, Seq<char>>,
    key: Seq<char>,
    parent: Option<Seq<char>>,
    y: Seq<char>,
    n: nat,
)
    requires
        at_top(links, link_walk(links, y, n)),
        !in_ancestry(links, y, key),
    ensures
        reaches_top(relink(links, key, parent), y),
    decreases n,
{
    let links2 = relink(links, key, parent);
    assert(link_walk(links, y, 0) != key);
    if n == 0 {
        assert(at_top(links2, link_walk(links2, y, 0)));
    } else {
        let next = link_step(links, y);
        assert(link_step(links2, y) == next);
        lemma_walk_first(links, y, (n - 1) as nat);
        assert forall|i: nat| #[trigger] link_walk(links, next, i) != key by {
            lemma_walk_first(links, y, i);
            assert(link_walk(links, y, i + 1) != key);
        }
        lemma_top_avoiding(links, key, parent, next, (n - 1) as nat);
        let m = choose|m: nat| at_top(links2, #[trigger] link_walk(links2, next, m));
        lemma_walk_first(links2, y, m);
        assert(at_top(links2, link_walk(links2, y, m + 1)));
    }
}

proof fn lemma_key_reaches_top(links: Map<Seq<char>, Seq<char>>, key: Seq<char>, parent: Option<Seq<char>>)
    requires
        acyclic(links),
        parent matches Some(p) ==> !in_ancestry(links, p, key),
    ensures
        reaches_top(relink(links, key, parent), key),
{
    let links2 = relink(links, key, parent);
    match parent {
        None => {
            assert(at_top(links2, link_walk(links2, key, 0)));
        },
        Some(p) => {
            assert(reaches_top(links, p));
            let n = choose|n: nat| at_top(links, #[trigger] link_walk(links, p, n));
            lemma_top_avoiding(links, key, parent, p, n);
            let m = choose|m: nat| at_top(links2, #[trigger] link_walk(links2, p, m));
            lemma_walk_first(links2, key, m);
            assert(at_top(links2, link_walk(links2, key, m + 1)));
        },
    }
}

proof fn lemma_reaches_top_after(
    links: Map<Seq<char>, Seq<char>>,
    key: Seq<char>,
    parent: Option<Seq<char>>,
    x: Seq<char>,
    n: nat,
)
    requires
        acyclic(links),
        parent matches Some(p) ==> !in_ancestry(links, p, key),
        at_top(links, link_walk(links, x, n)),
    ensures
        reaches_top(relink(links, key, parent), x),
    decreases n,
{
    let links2 = relink(links, key, parent);
    if x == key {
        lemma_key_reaches_top(links, key, parent);
    } else if n == 0 {
        assert(at_top(links2, link_walk(links2, x, 0)));
    } else {
        let next = link_step(links, x);
        assert(link_step(links2, x) == next);
        lemma_walk_first(links, x, (n - 1) as nat);
        lemma_reaches_top_after(links, key, parent, next, (n - 1) as nat);
        let m = choose|m: nat| at_top(links2, #[trigger] link_walk(links2, next, m));
        lemma_walk_first(links2, x, m);
        assert(at_top(links2, link_walk(links2, x, m + 1)));
    }
}

/// Giving `key` a parent that does not descend from it (or no parent)
/// keeps the links acyclic.
pub proof fn lemma_relink_keeps_acyclic(
    links: Map<Seq<char>, Seq<char>>,
    key: Seq<char>,
    parent: Option<Seq<char>>,
)
    requires
        acyclic(links),
        parent matches Some(p) ==> !in_ancestry(links, p, key),
    ensures
        acyclic(relink(links, key, parent)),
{
    assert forall|x: Seq<char>| #[trigger] reaches_top(relink(links, key, parent), x) by {
        assert(reaches_top(links, x));
        let n = choose|n: nat| at_top(links, #[trigger] link_walk(links, x, n));
        lemma_reaches_top_after(links, key, parent, x, n);
    }
}

} // verus!
