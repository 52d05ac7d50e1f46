//! The tree of joins of a query: each node is a table under an alias, reached from its parent by
//! a link to one row, and may carry common table expressions joined to it.
use vstd::prelude::*;

use crate::paths::LinkToOne;
use crate::sql_tree::Cte;

verus! {

/// Where the aliases of newly joined tables come from. A source is a state: asked for an alias
/// for a link, it gives the alias that its state holds for that link and moves on to a new state.
pub trait AliasSource: Sized {
    /// The alias that this source gives when it is asked for `link`.
    spec fn alias_given(&self, link: LinkToOne) -> Seq<char>;

    /// This source once it has given an alias for `link`.
    spec fn after_giving(&self, link: LinkToOne) -> Self;

    /// An alias for the table that `link` reaches.
    fn alias_for(&mut self, link: &LinkToOne) -> (r: String)
        ensures
            r@ == old(self).alias_given(*link),
            *final(self) == old(self).after_giving(*link);
}

/// The source `src` once it has been asked for an alias for each link of `links`, the last link
/// first and the first link last.
pub open spec fn asked_for<S: AliasSource>(src: S, links: Seq<LinkToOne>) -> S
    decreases links.len(),
{
    if links.len() == 0 {
        src
    } else {
        asked_for(src, links.drop_first()).after_giving(links[0])
    }
}

#[derive(Debug)]
pub struct JoinTree {
    pub alias: String,
    /// The subtrees reached from this table, each by its link.
    pub dependents: Vec<(LinkToOne, JoinTree)>,
    pub ctes: Vec<Cte>,
}

/// The position of the last dependent reached by `link`, or -1 when there is none.
pub open spec fn find_link(deps: Seq<(LinkToOne, JoinTree)>, link: LinkToOne) -> int
    decreases deps.len(),
{
    if deps.len() == 0 {
        -1
    } else if deps.last().0 == link {
        deps.len() - 1
    } else {
        find_link(deps.drop_last(), link)
    }
}

/// The node reached from `t` by following `path`, if every link of it is in the tree.
pub open spec fn node_at(t: JoinTree, path: Seq<LinkToOne>) -> Option<JoinTree>
    decreases t, path.len(),
{
    if path.len() == 0 {
        Some(t)
    } else {
        let k = find_link(t.dependents@, path[0]);
        if 0 <= k < t.dependents@.len() {
            proof {
                assert(decreases_to!(t => t.dependents));
                assert(decreases_to!(t.dependents => t.dependents@));
                assert(decreases_to!(t.dependents@ => t.dependents@[k]));
                assert(decreases_to!(t.dependents@[k] => t.dependents@[k].1));
            }
            node_at(t.dependents@[k].1, path.drop_first())
        } else {
            None
        }
    }
}

/// The node at `path` keeps its alias: it exists in `n` wherever it exists in `o`, under the same
/// alias.
pub open spec fn keeps_node(o: JoinTree, n: JoinTree, path: Seq<LinkToOne>) -> bool {
    node_at(o, path) is Some ==> node_at(n, path) is Some && node_at(n, path)->0.alias == node_at(
        o,
        path,
    )->0.alias
}

/// Every node of `o` is in `n` under the same alias.
pub open spec fn keeps_nodes(o: JoinTree, n: JoinTree) -> bool {
    forall|path: Seq<LinkToOne>| #[trigger] keeps_node(o, n, path)
}

/// The node at `p`, unless it is the node at `path`, keeps its common table expressions.
pub open spec fn keeps_ctes_at(o: JoinTree, n: JoinTree, path: Seq<LinkToOne>, p: Seq<LinkToOne>) -> bool {
    node_at(o, p) is Some && p != path ==> node_at(n, p) is Some && node_at(n, p)->0.ctes@ == node_at(
        o,
        p,
    )->0.ctes@
}

/// Every node of `o` other than the one at `path` keeps its common table expressions in `n`.
pub open spec fn keeps_ctes_off(o: JoinTree, n: JoinTree, path: Seq<LinkToOne>) -> bool {
    forall|p: Seq<LinkToOne>| #[trigger] keeps_ctes_at(o, n, path, p)
}

/// `p` is a non-empty prefix of `path`.
pub open spec fn leads_along(p: Seq<LinkToOne>, path: Seq<LinkToOne>) -> bool {
    1 <= p.len() <= path.len() && p == path.take(p.len() as int)
}

/// Every node of `n` was already in `o` or lies along `path`.
pub open spec fn adds_only_along(o: JoinTree, n: JoinTree, path: Seq<LinkToOne>) -> bool {
    forall|p: Seq<LinkToOne>| #[trigger] node_at(n, p) is Some ==> node_at(o, p) is Some || leads_along(p, path)
}

/// The common table expressions of `o`'s node at `path` (none when it has no such node), with
/// `cte` added at the end.
pub open spec fn ctes_with(o: JoinTree, path: Seq<LinkToOne>, cte: Option<Cte>) -> Seq<Cte> {
    let before = match node_at(o, path) {
        Some(node) => node.ctes@,
        None => Seq::empty(),
    };
    match cte {
        Some(c) => before.push(c),
        None => before,
    }
}

proof fn lemma_find_link_range(deps: Seq<(LinkToOne, JoinTree)>, link: LinkToOne)
    ensures
        -1 <= find_link(deps, link) < deps.len(),
        find_link(deps, link) >= 0 ==> deps[find_link(deps, link)].0 == link,
    decreases deps.len(),
{
    if deps.len() > 0 {
        lemma_find_link_range(deps.drop_last(), link);
    }
}

proof fn lemma_find_link_push(deps: Seq<(LinkToOne, JoinTree)>, entry: (LinkToOne, JoinTree), link: LinkToOne)
    ensures
        find_link(deps.push(entry), link) == if entry.0 == link {
            deps.len() as int
        } else {
            find_link(deps, link)
        },
{
    assert(deps.push(entry).drop_last() =~= deps);
}

proof fn lemma_find_link_update(
    deps: Seq<(LinkToOne, JoinTree)>,
    k: int,
    entry: (LinkToOne, JoinTree),
    link: LinkToOne,
)
    requires
        0 <= k < deps.len(),
        entry.0 == deps[k].0,
    ensures
        find_link(deps.update(k, entry), link) == find_link(deps, link),
    decreases deps.len(),
{
    if k < deps.len() - 1 {
        assert(deps.update(k, entry).drop_last() =~= deps.drop_last().update(k, entry));
        lemma_find_link_update(deps.drop_last(), k, entry, link);
    } else {
        assert(deps.update(k, entry).drop_last() =~= deps.drop_last());
    }
}

/// How many of the first links of `path` lead, one after another, to nodes already in `t`.
pub open spec fn existing_prefix(t: JoinTree, path: Seq<LinkToOne>) -> nat
    decreases t, path.len(),
{
    if path.len() == 0 {
        0
    } else {
        let k = find_link(t.dependents@, path[0]);
        if 0 <= k < t.dependents@.len() {
            proof {
                assert(decreases_to!(t => t.dependents));
                assert(decreases_to!(t.dependents => t.dependents@));
                assert(decreases_to!(t.dependents@ => t.dependents@[k]));
                assert(decreases_to!(t.dependents@[k] => t.dependents@[k].1));
            }
            1 + existing_prefix(t.dependents@[k].1, path.drop_first())
        } else {
            0
        }
    }
}

proof fn lemma_existing_prefix_bound(t: JoinTree, path: Seq<LinkToOne>)
    ensures
        existing_prefix(t, path) <= path.len(),
    decreases t, path.len(),
{
    if path.len() > 0 {
        let k = find_link(t.dependents@, path[0]);
        if 0 <= k < t.dependents@.len() {
            assert(decreases_to!(t => t.dependents));
            assert(decreases_to!(t.dependents => t.dependents@));
            assert(decreases_to!(t.dependents@ => t.dependents@[k]));
            assert(decreases_to!(t.dependents@[k] => t.dependents@[k].1));
            lemma_existing_prefix_bound(t.dependents@[k].1, path.drop_first());
        }
    }
}

/// No link reaches two of `deps`.
pub open spec fn distinct_links(deps: Seq<(LinkToOne, JoinTree)>) -> bool {
    forall|a: int, b: int| 0 <= a < b < deps.len() ==> #[trigger] deps[a].0 != #[trigger] deps[b].0
}

/// The node at `p`, if there is one, reaches no two of its dependents by the same link.
pub open spec fn distinct_links_at(t: JoinTree, p: Seq<LinkToOne>) -> bool {
    node_at(t, p) is Some ==> distinct_links(node_at(t, p)->0.dependents@)
}

/// No node of `t` reaches two of its dependents by the same link.
pub open spec fn links_distinct(t: JoinTree) -> bool {
    forall|p: Seq<LinkToOne>| #[trigger] distinct_links_at(t, p)
}

proof fn lemma_find_link_absent(deps: Seq<(LinkToOne, JoinTree)>, link: LinkToOne)
    requires
        find_link(deps, link) == -1,
    ensures
        forall|a: int| 0 <= a < deps.len() ==> #[trigger] deps[a].0 != link,
    decreases deps.len(),
{
    if deps.len() > 0 {
        lemma_find_link_absent(deps.drop_last(), link);
        assert forall|a: int| 0 <= a < deps.len() implies #[trigger] deps[a].0 != link by {
            if a < deps.len() - 1 {
                assert(deps[a] == deps.drop_last()[a]);
            }
        }
    }
}

/// A node with the same alias and dependents has the same nodes below it.
proof fn lemma_node_at_same_deps(a: JoinTree, b: JoinTree, path: Seq<LinkToOne>)
    requires
        a.dependents@ == b.dependents@,
        path.len() > 0,
    ensures
        node_at(a, path) == node_at(b, path),
{
}

/// A chain of new nodes, one per link of `links`, each the only dependent of the one before; the
/// last has the common table expressions `ctes`.
pub open spec fn is_chain_tree(t: JoinTree, links: Seq<LinkToOne>, ctes: Seq<Cte>) -> bool
    decreases t, links.len(),
{
    if links.len() == 0 {
        t.dependents@.len() == 0 && t.ctes@ == ctes
    } else {
        t.dependents@.len() == 1 && t.dependents@[0].0 == links[0] && t.ctes@.len() == 0 && {
            proof {
                assert(decreases_to!(t => t.dependents));
                assert(decreases_to!(t.dependents => t.dependents@));
                assert(decreases_to!(t.dependents@ => t.dependents@[0]));
                assert(decreases_to!(t.dependents@[0] => t.dependents@[0].1));
            }
            is_chain_tree(t.dependents@[0].1, links.drop_first(), ctes)
        }
    }
}

/// Every node of a chain of new nodes has at most one dependent.
proof fn lemma_chain_tree_distinct(t: JoinTree, links: Seq<LinkToOne>, ctes: Seq<Cte>, p: Seq<LinkToOne>)
    requires
        is_chain_tree(t, links, ctes),
    ensures
        distinct_links_at(t, p),
    decreases t, links.len(),
{
    if p.len() > 0 && links.len() > 0 {
        assert(find_link(t.dependents@, p[0]) == if t.dependents@[0].0 == p[0] {
            0int
        } else {
            -1int
        }) by {
            assert(t.dependents@.drop_last().len() == 0);
            assert(find_link(t.dependents@.drop_last(), p[0]) == -1);
            assert(t.dependents@.last() == t.dependents@[0]);
        }
        assert(decreases_to!(t => t.dependents));
        assert(decreases_to!(t.dependents => t.dependents@));
        assert(decreases_to!(t.dependents@ => t.dependents@[0]));
        assert(decreases_to!(t.dependents@[0] => t.dependents@[0].1));
        lemma_chain_tree_distinct(t.dependents@[0].1, links.drop_first(), ctes, p.drop_first());
    } else if p.len() > 0 {
        assert(find_link(t.dependents@, p[0]) == -1);
    }
}

/// In a chain of new nodes, only the prefixes of its links lead to a node, and the whole of them
/// leads to the last one.
proof fn lemma_chain_tree_nodes(t: JoinTree, links: Seq<LinkToOne>, ctes: Seq<Cte>, path: Seq<LinkToOne>)
    requires
        is_chain_tree(t, links, ctes),
    ensures
        path == links ==> node_at(t, path) is Some && node_at(t, path)->0.ctes@ == ctes,
        node_at(t, path) is Some ==> path.len() <= links.len() && path == links.take(
            path.len() as int,
        ),
    decreases t, links.len(),
{
    if links.len() > 0 && path.len() > 0 {
        let child = t.dependents@[0].1;
        assert(find_link(t.dependents@, path[0]) == if t.dependents@[0].0 == path[0] {
            0int
        } else {
            -1int
        }) by {
            assert(t.dependents@.drop_last().len() == 0);
            assert(find_link(t.dependents@.drop_last(), path[0]) == -1);
            assert(t.dependents@.last() == t.dependents@[0]);
        }
        assert(decreases_to!(t => t.dependents));
        assert(decreases_to!(t.dependents => t.dependents@));
        assert(decreases_to!(t.dependents@ => t.dependents@[0]));
        assert(decreases_to!(t.dependents@[0] => t.dependents@[0].1));
        lemma_chain_tree_nodes(child, links.drop_first(), ctes, path.drop_first());
        if node_at(t, path) is Some {
            assert(node_at(t, path) == node_at(child, path.drop_first()));
            assert(path[0] == links[0]);
            assert(path.drop_first() == links.drop_first().take(path.len() - 1));
            assert forall|i: int| 0 <= i < path.len() implies path[i] == links.take(
                path.len() as int,
            )[i] by {
                if i > 0 {
                    assert(path[i] == path.drop_first()[i - 1]);
                    assert(links.drop_first().take(path.len() - 1)[i - 1] == links[i]);
                }
            }
            assert(path =~= links.take(path.len() as int));
        }
    } else if links.len() == 0 && path.len() > 0 {
        assert(find_link(t.dependents@, path[0]) == -1);
    } else if path.len() == 0 {
        assert(path =~= links.take(0));
    }
}

/// Adding a new dependent for a link not yet in the tree, with a chain of new nodes below it for
/// the rest of `path`, keeps every node and adds only nodes along `path`.
proof fn lemma_push_new_branch(
    o: JoinTree,
    n: JoinTree,
    next: LinkToOne,
    built: JoinTree,
    path: Seq<LinkToOne>,
    ctes: Seq<Cte>,
)
    requires
        n.alias == o.alias,
        n.ctes@ == o.ctes@,
        n.dependents@ == o.dependents@.push((next, built)),
        find_link(o.dependents@, next) == -1,
        is_chain_tree(built, path.drop_first(), ctes),
        path.len() >= 1,
        path[0] == next,
    ensures
        keeps_nodes(o, n),
        adds_only_along(o, n, path),
        keeps_ctes_off(o, n, path),
        links_distinct(o) ==> links_distinct(n),
{
    if links_distinct(o) {
        assert forall|p: Seq<LinkToOne>| #[trigger] distinct_links_at(n, p) by {
            if p.len() > 0 {
                lemma_find_link_push(o.dependents@, (next, built), p[0]);
                lemma_find_link_range(o.dependents@, p[0]);
                if p[0] == next {
                    assert(node_at(n, p) == node_at(built, p.drop_first()));
                    lemma_chain_tree_distinct(built, path.drop_first(), ctes, p.drop_first());
                } else {
                    let j = find_link(o.dependents@, p[0]);
                    if j >= 0 {
                        assert(n.dependents@[j] == o.dependents@[j]);
                        assert(distinct_links_at(o, p));
                    }
                }
            } else {
                assert(distinct_links_at(o, p));
                lemma_find_link_absent(o.dependents@, next);
                assert(n.dependents@ == o.dependents@.push((next, built)));
            }
        }
    }
    assert forall|p: Seq<LinkToOne>| #[trigger] keeps_node(o, n, p) by {
        if p.len() > 0 {
            lemma_find_link_push(o.dependents@, (next, built), p[0]);
            lemma_find_link_range(o.dependents@, p[0]);
        }
    }
    assert forall|p: Seq<LinkToOne>| #[trigger] keeps_ctes_at(o, n, path, p) by {
        if p.len() > 0 {
            lemma_find_link_push(o.dependents@, (next, built), p[0]);
            lemma_find_link_range(o.dependents@, p[0]);
        }
    }
    assert forall|p: Seq<LinkToOne>| #[trigger] node_at(n, p) is Some implies node_at(o, p) is Some
        || leads_along(p, path) by {
        if p.len() > 0 {
            lemma_find_link_push(o.dependents@, (next, built), p[0]);
            lemma_find_link_range(o.dependents@, p[0]);
            if p[0] == next {
                assert(node_at(n, p) == node_at(built, p.drop_first()));
                lemma_chain_tree_nodes(built, path.drop_first(), ctes, p.drop_first());
                lemma_prefix_extend(p, path);
            } else {
                let j = find_link(o.dependents@, p[0]);
                if j >= 0 {
                    assert(n.dependents@[j] == o.dependents@[j]);
                }
            }
        }
    }
}

/// Replacing the subtree of the dependent reached by the first link of `path` with one that keeps
/// its nodes and adds only nodes along the rest of `path` does the same for the whole tree.
proof fn lemma_update_branch(
    o: JoinTree,
    n: JoinTree,
    k: int,
    next: LinkToOne,
    old_sub: JoinTree,
    new_sub: JoinTree,
    path: Seq<LinkToOne>,
)
    requires
        0 <= k < o.dependents@.len(),
        o.dependents@[k] == (next, old_sub),
        find_link(o.dependents@, next) == k,
        n.alias == o.alias,
        n.ctes@ == o.ctes@,
        n.dependents@ == o.dependents@.update(k, (next, new_sub)),
        keeps_nodes(old_sub, new_sub),
        adds_only_along(old_sub, new_sub, path.drop_first()),
        keeps_ctes_off(old_sub, new_sub, path.drop_first()),
        links_distinct(old_sub) ==> links_distinct(new_sub),
        path.len() >= 1,
        path[0] == next,
    ensures
        keeps_nodes(o, n),
        adds_only_along(o, n, path),
        keeps_ctes_off(o, n, path),
        links_distinct(o) ==> links_distinct(n),
{
    if links_distinct(o) {
        assert forall|q: Seq<LinkToOne>| #[trigger] distinct_links_at(old_sub, q) by {
            let p = seq![next] + q;
            assert(distinct_links_at(o, p));
            assert(p[0] == next);
            assert(p.drop_first() =~= q);
        }
        assert forall|p: Seq<LinkToOne>| #[trigger] distinct_links_at(n, p) by {
            if p.len() > 0 {
                lemma_find_link_update(o.dependents@, k, (next, new_sub), p[0]);
                lemma_find_link_range(o.dependents@, p[0]);
                if p[0] == next {
                    assert(distinct_links_at(new_sub, p.drop_first()));
                } else {
                    let j = find_link(o.dependents@, p[0]);
                    if j >= 0 {
                        assert(n.dependents@[j] == o.dependents@[j]);
                        assert(distinct_links_at(o, p));
                    }
                }
            } else {
                assert(distinct_links_at(o, p));
                assert forall|a: int, b: int| 0 <= a < b < n.dependents@.len() implies #[trigger] n.dependents@[a].0
                    != #[trigger] n.dependents@[b].0 by {
                    assert(o.dependents@[a].0 != o.dependents@[b].0);
                }
            }
        }
    }
    assert forall|p: Seq<LinkToOne>| #[trigger] keeps_ctes_at(o, n, path, p) by {
        if p.len() > 0 {
            lemma_find_link_update(o.dependents@, k, (next, new_sub), p[0]);
            lemma_find_link_range(o.dependents@, p[0]);
            if p[0] == next {
                assert(keeps_ctes_at(old_sub, new_sub, path.drop_first(), p.drop_first()));
                if p != path {
                    if p.drop_first() == path.drop_first() {
                        assert(p =~= path) by {
                            assert forall|i: int| 0 <= i < p.len() implies p[i] == path[i] by {
                                if i > 0 {
                                    assert(p[i] == p.drop_first()[i - 1]);
                                }
                            }
                        }
                    }
                }
            } else {
                let j = find_link(o.dependents@, p[0]);
                if j >= 0 {
                    assert(n.dependents@[j] == o.dependents@[j]);
                }
            }
        }
    }
    assert forall|p: Seq<LinkToOne>| #[trigger] keeps_node(o, n, p) by {
        if p.len() > 0 {
            lemma_find_link_update(o.dependents@, k, (next, new_sub), p[0]);
            lemma_find_link_range(o.dependents@, p[0]);
            if p[0] == next {
                assert(keeps_node(old_sub, new_sub, p.drop_first()));
            }
        }
    }
    assert forall|p: Seq<LinkToOne>| #[trigger] node_at(n, p) is Some implies node_at(o, p) is Some
        || leads_along(p, path) by {
        if p.len() > 0 {
            lemma_find_link_update(o.dependents@, k, (next, new_sub), p[0]);
            lemma_find_link_range(o.dependents@, p[0]);
            if p[0] == next {
                assert(node_at(n, p) == node_at(new_sub, p.drop_first()));
                assert(node_at(o, p) == node_at(old_sub, p.drop_first()));
                if node_at(old_sub, p.drop_first()) is None {
                    assert(node_at(new_sub, p.drop_first()) is Some);
                    if p.drop_first().len() == 0 {
                        assert(node_at(old_sub, p.drop_first()) is Some);
                    }
                    lemma_prefix_extend(p, path);
                }
            } else {
                let j = find_link(o.dependents@, p[0]);
                if j >= 0 {
                    assert(n.dependents@[j] == o.dependents@[j]);
                }
            }
        }
    }
}

/// A prefix of the rest of a path, after the path's first link, extends to a prefix of the path.
proof fn lemma_prefix_extend(p: Seq<LinkToOne>, path: Seq<LinkToOne>)
    requires
        p.len() >= 1,
        path.len() >= 1,
        p[0] == path[0],
        p.drop_first().len() == 0 || leads_along(p.drop_first(), path.drop_first()),
    ensures
        leads_along(p, path),
{
    assert forall|i: int| 0 <= i < p.len() implies p[i] == path.take(p.len() as int)[i] by {
        if i > 0 {
            assert(p[i] == p.drop_first()[i - 1]);
        }
    }
    assert(p =~= path.take(p.len() as int));
}

/// `o` and `n` have the same nodes, with the same aliases and common table expressions.
pub open spec fn same_nodes(o: JoinTree, n: JoinTree) -> bool {
    forall|p: Seq<LinkToOne>|
        #![trigger node_at(o, p)]
        #![trigger node_at(n, p)]
        (node_at(o, p) is Some <==> node_at(n, p) is Some) && (node_at(o, p) is Some ==> node_at(
            n,
            p,
        )->0.alias == node_at(o, p)->0.alias && node_at(n, p)->0.ctes@ == node_at(o, p)->0.ctes@)
}

/// Every prefix of a path that leads to a node leads to a node too.
proof fn lemma_prefix_node(t: JoinTree, path: Seq<LinkToOne>, p: Seq<LinkToOne>)
    requires
        node_at(t, path) is Some,
        leads_along(p, path),
    ensures
        node_at(t, p) is Some,
    decreases path.len(),
{
    let k = find_link(t.dependents@, path[0]);
    assert(p[0] == path[0]);
    let child = t.dependents@[k].1;
    assert(node_at(t, path) == node_at(child, path.drop_first()));
    assert(node_at(t, p) == node_at(child, p.drop_first()));
    if p.len() > 1 {
        assert(p.drop_first() =~= path.drop_first().take(p.len() - 1));
        lemma_prefix_node(child, path.drop_first(), p.drop_first());
    }
}

/// Integrating a chain that is already in the tree, with no common table expression to add,
/// changes nothing: every node stays, with its alias and its common table expressions, and no
/// node is added.
pub proof fn law_reintegration_changes_nothing(o: JoinTree, n: JoinTree, path: Seq<LinkToOne>)
    requires
        node_at(o, path) is Some,
        keeps_nodes(o, n),
        adds_only_along(o, n, path),
        keeps_ctes_off(o, n, path),
        node_at(n, path) is Some,
        node_at(n, path)->0.ctes@ == node_at(o, path)->0.ctes@,
    ensures
        same_nodes(o, n),
{
    assert forall|p: Seq<LinkToOne>|
        (node_at(o, p) is Some <==> node_at(n, p) is Some) && (node_at(o, p) is Some ==> node_at(
            n,
            p,
        )->0.alias == node_at(o, p)->0.alias && node_at(n, p)->0.ctes@ == node_at(o, p)->0.ctes@) by {
        assert(keeps_node(o, n, p));
        assert(keeps_ctes_at(o, n, path, p));
        if node_at(n, p) is Some && node_at(o, p) is None {
            assert(leads_along(p, path));
            lemma_prefix_node(o, path, p);
        }
    }
}

/// Once a chain is integrated, it keeps leading to the same alias: integrating it again (or any
/// integration, since integrations keep every node) gives back the alias it gave the first time.
pub proof fn law_integrated_chain_keeps_its_alias(
    first: JoinTree,
    later: JoinTree,
    path: Seq<LinkToOne>,
)
    requires
        node_at(first, path) is Some,
        keeps_nodes(first, later),
    ensures
        node_at(later, path) is Some,
        node_at(later, path)->0.alias == node_at(first, path)->0.alias,
{
    assert(keeps_node(first, later, path));
}

impl JoinTree {
    pub fn new(alias: String) -> (r: JoinTree)
        ensures
            r.alias == alias,
            r.dependents@.len() == 0,
            r.ctes@.len() == 0,
            links_distinct(r),
    {
        let r = JoinTree { alias, dependents: Vec::new(), ctes: Vec::new() };
        proof {
            assert forall|p: Seq<LinkToOne>| #[trigger] distinct_links_at(r, p) by {
                if p.len() > 0 {
                    assert(find_link(r.dependents@, p[0]) == -1);
                }
            }
        }
        r
    }

    pub fn get_alias(&self) -> (r: &str)
        ensures
            r@ == self.alias@,
    {
        self.alias.as_str()
    }

    /// Takes the subtrees out of this node, leaving it with none.
    pub fn take_dependents(&mut self) -> (r: Vec<(LinkToOne, JoinTree)>)
        ensures
            r@ == old(self).dependents@,
            final(self).dependents@.len() == 0,
            final(self).alias == old(self).alias,
            final(self).ctes == old(self).ctes,
    {
        let mut taken: Vec<(LinkToOne, JoinTree)> = Vec::new();
        std::mem::swap(&mut taken, &mut self.dependents);
        taken
    }

    /// Takes the common table expressions out of this node, leaving it with none.
    pub fn take_ctes(&mut self) -> (r: Vec<Cte>)
        ensures
            r@ == old(self).ctes@,
            final(self).ctes@.len() == 0,
            final(self).alias == old(self).alias,
            final(self).dependents == old(self).dependents,
    {
        let mut taken: Vec<Cte> = Vec::new();
        std::mem::swap(&mut taken, &mut self.ctes);
        taken
    }

    /// Adds the links of `chain_to_one` to the tree, below this node, where they are not there
    /// yet, and returns the alias of the node the whole chain leads to; `cte_to_add` is attached
    /// to that node. Without a chain, that node is this one. Aliases of new nodes come from
    /// `aliases`, the furthest node's first. Every node already in the tree keeps its alias.
    pub fn integrate_chain<S: AliasSource>(
        &mut self,
        chain_to_one: Option<&Vec<LinkToOne>>,
        aliases: &mut S,
        cte_to_add: Option<Cte>,
    ) -> (r: String)
        requires
            chain_to_one matches Some(c) ==> c@.len() > 0,
        ensures
            ({
                let path = match chain_to_one {
                    Some(c) => c@,
                    None => Seq::empty(),
                };
                &&& node_at(*final(self), path) is Some
                &&& node_at(*final(self), path)->0.alias == r
                &&& node_at(*final(self), path)->0.ctes@ == ctes_with(*old(self), path, cte_to_add)
                &&& adds_only_along(*old(self), *final(self), path)
            }),
            keeps_nodes(*old(self), *final(self)),
            keeps_ctes_off(
                *old(self),
                *final(self),
                match chain_to_one {
                    Some(c) => c@,
                    None => Seq::empty(),
                },
            ),
            final(self).alias == old(self).alias,
            links_distinct(*old(self)) ==> links_distinct(*final(self)),
            chain_to_one is None ==> final(self).dependents == old(self).dependents
                && final(self).alias == old(self).alias && *final(aliases) == *old(aliases),
            chain_to_one matches Some(c) && node_at(*old(self), c@) is Some ==> *final(aliases)
                == *old(aliases),
            chain_to_one matches Some(c) && node_at(*old(self), c@) is Some && cte_to_add is None
                ==> same_nodes(*old(self), *final(self)),
            chain_to_one matches Some(c) ==> *final(aliases) == asked_for(
                *old(aliases),
                c@.skip(existing_prefix(*old(self), c@) as int),
            ),
            chain_to_one matches Some(c) ==> forall|j: int|
                existing_prefix(*old(self), c@) < j <= c@.len() ==> #[trigger] node_at(*final(self), c@.take(j))
                    is Some && node_at(*final(self), c@.take(j))->0.alias@ == asked_for(
                    *old(aliases),
                    c@.skip(j),
                ).alias_given(c@[j - 1]),
    {
        match chain_to_one {
            None => {
                match cte_to_add {
                    Some(cte) => {
                        self.ctes.push(cte);
                    },
                    None => {},
                }
                proof {
                    assert forall|path: Seq<LinkToOne>| #[trigger]
                        keeps_node(*old(self), *self, path) by {
                        if path.len() > 0 {
                            lemma_node_at_same_deps(*old(self), *self, path);
                        }
                    }
                    assert forall|p: Seq<LinkToOne>| #[trigger] node_at(*self, p) is Some implies node_at(
                        *old(self),
                        p,
                    ) is Some || leads_along(p, Seq::empty()) by {
                        if p.len() > 0 {
                            lemma_node_at_same_deps(*old(self), *self, p);
                        }
                    }
                    if links_distinct(*old(self)) {
                        assert forall|p: Seq<LinkToOne>| #[trigger] distinct_links_at(*self, p) by {
                            assert(distinct_links_at(*old(self), p));
                            if p.len() > 0 {
                                lemma_node_at_same_deps(*old(self), *self, p);
                            }
                        }
                    }
                    assert forall|p: Seq<LinkToOne>| #[trigger] keeps_ctes_at(
                        *old(self),
                        *self,
                        Seq::empty(),
                        p,
                    ) by {
                        if p.len() > 0 {
                            lemma_node_at_same_deps(*old(self), *self, p);
                        } else {
                            assert(p =~= Seq::<LinkToOne>::empty());
                        }
                    }
                }
                self.alias.clone()
            },
            Some(links) => {
                proof {
                    assert(links@.skip(0) =~= links@);
                }
                let ghost before = *self;
                let ghost cte = cte_to_add;
                let r = self.integrate_links(links, 0, aliases, cte_to_add);
                proof {
                    if node_at(before, links@) is Some && cte is None {
                        law_reintegration_changes_nothing(before, *self, links@);
                    }
                }
                r
            },
        }
    }

    /// Integrates `links[from..]` below this node.
    fn integrate_links<S: AliasSource>(
        &mut self,
        links: &Vec<LinkToOne>,
        from: usize,
        aliases: &mut S,
        cte_to_add: Option<Cte>,
    ) -> (r: String)
        requires
            from < links@.len(),
        ensures
            node_at(*final(self), links@.skip(from as int)) is Some,
            node_at(*final(self), links@.skip(from as int))->0.alias == r,
            node_at(*final(self), links@.skip(from as int))->0.ctes@ == ctes_with(
                *old(self),
                links@.skip(from as int),
                cte_to_add,
            ),
            keeps_nodes(*old(self), *final(self)),
            adds_only_along(*old(self), *final(self), links@.skip(from as int)),
            keeps_ctes_off(*old(self), *final(self), links@.skip(from as int)),
            links_distinct(*old(self)) ==> links_distinct(*final(self)),
            final(self).alias == old(self).alias,
            final(self).ctes@ == old(self).ctes@,
            node_at(*old(self), links@.skip(from as int)) is Some ==> *final(aliases) == *old(aliases),
            *final(aliases) == asked_for(
                *old(aliases),
                links@.skip(from as int).skip(existing_prefix(*old(self), links@.skip(from as int)) as int),
            ),
            forall|j: int|
                existing_prefix(*old(self), links@.skip(from as int)) < j <= links@.len() - from
                    ==> #[trigger] node_at(*final(self), links@.skip(from as int).take(j)) is Some
                    && node_at(*final(self), links@.skip(from as int).take(j))->0.alias@ == asked_for(
                    *old(aliases),
                    links@.skip(from as int).skip(j),
                ).alias_given(links@.skip(from as int)[j - 1]),
        decreases links@.len() - from,
    {
        let ghost path = links@.skip(from as int);
        let ghost o = *self;
        let ghost s0 = *aliases;
        let next = links[from];
        let found = find_dependent(&self.dependents, next);
        proof {
            lemma_find_link_range(o.dependents@, next);
        }
        match found {
            None => {
                let (node, alias) = build_chain(links, from, aliases, cte_to_add);
                let ghost built = node;
                self.dependents.push((next, node));
                proof {
                    lemma_find_link_push(o.dependents@, (next, built), next);
                    assert(path[0] == next);
                    assert(path.drop_first() =~= links@.skip(from + 1));
                    lemma_chain_tree_nodes(built, links@.skip(from + 1), opt_seq(cte_to_add), path.drop_first());
                    assert(node_at(o, path) is None);
                    assert(self.dependents@[o.dependents@.len() as int] == (next, built));
                    assert(node_at(*self, path) == node_at(built, path.drop_first()));
                    lemma_push_new_branch(o, *self, next, built, path, opt_seq(cte_to_add));
                    assert(existing_prefix(o, path) == 0);
                    assert(path.skip(0) =~= links@.skip(from as int));
                    assert forall|j: int| 0 < j <= links@.len() - from implies #[trigger] node_at(
                        *self,
                        path.take(j),
                    ) is Some && node_at(*self, path.take(j))->0.alias@ == asked_for(s0, path.skip(j)).alias_given(
                        path[j - 1],
                    ) by {
                        let q = path.take(j);
                        assert(q[0] == next);
                        lemma_find_link_push(o.dependents@, (next, built), next);
                        assert(node_at(*self, q) == node_at(built, q.drop_first()));
                        let d = j - 1;
                        assert(q.drop_first() =~= links@.subrange(from + 1, from + 1 + d));
                        assert(path.skip(j) =~= links@.skip(from + d + 1));
                        assert(path[j - 1] == links@[from + d]);
                    }
                }
                alias
            },
            Some(k) => {
                let (key, mut subtree) = self.dependents.remove(k);
                let ghost old_sub = subtree;
                proof {
                    assert(key == next);
                    assert(old_sub == o.dependents@[k as int].1);
                    assert(path[0] == next);
                    assert(path.drop_first() =~= links@.skip(from + 1));
                    assert(node_at(o, path) == node_at(old_sub, path.drop_first()));
                }
                let n = links.len();
                let alias = if from + 1 == n {
                    match cte_to_add {
                        Some(cte) => {
                            subtree.ctes.push(cte);
                        },
                        None => {},
                    }
                    proof {
                        assert forall|p: Seq<LinkToOne>| #[trigger] keeps_node(old_sub, subtree, p) by {
                            if p.len() > 0 {
                                lemma_node_at_same_deps(old_sub, subtree, p);
                            }
                        }
                        assert forall|p: Seq<LinkToOne>| #[trigger] node_at(subtree, p) is Some implies node_at(
                            old_sub,
                            p,
                        ) is Some || leads_along(p, links@.skip(from + 1)) by {
                            if p.len() > 0 {
                                lemma_node_at_same_deps(old_sub, subtree, p);
                            }
                        }
                        assert(links@.skip(from + 1).len() == 0);
                        if links_distinct(old_sub) {
                            assert forall|p: Seq<LinkToOne>| #[trigger] distinct_links_at(subtree, p) by {
                                assert(distinct_links_at(old_sub, p));
                                if p.len() > 0 {
                                    lemma_node_at_same_deps(old_sub, subtree, p);
                                }
                            }
                        }
                        assert forall|p: Seq<LinkToOne>| #[trigger] keeps_ctes_at(
                            old_sub,
                            subtree,
                            links@.skip(from + 1),
                            p,
                        ) by {
                            if p.len() > 0 {
                                lemma_node_at_same_deps(old_sub, subtree, p);
                            } else {
                                assert(p =~= links@.skip(from + 1));
                            }
                        }
                    }
                    subtree.alias.clone()
                } else {
                    subtree.integrate_links(links, from + 1, aliases, cte_to_add)
                };
                let ghost new_sub = subtree;
                self.dependents.insert(k, (key, subtree));
                proof {
                    assert(self.dependents@ =~= o.dependents@.update(k as int, (next, new_sub)));
                    lemma_find_link_update(o.dependents@, k as int, (next, new_sub), next);
                    assert(path[0] == next);
                    assert(path.drop_first() =~= links@.skip(from + 1));
                    if from + 1 == links.len() {
                        assert(path.drop_first().len() == 0);
                    }
                    assert(node_at(*self, path) == node_at(new_sub, path.drop_first()));
                    assert(node_at(o, path) == node_at(old_sub, path.drop_first()));
                    lemma_update_branch(o, *self, k as int, next, old_sub, new_sub, path);
                    let rest = path.drop_first();
                    let ep = existing_prefix(old_sub, rest);
                    assert(existing_prefix(o, path) == 1 + ep);
                    if from + 1 == links.len() {
                        assert(ep == 0);
                        assert(path.skip(1 + ep as int) =~= Seq::<LinkToOne>::empty());
                    } else {
                        lemma_existing_prefix_bound(old_sub, rest);
                        assert(rest.skip(ep as int) =~= path.skip(1 + ep as int));
                        assert forall|j: int| 1 + ep < j <= links@.len() - from implies #[trigger] node_at(
                            *self,
                            path.take(j),
                        ) is Some && node_at(*self, path.take(j))->0.alias@ == asked_for(s0, path.skip(j)).alias_given(
                            path[j - 1],
                        ) by {
                            let q = path.take(j);
                            assert(q[0] == next);
                            assert(node_at(*self, q) == node_at(new_sub, q.drop_first()));
                            assert(q.drop_first() =~= rest.take(j - 1));
                            assert(node_at(new_sub, rest.take(j - 1)) is Some);
                            assert(rest.skip(j - 1) =~= path.skip(j));
                            assert(rest[j - 2] == path[j - 1]);
                        }
                    }
                }
                alias
            },
        }
    }
}

/// The common table expressions of an optional one.
pub open spec fn opt_seq(cte: Option<Cte>) -> Seq<Cte> {
    match cte {
        Some(c) => seq![c],
        None => Seq::empty(),
    }
}

/// Builds a new node for `links[from]` with a chain of new nodes below it for the rest of the
/// links, and returns it with the alias of the last node, where `cte_to_add` is attached. Aliases
/// are taken from the furthest node back.
fn build_chain<S: AliasSource>(
    links: &Vec<LinkToOne>,
    from: usize,
    aliases: &mut S,
    cte_to_add: Option<Cte>,
) -> (r: (JoinTree, String))
    requires
        from < links@.len(),
    ensures
        is_chain_tree(r.0, links@.skip(from + 1), opt_seq(cte_to_add)),
        node_at(r.0, links@.skip(from + 1)) is Some,
        node_at(r.0, links@.skip(from + 1))->0.alias == r.1,
        *final(aliases) == asked_for(*old(aliases), links@.skip(from as int)),
        forall|d: int|
            0 <= d < links@.len() - from ==> #[trigger] node_at(
                r.0,
                links@.subrange(from + 1, from + 1 + d),
            ) is Some && node_at(r.0, links@.subrange(from + 1, from + 1 + d))->0.alias@ == asked_for(
                *old(aliases),
                links@.skip(from + d + 1),
            ).alias_given(links@[from + d]),
    decreases links@.len() - from,
{
    let ghost s0 = *aliases;
    let n = links.len();
    if from + 1 == n {
        let alias = aliases.alias_for(&links[from]);
        let mut ctes: Vec<Cte> = Vec::new();
        match cte_to_add {
            Some(cte) => {
                ctes.push(cte);
            },
            None => {},
        }
        let node = JoinTree { alias: alias.clone(), dependents: Vec::new(), ctes };
        proof {
            assert(links@.skip(from + 1).len() == 0);
            assert(node.ctes@ =~= opt_seq(cte_to_add));
            let rest = links@.skip(from as int);
            assert(rest.drop_first() =~= links@.skip(from + 1));
            assert(asked_for(s0, links@.skip(from + 1)) == s0);
            assert forall|d: int| 0 <= d < links@.len() - from implies #[trigger] node_at(
                node,
                links@.subrange(from + 1, from + 1 + d),
            ) is Some && node_at(node, links@.subrange(from + 1, from + 1 + d))->0.alias@ == asked_for(
                s0,
                links@.skip(from + d + 1),
            ).alias_given(links@[from + d]) by {
                assert(d == 0);
                assert(links@.subrange(from + 1, from + 1 + d).len() == 0);
            }
        }
        (node, alias)
    } else {
        let (child, furthest) = build_chain(links, from + 1, aliases, cte_to_add);
        let ghost s1 = *aliases;
        let alias = aliases.alias_for(&links[from]);
        let mut dependents: Vec<(LinkToOne, JoinTree)> = Vec::new();
        dependents.push((links[from + 1], child));
        let node = JoinTree { alias, dependents, ctes: Vec::new() };
        proof {
            let rest = links@.skip(from + 1);
            assert(rest[0] == links@[from + 1]);
            assert(rest.drop_first() =~= links@.skip(from + 2));
            assert(node.dependents@[0].1 == child);
            assert(find_link(node.dependents@, rest[0]) == 0) by {
                assert(node.dependents@.drop_last().len() == 0);
            }
            let all = links@.skip(from as int);
            assert(all.drop_first() =~= links@.skip(from + 1));
            assert(all[0] == links@[from as int]);
            assert forall|d: int| 0 <= d < links@.len() - from implies #[trigger] node_at(
                node,
                links@.subrange(from + 1, from + 1 + d),
            ) is Some && node_at(node, links@.subrange(from + 1, from + 1 + d))->0.alias@ == asked_for(
                s0,
                links@.skip(from + d + 1),
            ).alias_given(links@[from + d]) by {
                let q = links@.subrange(from + 1, from + 1 + d);
                if d == 0 {
                    assert(q.len() == 0);
                    assert(links@.skip(from + d + 1) =~= links@.skip(from + 1));
                } else {
                    assert(q[0] == links@[from + 1]);
                    assert(node_at(node, q) == node_at(child, q.drop_first()));
                    assert(q.drop_first() =~= links@.subrange(from + 2, from + 2 + (d - 1)));
                    assert(node_at(child, links@.subrange(from + 1 + 1, from + 1 + 1 + (d - 1))) is Some);
                    assert(links@.skip(from + 1 + (d - 1) + 1) =~= links@.skip(from + d + 1));
                    assert(links@[from + 1 + (d - 1)] == links@[from + d]);
                }
            }
        }
        (node, furthest)
    }
}

/// The position of the last dependent reached by `link`.
fn find_dependent(deps: &Vec<(LinkToOne, JoinTree)>, link: LinkToOne) -> (r: Option<usize>)
    ensures
        match r {
            Some(k) => k == find_link(deps@, link) && k < deps@.len(),
            None => find_link(deps@, link) == -1,
        },
{
    let mut i: usize = deps.len();
    proof {
        assert(deps@.take(i as int) =~= deps@);
    }
    while i > 0
        invariant
            i <= deps@.len(),
            find_link(deps@, link) == find_link(deps@.take(i as int), link),
        decreases i,
    {
        proof {
            assert(deps@.take(i as int).drop_last() =~= deps@.take(i - 1));
        }
        if deps[i - 1].0 == link {
            return Some(i - 1);
        }
        i = i - 1;
    }
    None
}


/// The root alias of a join tree never changes: each of the tree's operations (`integrate_chain`,
/// `take_dependents`, `take_ctes`) keeps it, so along any sequence of trees where each comes from
/// the one before by one of them, the last tree has the first one's alias.
pub proof fn law_root_alias_never_changes(trees: Seq<JoinTree>)
    requires
        trees.len() >= 1,
        forall|k: int| 0 <= k < trees.len() - 1 ==> #[trigger] trees[k + 1].alias == trees[k].alias,
    ensures
        trees.last().alias == trees[0].alias,
    decreases trees.len(),
{
    if trees.len() > 1 {
        let front = trees.drop_last();
        assert forall|k: int| 0 <= k < front.len() - 1 implies #[trigger] front[k + 1].alias == front[k].alias by {
            assert(front[k + 1] == trees[k + 1]);
            assert(front[k] == trees[k]);
        }
        law_root_alias_never_changes(front);
        let k = trees.len() - 2;
        assert(trees[k + 1].alias == trees[k].alias);
        assert(front.last() == trees[k]);
    }
}

} // verus!
