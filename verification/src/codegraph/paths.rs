//! Shortest connections in the code graph: edges are walked in either
//! direction, breadth first, so the first walk found to a node is a
//! shortest one.

use vstd::prelude::*;

verus! {

/// A node of the code graph: a kind (0 for a file, 1 for a symbol) and an
/// id.
pub type NodeKey = (i64, i64);

/// Some edge of `es` joins `u` and `v`, in either direction.
pub open spec fn linked(es: Seq<(NodeKey, NodeKey)>, u: NodeKey, v: NodeKey) -> bool {
    exists|i: int| 0 <= i < es.len() && (es[i] == (u, v) || es[i] == (v, u))
}

/// `w` is a walk along the edges `es`: each node is joined to the next.
pub open spec fn is_node_walk(es: Seq<(NodeKey, NodeKey)>, w: Seq<NodeKey>) -> bool {
    &&& w.len() >= 1
    &&& forall|i: int| 0 <= i < w.len() - 1 ==> #[trigger] linked(es, w[i], w[i + 1])
}

/// Some walk along `es` of at most `k` edges leads from `from` to `to`.
pub open spec fn within(es: Seq<(NodeKey, NodeKey)>, from: NodeKey, to: NodeKey, k: int) -> bool {
    exists|w: Seq<NodeKey>| #[trigger] is_node_walk(es, w) && w[0] == from && w.last() == to && w.len() <= k + 1
}

/// The edges `p` (positions in `es`) lead through the nodes `ns`, one
/// edge between each node and the next, taken in either direction.
pub open spec fn edge_walk(es: Seq<(NodeKey, NodeKey)>, p: Seq<usize>, ns: Seq<NodeKey>) -> bool {
    &&& ns.len() == p.len() + 1
    &&& forall|i: int|
        0 <= i < p.len() ==> (#[trigger] p[i]) < es.len() && (es[p[i] as int] == (ns[i], ns[i + 1]) || es[p[i] as int] == (
        ns[i + 1],
        ns[i],
    ))
}

/// An edge walk is a walk of its nodes.
pub proof fn lemma_edge_walk_is_walk(es: Seq<(NodeKey, NodeKey)>, p: Seq<usize>, ns: Seq<NodeKey>)
    requires
        edge_walk(es, p, ns),
    ensures
        is_node_walk(es, ns),
{
    assert forall|i: int| 0 <= i < ns.len() - 1 implies #[trigger] linked(es, ns[i], ns[i + 1]) by {
        assert(p[i] < es.len());
    }
}

/// The start of a walk is a walk.
proof fn lemma_walk_prefix(es: Seq<(NodeKey, NodeKey)>, w: Seq<NodeKey>, n: int)
    requires
        is_node_walk(es, w),
        1 <= n <= w.len(),
    ensures
        is_node_walk(es, w.take(n)),
{
    assert forall|i: int| 0 <= i < w.take(n).len() - 1 implies #[trigger] linked(es, w.take(n)[i], w.take(n)[i + 1]) by {
        assert(linked(es, w[i], w[i + 1]));
    }
}

/// A walk within fewer edges is within more.
proof fn lemma_within_mono(es: Seq<(NodeKey, NodeKey)>, from: NodeKey, to: NodeKey, k: int, l: int)
    requires
        within(es, from, to, k),
        k <= l,
    ensures
        within(es, from, to, l),
{
}

/// When every node joined to a node of `set` is in `set`, every walk from
/// a node of `set` stays in it.
proof fn lemma_closed_walk(es: Seq<(NodeKey, NodeKey)>, set: Seq<NodeKey>, w: Seq<NodeKey>)
    requires
        is_node_walk(es, w),
        set.contains(w[0]),
        forall|u: NodeKey, v: NodeKey| set.contains(u) && #[trigger] linked(es, u, v) ==> set.contains(v),
    ensures
        set.contains(w.last()),
    decreases w.len(),
{
    if w.len() > 1 {
        lemma_walk_prefix(es, w, w.len() - 1);
        lemma_closed_walk(es, set, w.take(w.len() - 1));
        assert(w.take(w.len() - 1).last() == w[w.len() - 2]);
        let i = w.len() - 2;
        assert(linked(es, w[i], w[i + 1]));
    }
}

/// Whether two nodes are the same.
fn same(a: NodeKey, b: NodeKey) -> (r: bool)
    ensures
        r == (a == b),
{
    a.0 == b.0 && a.1 == b.1
}

/// Whether `v` holds `x`.
fn holds(v: &Vec<NodeKey>, x: NodeKey) -> (r: bool)
    ensures
        r == v@.contains(x),
{
    let mut i: usize = 0;
    while i < v.len()
        invariant
            i <= v@.len(),
            forall|j: int| 0 <= j < i ==> v@[j] != x,
        decreases v.len() - i,
    {
        if same(v[i], x) {
            return true;
        }
        i += 1;
    }
    false
}

/// The nodes reached by a search, each with the walk that reached it.
pub open spec fn reached_ok(
    es: Seq<(NodeKey, NodeKey)>,
    from: NodeKey,
    reached: Seq<NodeKey>,
    np: Seq<Seq<NodeKey>>,
    ep: Seq<Seq<usize>>,
    r: int,
) -> bool {
    &&& reached.len() == np.len() && reached.len() == ep.len()
    &&& forall|i: int|
        0 <= i < reached.len() ==> #[trigger] edge_walk(es, ep[i], np[i]) && np[i][0] == from && np[i].last() == reached[i]
            && ep[i].len() <= r && !within(es, from, reached[i], ep[i].len() - 1)
}

/// A shortest walk, of at most `max_hops` edges, from `from` to `to`
/// along `es` taken in either direction: its edges and its nodes. `None`
/// when no walk of at most `max_hops` edges joins them.
pub fn shortest_walk(es: &Vec<(NodeKey, NodeKey)>, from: NodeKey, to: NodeKey, max_hops: i64) -> (r: Option<(Vec<usize>, Vec<NodeKey>)>)
    ensures
        r matches Some((p, ns)) ==> edge_walk(es@, p@, ns@) && ns@[0] == from && ns@.last() == to && p@.len() <= (
        if max_hops < 0 { 0 } else { max_hops as int }) && !within(es@, from, to, p@.len() - 1),
        r is None ==> !within(es@, from, to, max_hops as int),
{
    if same(from, to) {
        let mut ns: Vec<NodeKey> = Vec::new();
        ns.push(from);
        proof {
            assert(!within(es@, from, to, -1)) by {
                if within(es@, from, to, -1) {
                    let w = choose|w: Seq<NodeKey>| #[trigger] is_node_walk(es@, w) && w[0] == from && w.last() == to && w.len() <= 0;
                }
            }
        }
        return Some((Vec::new(), ns));
    }
    let mut reached: Vec<NodeKey> = Vec::new();
    let mut np: Vec<Vec<NodeKey>> = Vec::new();
    let mut ep: Vec<Vec<usize>> = Vec::new();
    reached.push(from);
    let mut start_walk: Vec<NodeKey> = Vec::new();
    start_walk.push(from);
    np.push(start_walk);
    ep.push(Vec::new());
    let mut round: i64 = 0;
    proof {
        assert(np@.map_values(|x: Vec<NodeKey>| x@)[0] =~= seq![from]);
        assert forall|u: NodeKey| within(es@, from, u, 0) implies reached@.contains(u) by {
            let w = choose|w: Seq<NodeKey>| #[trigger] is_node_walk(es@, w) && w[0] == from && w.last() == u && w.len() <= 1;
            assert(reached@[0] == from);
        }
        assert(!within(es@, from, from, -1)) by {
            if within(es@, from, from, -1) {
                let w = choose|w: Seq<NodeKey>| #[trigger] is_node_walk(es@, w) && w[0] == from && w.last() == from && w.len() <= 0;
            }
        }
        assert(edge_walk(es@, ep@[0]@, np@[0]@));
    }
    while round < max_hops
        invariant
            0 <= round,
            from != to,
            round <= max_hops || round == 0,
            reached_ok(es@, from, reached@, np@.map_values(|x: Vec<NodeKey>| x@), ep@.map_values(|x: Vec<usize>| x@), round as int),
            forall|u: NodeKey| within(es@, from, u, round as int) ==> reached@.contains(u),
            !reached@.contains(to),
            reached@.len() >= 1 && reached@[0] == from,
        decreases max_hops - round,
    {
        let n0 = reached.len();
        let ghost before = reached@;
        proof {
            assert forall|q: int| 0 <= q < n0 implies (#[trigger] ep@[q])@.len() <= round by {
                let rn = np@.map_values(|x: Vec<NodeKey>| x@);
                let re = ep@.map_values(|x: Vec<usize>| x@);
                assert(edge_walk(es@, re[q], rn[q]));
                assert(re[q] == ep@[q]@);
            }
            let rn = np@.map_values(|x: Vec<NodeKey>| x@);
            let re = ep@.map_values(|x: Vec<usize>| x@);
            assert forall|k: int| 0 <= k < reached@.len() implies #[trigger] edge_walk(es@, re[k], rn[k]) && rn[k][0] == from
                && rn[k].last() == reached@[k] && re[k].len() <= round + 1 && !within(es@, from, reached@[k], re[k].len() - 1) by {
                assert(edge_walk(es@, re[k], rn[k]));
            }
        }
        let mut i: usize = 0;
        while i < n0
            invariant
                0 <= round < max_hops,
                from != to,
                n0 <= reached@.len(),
                i <= n0,
                before.len() == n0,
                n0 >= 1 && before[0] == from,
                forall|j: int| 0 <= j < n0 ==> reached@[j] == before[j],
                forall|q: int| 0 <= q < n0 ==> (#[trigger] ep@[q])@.len() <= round,
                reached_ok(es@, from, reached@, np@.map_values(|x: Vec<NodeKey>| x@), ep@.map_values(|x: Vec<usize>| x@), round + 1),
                forall|u: NodeKey| within(es@, from, u, round as int) ==> before.contains(u),
                forall|j: int| n0 <= j < reached@.len() ==> !before.contains(#[trigger] reached@[j]),
                !reached@.contains(to),
                forall|a: int, e: int|
                    #![trigger before[a], es@[e]]
                    0 <= a < i && 0 <= e < es@.len() && (es@[e].0 == before[a] || es@[e].1 == before[a]) ==> reached@.contains(
                        es@[e].0,
                    ) && reached@.contains(es@[e].1),
            decreases n0 - i,
        {
            let mut j: usize = 0;
            while j < es.len()
                invariant
                    0 <= round < max_hops,
                    from != to,
                    n0 <= reached@.len(),
                    i < n0,
                    j <= es@.len(),
                    before.len() == n0,
                    n0 >= 1 && before[0] == from,
                    forall|q: int| 0 <= q < n0 ==> reached@[q] == before[q],
                    forall|q: int| 0 <= q < n0 ==> (#[trigger] ep@[q])@.len() <= round,
                    reached_ok(es@, from, reached@, np@.map_values(|x: Vec<NodeKey>| x@), ep@.map_values(|x: Vec<usize>| x@), round + 1),
                    forall|u: NodeKey| within(es@, from, u, round as int) ==> before.contains(u),
                    forall|q: int| n0 <= q < reached@.len() ==> !before.contains(#[trigger] reached@[q]),
                    !reached@.contains(to),
                    forall|a: int, e: int|
                        #![trigger before[a], es@[e]]
                        0 <= a < i && 0 <= e < es@.len() && (es@[e].0 == before[a] || es@[e].1 == before[a]) ==> reached@.contains(
                            es@[e].0,
                        ) && reached@.contains(es@[e].1),
                    forall|e: int|
                        0 <= e < j && (es@[e].0 == before[i as int] || es@[e].1 == before[i as int]) ==> reached@.contains(
                            (#[trigger] es@[e]).0,
                        ) && reached@.contains(es@[e].1),
                decreases es.len() - j,
            {
                let (a, b) = es[j];
                let here = reached[i];
                let other: Option<NodeKey> = if same(a, here) {
                    Some(b)
                } else if same(b, here) {
                    Some(a)
                } else {
                    None
                };
                if let Some(u) = other {
                    if !holds(&reached, u) {
                        let mut nw = clone_nodes(&np[i]);
                        nw.push(u);
                        let mut ew = clone_positions(&ep[i]);
                        ew.push(j);
                        let ghost old_np = np@.map_values(|x: Vec<NodeKey>| x@);
                        let ghost old_ep = ep@.map_values(|x: Vec<usize>| x@);
                        let ghost old_reached = reached@;
                        let ghost old_ep_raw = ep@;
                        proof {
                            assert(old_np[i as int] == np@[i as int]@);
                            assert(old_ep[i as int] == ep@[i as int]@);
                            assert(ep@[i as int]@.len() <= round);
                            assert(edge_walk(es@, old_ep[i as int], old_np[i as int]));
                            assert(edge_walk(es@, ew@, nw@)) by {
                                assert forall|k: int| 0 <= k < ew@.len() implies (#[trigger] ew@[k]) < es@.len() && (
                                es@[ew@[k] as int] == (nw@[k], nw@[k + 1]) || es@[ew@[k] as int] == (nw@[k + 1], nw@[k])) by {
                                    if k < old_ep[i as int].len() {
                                        assert(ew@[k] == old_ep[i as int][k]);
                                        assert(nw@[k] == old_np[i as int][k]);
                                        assert(nw@[k + 1] == old_np[i as int][k + 1]);
                                    } else {
                                        assert(nw@[k] == old_np[i as int].last());
                                        assert(old_np[i as int].last() == reached@[i as int]);
                                    }
                                }
                            }
                            assert(nw@[0] == from);
                            assert(!before.contains(u)) by {
                                if before.contains(u) {
                                    let q = choose|q: int| 0 <= q < before.len() && before[q] == u;
                                    assert(reached@[q] == u);
                                }
                            }
                            assert(!within(es@, from, u, ew@.len() - 1)) by {
                                if within(es@, from, u, ew@.len() - 1) {
                                    lemma_within_mono(es@, from, u, ew@.len() - 1, round as int);
                                }
                            }
                        }
                        let ghost nw_view = nw@;
                        let ghost ew_view = ew@;
                        if same(u, to) {
                            proof {
                                assert(ew@.len() <= round + 1);
                            }
                            return Some((ew, nw));
                        }
                        reached.push(u);
                        np.push(nw);
                        ep.push(ew);
                        proof {
                            let rn = np@.map_values(|x: Vec<NodeKey>| x@);
                            let re = ep@.map_values(|x: Vec<usize>| x@);
                            assert forall|k: int| 0 <= k < reached@.len() implies #[trigger] edge_walk(es@, re[k], rn[k])
                                && rn[k][0] == from && rn[k].last() == reached@[k] && re[k].len() <= round + 1 && !within(
                                es@,
                                from,
                                reached@[k],
                                re[k].len() - 1,
                            ) by {
                                if k < old_reached.len() {
                                    assert(rn[k] == old_np[k]);
                                    assert(re[k] == old_ep[k]);
                                    assert(reached@[k] == old_reached[k]);
                                    assert(edge_walk(es@, old_ep[k], old_np[k]));
                                } else {
                                    assert(rn[k] == np@[k]@);
                                    assert(re[k] == ep@[k]@);
                                    assert(rn[k] == nw_view);
                                    assert(re[k] == ew_view);
                                    assert(reached@[k] == u);
                                }
                            }
                            assert forall|q: int| 0 <= q < n0 implies (#[trigger] ep@[q])@.len() <= round by {
                                assert(ep@[q] == old_ep_raw[q]);
                            }
                            assert(!reached@.contains(to)) by {
                                if reached@.contains(to) {
                                    let q = choose|q: int| 0 <= q < reached@.len() && reached@[q] == to;
                                    if q < old_reached.len() {
                                        assert(old_reached[q] == to);
                                    }
                                }
                            }
                            assert forall|q: int| n0 <= q < reached@.len() implies !before.contains(#[trigger] reached@[q]) by {
                                if q < old_reached.len() {
                                    assert(reached@[q] == old_reached[q]);
                                }
                            }
                            assert forall|x: NodeKey| old_reached.contains(x) implies reached@.contains(x) by {
                                let q = choose|q: int| 0 <= q < old_reached.len() && old_reached[q] == x;
                                assert(reached@[q] == x);
                            }
                            assert(reached@.contains(u)) by {
                                assert(reached@[old_reached.len() as int] == u);
                            }
                        }
                    }
                }
                proof {
                    assert(reached@[i as int] == before[i as int]);
                    assert(here == before[i as int]);
                    if es@[j as int].0 == before[i as int] || es@[j as int].1 == before[i as int] {
                        assert(other is Some);
                        assert(reached@.contains(here)) by {
                            assert(reached@[i as int] == here);
                        }
                    }
                }
                j += 1;
            }
            i += 1;
        }
        let grew = reached.len() > n0;
        proof {
            assert forall|u: NodeKey| within(es@, from, u, round + 1) implies reached@.contains(u) by {
                let w = choose|w: Seq<NodeKey>| #[trigger] is_node_walk(es@, w) && w[0] == from && w.last() == u && w.len() <= round + 2;
                if w.len() <= round + 1 {
                    assert(before.contains(u));
                    let q = choose|q: int| 0 <= q < before.len() && before[q] == u;
                    assert(reached@[q] == u);
                } else {
                    let pre = w.take(w.len() - 1);
                    lemma_walk_prefix(es@, w, w.len() - 1);
                    assert(pre[0] == from);
                    assert(within(es@, from, pre.last(), round as int));
                    assert(before.contains(pre.last()));
                    let a = choose|a: int| 0 <= a < before.len() && before[a] == pre.last();
                    assert(pre.last() == w[w.len() - 2]);
                    assert(linked(es@, w[w.len() - 2], w[w.len() - 1]));
                    let e = choose|e: int| 0 <= e < es@.len() && (es@[e] == (w[w.len() - 2], w[w.len() - 1]) || es@[e] == (
                        w[w.len() - 1],
                        w[w.len() - 2],
                    ));
                    assert(es@[e].0 == before[a] || es@[e].1 == before[a]);
                }
            }
        }
        if !grew {
            proof {
                assert(reached@ =~= before);
                assert forall|x: NodeKey, y: NodeKey| reached@.contains(x) && #[trigger] linked(es@, x, y) implies reached@.contains(
                    y,
                ) by {
                    let a = choose|a: int| 0 <= a < reached@.len() && reached@[a] == x;
                    let e = choose|e: int| 0 <= e < es@.len() && (es@[e] == (x, y) || es@[e] == (y, x));
                    assert(es@[e].0 == before[a] || es@[e].1 == before[a]);
                }
                assert(!within(es@, from, to, max_hops as int)) by {
                    if within(es@, from, to, max_hops as int) {
                        let w = choose|w: Seq<NodeKey>| #[trigger] is_node_walk(es@, w) && w[0] == from && w.last() == to
                            && w.len() <= max_hops + 1;
                        assert(reached@[0] == from);
                        lemma_closed_walk(es@, reached@, w);
                    }
                }
            }
            return None;
        }
        round += 1;
    }
    proof {
        assert(!within(es@, from, to, max_hops as int)) by {
            if within(es@, from, to, max_hops as int) {
                let w = choose|w: Seq<NodeKey>| #[trigger] is_node_walk(es@, w) && w[0] == from && w.last() == to
                    && w.len() <= max_hops + 1;
                lemma_within_mono(es@, from, to, max_hops as int, round as int);
            }
        }
    }
    None
}

/// A copy of a list of nodes.
fn clone_nodes(v: &Vec<NodeKey>) -> (r: Vec<NodeKey>)
    ensures
        r@ == v@,
{
    let mut out: Vec<NodeKey> = Vec::new();
    let mut i: usize = 0;
    while i < v.len()
        invariant
            i <= v@.len(),
            out@ == v@.take(i as int),
        decreases v.len() - i,
    {
        out.push(v[i]);
        proof {
            assert(v@.take(i as int + 1) =~= v@.take(i as int).push(v@[i as int]));
        }
        i += 1;
    }
    proof {
        assert(v@.take(v@.len() as int) =~= v@);
    }
    out
}

/// A copy of a list of positions.
fn clone_positions(v: &Vec<usize>) -> (r: Vec<usize>)
    ensures
        r@ == v@,
{
    let mut out: Vec<usize> = Vec::new();
    let mut i: usize = 0;
    while i < v.len()
        invariant
            i <= v@.len(),
            out@ == v@.take(i as int),
        decreases v.len() - i,
    {
        out.push(v[i]);
        proof {
            assert(v@.take(i as int + 1) =~= v@.take(i as int).push(v@[i as int]));
        }
        i += 1;
    }
    proof {
        assert(v@.take(v@.len() as int) =~= v@);
    }
    out
}

/// What `shortest_walk` answers for `es`, `from`, `to` and `max_hops`: a
/// walk of edges and nodes that no shorter walk beats, or `None` when no
/// walk fits.
pub open spec fn shortest_walk_answer(
    es: Seq<(NodeKey, NodeKey)>,
    from: NodeKey,
    to: NodeKey,
    max_hops: i64,
    found: Option<(Seq<usize>, Seq<NodeKey>)>,
) -> bool {
    match found {
        Some((p, ns)) => edge_walk(es, p, ns) && ns[0] == from && ns.last() == to && p.len() <= (if max_hops < 0 {
            0
        } else {
            max_hops as int
        }) && !within(es, from, to, p.len() - 1),
        None => !within(es, from, to, max_hops as int),
    }
}

/// A shortest walk is complete and shortest: whenever some sequence of
/// nodes leads from `from` to `to` with at most `max_hops` steps, each
/// step along some edge in either direction, a walk is found, and it has
/// no more steps than that sequence; the walk found uses only edges of
/// `es`, each in either direction, and goes from `from` to `to`.
pub proof fn law_shortest_walk_complete(
    es: Seq<(NodeKey, NodeKey)>,
    from: NodeKey,
    to: NodeKey,
    max_hops: i64,
    found: Option<(Seq<usize>, Seq<NodeKey>)>,
    w: Seq<NodeKey>,
)
    requires
        shortest_walk_answer(es, from, to, max_hops, found),
        1 <= w.len() <= max_hops + 1,
        w[0] == from,
        w.last() == to,
        forall|k: int|
            0 <= k < w.len() - 1 ==> exists|e: int|
                0 <= e < es.len() && (es[e] == (w[k], #[trigger] w[k + 1]) || es[e] == (w[k + 1], w[k])),
    ensures
        found matches Some((p, ns)) && p.len() <= w.len() - 1 && ns.len() == p.len() + 1 && ns[0] == from && ns.last() == to
            && forall|k: int|
            0 <= k < p.len() ==> p[k] < es.len() && (es[p[k] as int] == (ns[k], #[trigger] ns[k + 1]) || es[p[k] as int] == (
                ns[k + 1],
                ns[k],
            )),
{
    assert forall|k: int| 0 <= k < w.len() - 1 implies #[trigger] linked(es, w[k], w[k + 1]) by {
        let e = choose|e: int| 0 <= e < es.len() && (es[e] == (w[k], #[trigger] w[k + 1]) || es[e] == (w[k + 1], w[k]));
    }
    assert(is_node_walk(es, w));
    assert(within(es, from, to, max_hops as int));
    match found {
        Some((p, ns)) => {
            if p.len() > w.len() - 1 {
                assert(within(es, from, to, p.len() - 1));
            }
        },
        None => {},
    }
}

} // verus!
