//! Properties that hold of every graph the library builds, proved over the model.
use vstd::prelude::*;
use crate::counting::{
    lemma_edges_into_len, lemma_len_is_sum_of_counts, lemma_retained_len, lemma_sum_add, lemma_sum_congruent,
    sum_to,
};
use crate::edge::EdgeView;
use crate::incidence::{count_index, edge_indices, lemma_count_positive, lemma_count_zero, swap_removed};
use crate::model::{
    lemma_removed_from, lemma_retained_contains, one_if, records_to, rename_edge, rename_edges, retained, touches,
    untouched, GraphView,
};
use vstd::multiset::Multiset;
use crate::selectors::Topology;

verus! {

/// Every record of the out-list of `v` names an edge below `|E|`, and so does
/// every record of its in-list.
proof fn lemma_lists_bounded<V, E>(g: GraphView<V, E>, t: Topology, v: int)
    requires
        g.wf(t),
        0 <= v < g.vertices.len(),
    ensures
        forall|k: int| 0 <= k < g.vertices[v].out_edges.len() ==> (#[trigger] g.vertices[v].out_edges[k]).edge_index < g.edges.len(),
        forall|k: int| 0 <= k < g.vertices[v].in_edges.len() ==> (#[trigger] g.vertices[v].in_edges[k]).edge_index < g.edges.len(),
{
    assert forall|k: int| 0 <= k < g.vertices[v].out_edges.len() implies (#[trigger] g.vertices[v].out_edges[k]).edge_index < g.edges.len() by {
        assert(g.out_record_ok(t, v, g.vertices[v].out_edges[k]));
    }
    assert forall|k: int| 0 <= k < g.vertices[v].in_edges.len() implies (#[trigger] g.vertices[v].in_edges[k]).edge_index < g.edges.len() by {
        assert(g.in_record_ok(t, v, g.vertices[v].in_edges[k]));
    }
}

/// Degree consistency: the out-degree of `v` is the number of edges that
/// leave it (for undirected graphs, that touch it, a self-loop twice), and for
/// directed and bidirectional graphs the in-degree of `v` is the number of
/// edges whose target is `v`.
pub proof fn lemma_degree_consistency<V, E>(g: GraphView<V, E>, t: Topology, v: int)
    requires
        g.wf(t),
        0 <= v < g.vertices.len(),
    ensures
        g.out_edge_ids(v).len() == sum_to(g.edges.len() as int, |e: int| g.expected_out(t, v, e)),
        t != Topology::Undirected ==> g.in_edge_ids(t, v).len() == sum_to(
            g.edges.len() as int,
            |e: int| one_if(g.edges[e].target == v),
        ),
{
    let n = g.edges.len() as int;
    lemma_lists_bounded(g, t, v);
    let out = g.vertices[v].out_edges;
    lemma_len_is_sum_of_counts(out, n);
    assert forall|e: int| 0 <= e < n implies #[trigger] count_index(out, e) == g.expected_out(t, v, e) by {}
    lemma_sum_congruent(n, |e: int| count_index(out, e), |e: int| g.expected_out(t, v, e));
    if t == Topology::Bidirectional {
        let inl = g.vertices[v].in_edges;
        lemma_len_is_sum_of_counts(inl, n);
        assert forall|e: int| 0 <= e < n implies #[trigger] count_index(inl, e) == one_if(g.edges[e].target == v) by {
            assert(count_index(inl, e) == g.expected_in(t, v, e));
        }
        lemma_sum_congruent(n, |e: int| count_index(inl, e), |e: int| one_if(g.edges[e].target == v));
    } else if t == Topology::Directed {
        lemma_edges_into_len(g.edges, v, n);
    }
}

/// Symmetry of undirected graphs: every edge is in the out-list of both endpoints.
pub proof fn lemma_undirected_symmetry<V, E>(g: GraphView<V, E>, e: int)
    requires
        g.wf(Topology::Undirected),
        0 <= e < g.edges.len(),
    ensures
        g.out_edge_ids(g.edges[e].source as int).contains(e as usize),
        g.out_edge_ids(g.edges[e].target as int).contains(e as usize),
{
    let s = g.edges[e].source as int;
    let t = g.edges[e].target as int;
    assert(count_index(g.vertices[s].out_edges, e) == g.expected_out(Topology::Undirected, s, e));
    let k = lemma_count_positive(g.vertices[s].out_edges, e);
    assert(g.out_edge_ids(s)[k] == e as usize);
    assert(count_index(g.vertices[t].out_edges, e) == g.expected_out(Topology::Undirected, t, e));
    let k2 = lemma_count_positive(g.vertices[t].out_edges, e);
    assert(g.out_edge_ids(t)[k2] == e as usize);
}

/// Reverse consistency of bidirectional graphs: an edge `s -> t` is in the
/// out-list of `s` and the in-list of `t`, and in no other vertex's lists.
pub proof fn lemma_bidirectional_reverse<V, E>(g: GraphView<V, E>, e: int)
    requires
        g.wf(Topology::Bidirectional),
        0 <= e < g.edges.len(),
    ensures
        g.out_edge_ids(g.edges[e].source as int).contains(e as usize),
        g.in_edge_ids(Topology::Bidirectional, g.edges[e].target as int).contains(e as usize),
        forall|w: int|
            0 <= w < g.vertices.len() && w != g.edges[e].source ==> !(#[trigger] g.out_edge_ids(w)).contains(e as usize),
        forall|w: int|
            0 <= w < g.vertices.len() && w != g.edges[e].target ==> !(#[trigger] g.in_edge_ids(
                Topology::Bidirectional,
                w,
            )).contains(e as usize),
{
    let bi = Topology::Bidirectional;
    let s = g.edges[e].source as int;
    let t = g.edges[e].target as int;
    assert(count_index(g.vertices[s].out_edges, e) == g.expected_out(bi, s, e));
    let k = lemma_count_positive(g.vertices[s].out_edges, e);
    assert(g.out_edge_ids(s)[k] == e as usize);
    assert(count_index(g.vertices[t].in_edges, e) == g.expected_in(bi, t, e));
    let k2 = lemma_count_positive(g.vertices[t].in_edges, e);
    assert(g.in_edge_ids(bi, t)[k2] == e as usize);
    assert forall|w: int| 0 <= w < g.vertices.len() && w != g.edges[e].source implies !(#[trigger] g.out_edge_ids(w)).contains(
        e as usize,
    ) by {
        assert(count_index(g.vertices[w].out_edges, e) == g.expected_out(bi, w, e));
        lemma_count_zero(g.vertices[w].out_edges, e);
        if g.out_edge_ids(w).contains(e as usize) {
            let j = choose|j: int| 0 <= j < g.out_edge_ids(w).len() && g.out_edge_ids(w)[j] == e as usize;
            assert(g.vertices[w].out_edges[j].edge_index == e);
        }
    }
    assert forall|w: int| 0 <= w < g.vertices.len() && w != g.edges[e].target implies !(#[trigger] g.in_edge_ids(
        bi,
        w,
    )).contains(e as usize) by {
        assert(count_index(g.vertices[w].in_edges, e) == g.expected_in(bi, w, e));
        lemma_count_zero(g.vertices[w].in_edges, e);
        if g.in_edge_ids(bi, w).contains(e as usize) {
            let j = choose|j: int| 0 <= j < g.in_edge_ids(bi, w).len() && g.in_edge_ids(bi, w)[j] == e as usize;
            assert(g.vertices[w].in_edges[j].edge_index == e);
        }
    }
}

/// A record with neighbour `t` at position `k` puts its edge among the edges to `t`.
proof fn lemma_records_to_contains(s: Seq<crate::incidence::IncidenceRecord>, t: int, k: int)
    requires
        0 <= k < s.len(),
        s[k].neighbor == t,
    ensures
        records_to(s, t).contains(s[k].edge_index),
    decreases s.len(),
{
    if k == s.len() - 1 {
        assert(records_to(s, t).last() == s[k].edge_index);
    } else {
        assert(s.drop_last()[k] == s[k]);
        lemma_records_to_contains(s.drop_last(), t, k);
        let r = records_to(s.drop_last(), t);
        let j = choose|j: int| 0 <= j < r.len() && r[j] == s[k].edge_index;
        if s.last().neighbor == t {
            assert(records_to(s, t)[j] == r[j]);
        }
    }
}

/// Every edge is found by `get_edges` between its endpoints.
pub proof fn lemma_edge_reachable<V, E>(g: GraphView<V, E>, t: Topology, e: int)
    requires
        g.wf(t),
        0 <= e < g.edges.len(),
    ensures
        g.edges_between(g.edges[e].source as int, g.edges[e].target as int).contains(e as usize),
{
    let s = g.edges[e].source as int;
    let tt = g.edges[e].target as int;
    assert(count_index(g.vertices[s].out_edges, e) == g.expected_out(t, s, e));
    let k = lemma_count_positive(g.vertices[s].out_edges, e);
    assert(g.out_record_ok(t, s, g.vertices[s].out_edges[k]));
    lemma_records_to_contains(g.vertices[s].out_edges, tt, k);
}

/// Removal reindexing: after the edge at `i` is removed as `remove_edge_at`
/// removes it, one edge fewer remains, and every other edge (the last one now
/// at `i`) is still found by `get_edges` between its endpoints.
pub proof fn lemma_removal_reindexing<V, E>(g: GraphView<V, E>, h: GraphView<V, E>, t: Topology, i: int)
    requires
        g.wf(t),
        h.wf(t),
        0 <= i < g.edges.len(),
        h.edges == swap_removed(g.edges, i),
    ensures
        h.edges.len() == g.edges.len() - 1,
        forall|j: int|
            #![trigger g.edges[j]]
            0 <= j < g.edges.len() && j != i ==> {
                let k = if j == g.edges.len() - 1 {
                    i
                } else {
                    j
                };
                &&& h.edges[k] == g.edges[j]
                &&& h.edges_between(g.edges[j].source as int, g.edges[j].target as int).contains(
                    k as usize,
                )
            },
{
    assert forall|j: int| #![trigger g.edges[j]] 0 <= j < g.edges.len() && j != i implies {
        let k = if j == g.edges.len() - 1 {
            i
        } else {
            j
        };
        &&& h.edges[k] == g.edges[j]
        &&& h.edges_between(g.edges[j].source as int, g.edges[j].target as int).contains(k as usize)
    } by {
        let k = if j == g.edges.len() - 1 {
            i
        } else {
            j
        };
        assert(h.edges[k] == g.edges[j]);
        lemma_edge_reachable(h, t, k);
    }
}

/// Vertex removal cascade: after vertex `v` is removed as `remove_vertex`
/// removes it, the edges that remain are the renamed edges that did not touch
/// `v`, so their number drops by the number of edges touching `v`; that is the
/// degree of `v` when `v` has no self-loop.
pub proof fn lemma_vertex_removal_cascade<V, E>(g: GraphView<V, E>, h: GraphView<V, E>, t: Topology, v: int)
    requires
        g.wf(t),
        0 <= v < g.vertices.len(),
        h.edges == rename_edges(untouched(g.edges, v), (g.vertices.len() - 1) as usize, v as usize),
    ensures
        h.edges.len() + sum_to(g.edges.len() as int, |j: int| one_if(touches(g.edges[j], v))) == g.edges.len(),
        (forall|j: int| 0 <= j < g.edges.len() ==> !(#[trigger] g.edges[j].source == v && g.edges[j].target == v))
            ==> h.edges.len() + g.degree(t, v) == g.edges.len(),
        forall|k: int|
            0 <= k < h.edges.len() ==> exists|j: int|
                0 <= j < g.edges.len() && !touches(g.edges[j], v) && #[trigger] h.edges[k] == rename_edge(
                    #[trigger] g.edges[j],
                    (g.vertices.len() - 1) as usize,
                    v as usize,
                ),
{
    broadcast use vstd::seq_lib::group_to_multiset_ensures;

    let n = g.edges.len() as int;
    let last = (g.vertices.len() - 1) as usize;
    let drop = |j: int| touches(g.edges[j], v);
    let kept = untouched(g.edges, v);
    lemma_removed_from(g.edges, drop, 0);
    assert(g.edges.subrange(0, 0) =~= Seq::<EdgeView<usize, E>>::empty());
    assert(Seq::<EdgeView<usize, E>>::empty().to_multiset() =~= Multiset::empty());
    assert(kept.to_multiset() =~= retained(g.edges, drop).to_multiset());
    let r = retained(g.edges, drop);
    lemma_retained_len(g.edges, drop, 0);
    assert(kept.len() == kept.to_multiset().len());
    assert(r.len() == r.to_multiset().len());
    assert(h.edges.len() == kept.len());
    lemma_sum_congruent(n, |j: int| one_if(drop(j)), |j: int| one_if(touches(g.edges[j], v)));
    assert(sum_to(0, |j: int| one_if(drop(j))) == 0);
    assert forall|k: int| 0 <= k < h.edges.len() implies exists|j: int|
        0 <= j < g.edges.len() && !touches(g.edges[j], v) && #[trigger] h.edges[k] == rename_edge(
            #[trigger] g.edges[j],
            last,
            v as usize,
        ) by {
        let x = kept[k];
        assert(kept.contains(x));
        assert(kept.to_multiset().count(x) > 0);
        assert(r.to_multiset().count(x) > 0);
        assert(r.contains(x));
        lemma_retained_contains(g.edges, drop, 0, x);
        let j = choose|j: int| 0 <= j < g.edges.len() && !drop(j) && g.edges[j] == x;
        assert(h.edges[k] == rename_edge(g.edges[j], last, v as usize));
    }
    if forall|j: int| 0 <= j < g.edges.len() ==> !(#[trigger] g.edges[j].source == v && g.edges[j].target == v) {
        lemma_degree_consistency(g, t, v);
        let src = |e: int| one_if(g.edges[e].source == v);
        let tgt = |e: int| one_if(g.edges[e].target == v);
        lemma_sum_add(n, src, tgt);
        assert forall|e: int| 0 <= e < n implies #[trigger] one_if(drop(e)) == src(e) + tgt(e) by {
            assert(!(g.edges[e].source == v && g.edges[e].target == v));
        }
        lemma_sum_congruent(n, |j: int| one_if(drop(j)), |e: int| src(e) + tgt(e));
        if t == Topology::Undirected {
            lemma_sum_congruent(n, |e: int| g.expected_out(t, v, e), |e: int| src(e) + tgt(e));
            assert(g.degree(t, v) == g.out_edge_ids(v).len());
        } else {
            lemma_sum_congruent(n, |e: int| g.expected_out(t, v, e), src);
            lemma_sum_congruent(n, |e: int| one_if(g.edges[e].target == v), tgt);
        }
    }
}

} // verus!
