//! The mathematical model of a graph: vertices with their incidence lists, and the edge store.
use vstd::prelude::*;
use vstd::multiset::Multiset;
use crate::edge::EdgeView;
use crate::incidence::{count_index, IncidenceRecord};
use crate::selectors::Topology;

verus! {

/// What a vertex holds: its outgoing incidence list, its incoming one (kept by
/// bidirectional graphs only) and its property.
pub struct VertexView<V> {
    pub out_edges: Seq<IncidenceRecord>,
    pub in_edges: Seq<IncidenceRecord>,
    pub property: V,
}

/// A graph: the vertex store and the edge store, both indexed densely from zero.
pub struct GraphView<V, E> {
    pub vertices: Seq<VertexView<V>>,
    pub edges: Seq<EdgeView<usize, E>>,
}

/// 1 when `b` holds, else 0.
pub open spec fn one_if(b: bool) -> nat {
    if b {
        1
    } else {
        0
    }
}

/// Whether edge `e` is an out-edge of `v` under topology `t`: its source, or
/// for undirected graphs either endpoint.
pub open spec fn is_out_edge<E>(t: Topology, e: EdgeView<usize, E>, v: int) -> bool {
    e.source == v || (t == Topology::Undirected && e.target == v)
}

/// Whether edge `e` is an in-edge of `v` under topology `t`: its target, or
/// for undirected graphs either endpoint.
pub open spec fn is_in_edge<E>(t: Topology, e: EdgeView<usize, E>, v: int) -> bool {
    e.target == v || (t == Topology::Undirected && e.source == v)
}

/// Whether edge `e` touches vertex `v`.
pub open spec fn touches<E>(e: EdgeView<usize, E>, v: int) -> bool {
    e.source == v || e.target == v
}

/// Whether edge `e` leads from `s` to `t`; for undirected graphs, in either orientation.
pub open spec fn connects<E>(topo: Topology, e: EdgeView<usize, E>, s: int, t: int) -> bool {
    (e.source == s && e.target == t) || (topo == Topology::Undirected && e.source == t
        && e.target == s)
}

/// The elements of `s` from position `i` on whose position `drop` does not select, in order.
pub open spec fn retained_from<A>(s: Seq<A>, drop: spec_fn(int) -> bool, i: int) -> Seq<A>
    decreases s.len() - i,
{
    if i >= s.len() || i < 0 {
        Seq::empty()
    } else if drop(i) {
        retained_from(s, drop, i + 1)
    } else {
        seq![s[i]] + retained_from(s, drop, i + 1)
    }
}

/// The elements of `s` whose position `drop` does not select, in order.
pub open spec fn retained<A>(s: Seq<A>, drop: spec_fn(int) -> bool) -> Seq<A> {
    retained_from(s, drop, 0)
}

/// Indices, in increasing order, of the first `n` edges whose target is `v`.
pub open spec fn edges_into<E>(edges: Seq<EdgeView<usize, E>>, v: int, n: int) -> Seq<usize>
    decreases n,
{
    if n <= 0 {
        Seq::empty()
    } else if edges[n - 1].target == v {
        edges_into(edges, v, n - 1).push((n - 1) as usize)
    } else {
        edges_into(edges, v, n - 1)
    }
}

/// Edge indices of the records in `s` whose neighbour is `t`, in list order.
pub open spec fn records_to(s: Seq<IncidenceRecord>, t: int) -> Seq<usize>
    decreases s.len(),
{
    if s.len() == 0 {
        Seq::empty()
    } else if s.last().neighbor == t {
        records_to(s.drop_last(), t).push(s.last().edge_index)
    } else {
        records_to(s.drop_last(), t)
    }
}

/// `x`, with `from` renamed to `to`.
pub open spec fn rename(x: usize, from: usize, to: usize) -> usize {
    if x == from {
        to
    } else {
        x
    }
}

/// Edge `e` with endpoint `from` renamed to `to`.
pub open spec fn rename_edge<E>(e: EdgeView<usize, E>, from: usize, to: usize) -> EdgeView<usize, E> {
    EdgeView { source: rename(e.source, from, to), target: rename(e.target, from, to), property: e.property }
}

impl<V, E> GraphView<V, E> {
    /// How many records naming edge `e` the out-list of `v` must hold.
    pub open spec fn expected_out(self, t: Topology, v: int, e: int) -> nat {
        one_if(self.edges[e].source == v) + one_if(t == Topology::Undirected && self.edges[e].target == v)
    }

    /// How many records naming edge `e` the in-list of `v` must hold.
    pub open spec fn expected_in(self, t: Topology, v: int, e: int) -> nat {
        one_if(t == Topology::Bidirectional && self.edges[e].target == v)
    }

    /// A record in the out-list of `v` names a live edge that leaves `v` towards
    /// the record's neighbour (for undirected graphs, in either orientation).
    pub open spec fn out_record_ok(self, t: Topology, v: int, r: IncidenceRecord) -> bool {
        &&& r.edge_index < self.edges.len()
        &&& {
            let ed = self.edges[r.edge_index as int];
            ||| ed.source == v && ed.target == r.neighbor
            ||| t == Topology::Undirected && ed.target == v && ed.source == r.neighbor
        }
    }

    /// A record in the in-list of `v` names a live edge that enters `v` from the
    /// record's neighbour; only bidirectional graphs keep such records.
    pub open spec fn in_record_ok(self, t: Topology, v: int, r: IncidenceRecord) -> bool {
        &&& t == Topology::Bidirectional
        &&& r.edge_index < self.edges.len()
        &&& self.edges[r.edge_index as int].target == v
        &&& self.edges[r.edge_index as int].source == r.neighbor
    }

    /// Every edge has live endpoints.
    pub open spec fn endpoints_live(self) -> bool {
        forall|e: int|
            0 <= e < self.edges.len() ==> (#[trigger] self.edges[e]).source < self.vertices.len()
                && self.edges[e].target < self.vertices.len()
    }

    /// Every record names a live edge consistent with where it is held.
    pub open spec fn records_ok(self, t: Topology) -> bool {
        &&& forall|v: int, k: int|
            0 <= v < self.vertices.len() && 0 <= k < self.vertices[v].out_edges.len()
                ==> self.out_record_ok(t, v, #[trigger] self.vertices[v].out_edges[k])
        &&& forall|v: int, k: int|
            0 <= v < self.vertices.len() && 0 <= k < self.vertices[v].in_edges.len()
                ==> self.in_record_ok(t, v, #[trigger] self.vertices[v].in_edges[k])
    }

    /// Every edge is recorded exactly as often as its topology asks, and nowhere else.
    pub open spec fn counts_ok(self, t: Topology) -> bool {
        &&& forall|v: int, e: int|
            0 <= v < self.vertices.len() && 0 <= e < self.edges.len() ==> #[trigger] count_index(
                self.vertices[v].out_edges,
                e,
            ) == self.expected_out(t, v, e)
        &&& forall|v: int, e: int|
            0 <= v < self.vertices.len() && 0 <= e < self.edges.len() ==> #[trigger] count_index(
                self.vertices[v].in_edges,
                e,
            ) == self.expected_in(t, v, e)
    }

    /// The graph's invariant under topology `t`: endpoints are live, every
    /// incidence record names a live edge consistent with its holder, and every
    /// edge is recorded once at each place its topology asks (an undirected
    /// self-loop twice at its vertex), nowhere else.
    pub open spec fn wf(self, t: Topology) -> bool {
        &&& self.endpoints_live()
        &&& self.records_ok(t)
        &&& self.counts_ok(t)
    }

    /// Indices of the out-edges of `v`, in incidence order.
    pub open spec fn out_edge_ids(self, v: int) -> Seq<usize> {
        crate::incidence::edge_indices(self.vertices[v].out_edges)
    }

    /// Indices of the in-edges of `v`: the out-list for undirected graphs, a scan
    /// of the edge store for directed ones, the kept in-list for bidirectional ones.
    pub open spec fn in_edge_ids(self, t: Topology, v: int) -> Seq<usize> {
        match t {
            Topology::Undirected => self.out_edge_ids(v),
            Topology::Directed => edges_into(self.edges, v, self.edges.len() as int),
            Topology::Bidirectional => crate::incidence::edge_indices(self.vertices[v].in_edges),
        }
    }

    /// Neighbours reached from `v` by its out-edges, in incidence order.
    pub open spec fn adjacent(self, v: int) -> Seq<usize> {
        crate::incidence::neighbors(self.vertices[v].out_edges)
    }

    /// Neighbours that reach `v` by its in-edges, in the order of `in_edge_ids`.
    pub open spec fn inv_adjacent(self, t: Topology, v: int) -> Seq<usize> {
        match t {
            Topology::Undirected => self.adjacent(v),
            Topology::Directed => edges_into(self.edges, v, self.edges.len() as int).map_values(
                |i: usize| self.edges[i as int].source,
            ),
            Topology::Bidirectional => crate::incidence::neighbors(self.vertices[v].in_edges),
        }
    }

    /// The degree of `v`: the length of its incidence list for undirected graphs
    /// (a self-loop counts twice), in-degree plus out-degree otherwise.
    pub open spec fn degree(self, t: Topology, v: int) -> nat {
        if t == Topology::Undirected {
            self.out_edge_ids(v).len()
        } else {
            self.in_edge_ids(t, v).len() + self.out_edge_ids(v).len()
        }
    }

    /// Indices of the edges from `s` to `t` found in the out-list of `s`, in incidence order.
    pub open spec fn edges_between(self, s: int, t: int) -> Seq<usize> {
        records_to(self.vertices[s].out_edges, t)
    }

    /// The vertex properties, in vertex order.
    pub open spec fn vertex_properties(self) -> Seq<V> {
        self.vertices.map_values(|x: VertexView<V>| x.property)
    }
}


/// Moving the last element into slot `k` and dropping the last slot removes one
/// occurrence of `s[k]`.
pub proof fn lemma_swap_removed_multiset<A>(s: Seq<A>, k: int)
    requires
        0 <= k < s.len(),
    ensures
        crate::incidence::swap_removed(s, k).to_multiset() == s.to_multiset().remove(s[k]),
{
    broadcast use vstd::seq_lib::group_to_multiset_ensures;

    let u = s.update(k, s.last());
    assert(u.remove(k) =~= s.remove(k));
    assert(u.drop_last() =~= u.remove(u.len() - 1));
    assert(crate::incidence::swap_removed(s, k) == u.drop_last());
}

/// Peeling the element at `i` off the front of what is retained from `i` on.
pub proof fn lemma_retained_step<A>(s: Seq<A>, drop: spec_fn(int) -> bool, i: int)
    requires
        0 <= i < s.len(),
    ensures
        retained_from(s, drop, i).to_multiset() == if drop(i) {
            retained_from(s, drop, i + 1).to_multiset()
        } else {
            retained_from(s, drop, i + 1).to_multiset().insert(s[i])
        },
{
    if !drop(i) {
        vstd::seq_lib::lemma_multiset_commutative(seq![s[i]], retained_from(s, drop, i + 1));
        assert(seq![s[i]] =~= Seq::<A>::empty().push(s[i]));
        broadcast use vstd::seq_lib::group_to_multiset_ensures;

        assert(Seq::<A>::empty().to_multiset() =~= Multiset::empty());
    }
}


/// Record `r` with neighbour `from` renamed to `to`.
pub open spec fn rename_record(r: IncidenceRecord, from: usize, to: usize) -> IncidenceRecord {
    IncidenceRecord { neighbor: rename(r.neighbor, from, to), edge_index: r.edge_index }
}

/// Vertex `x` with every neighbour `from` renamed to `to`.
pub open spec fn rename_vertex<V>(x: VertexView<V>, from: usize, to: usize) -> VertexView<V> {
    VertexView {
        out_edges: x.out_edges.map_values(|r: IncidenceRecord| rename_record(r, from, to)),
        in_edges: x.in_edges.map_values(|r: IncidenceRecord| rename_record(r, from, to)),
        property: x.property,
    }
}

impl<V, E> GraphView<V, E> {
    /// `self` after vertex `v`, which no edge touches, leaves the vertex store:
    /// the last vertex moves into slot `v` and every reference to it is renamed.
    pub open spec fn without_vertex(self, v: int) -> GraphView<V, E> {
        let last = (self.vertices.len() - 1) as usize;
        GraphView {
            vertices: crate::incidence::swap_removed(self.vertices, v).map_values(
                |x: VertexView<V>| rename_vertex(x, last, v as usize),
            ),
            edges: self.edges.map_values(|e: EdgeView<usize, E>| rename_edge(e, last, v as usize)),
        }
    }
}

/// Renaming a record's neighbour keeps the count of every edge index.
pub proof fn lemma_count_rename(s: Seq<IncidenceRecord>, from: usize, to: usize, e: int)
    ensures
        count_index(s.map_values(|r: IncidenceRecord| rename_record(r, from, to)), e) == count_index(
            s,
            e,
        ),
    decreases s.len(),
{
    if s.len() > 0 {
        lemma_count_rename(s.drop_last(), from, to, e);
        assert(s.map_values(|r: IncidenceRecord| rename_record(r, from, to)).drop_last()
            =~= s.drop_last().map_values(|r: IncidenceRecord| rename_record(r, from, to)));
    }
}

/// Removing a vertex that no edge touches, and renaming the last vertex into
/// its slot, keeps the invariant.
pub proof fn lemma_without_vertex_wf<V, E>(g: GraphView<V, E>, t: Topology, v: int)
    requires
        g.wf(t),
        0 <= v < g.vertices.len() <= usize::MAX,
        forall|e: int| 0 <= e < g.edges.len() ==> !touches(#[trigger] g.edges[e], v),
    ensures
        g.without_vertex(v).wf(t),
{
    let last = (g.vertices.len() - 1) as usize;
    let h = g.without_vertex(v);
    let old_of = |w: int| if w == v {
        last as int
    } else {
        w
    };
    assert forall|w: int| 0 <= w < h.vertices.len() implies #[trigger] h.vertices[w] == rename_vertex(
        g.vertices[old_of(w)],
        last,
        v as usize,
    ) by {
        assert(crate::incidence::swap_removed(g.vertices, v)[w] == g.vertices[old_of(w)]);
    }
    assert forall|e: int| 0 <= e < h.edges.len() implies (#[trigger] h.edges[e]).source
        < h.vertices.len() && h.edges[e].target < h.vertices.len() by {
        assert(g.edges[e].source < g.vertices.len());
        assert(!touches(g.edges[e], v));
    }
    assert forall|w: int, e: int|
        0 <= w < h.vertices.len() && 0 <= e < h.edges.len() implies #[trigger] count_index(
        h.vertices[w].out_edges,
        e,
    ) == h.expected_out(t, w, e) by {
        lemma_count_rename(g.vertices[old_of(w)].out_edges, last, v as usize, e);
        assert(count_index(g.vertices[old_of(w)].out_edges, e) == g.expected_out(t, old_of(w), e));
        assert(!touches(g.edges[e], v));
    }
    assert forall|w: int, e: int|
        0 <= w < h.vertices.len() && 0 <= e < h.edges.len() implies #[trigger] count_index(
        h.vertices[w].in_edges,
        e,
    ) == h.expected_in(t, w, e) by {
        lemma_count_rename(g.vertices[old_of(w)].in_edges, last, v as usize, e);
        assert(count_index(g.vertices[old_of(w)].in_edges, e) == g.expected_in(t, old_of(w), e));
        assert(!touches(g.edges[e], v));
    }
    assert forall|w: int, k: int|
        0 <= w < h.vertices.len() && 0 <= k < h.vertices[w].out_edges.len() implies h.out_record_ok(
        t,
        w,
        #[trigger] h.vertices[w].out_edges[k],
    ) by {
        let r = g.vertices[old_of(w)].out_edges[k];
        assert(g.out_record_ok(t, old_of(w), r));
        assert(!touches(g.edges[r.edge_index as int], v));
    }
    assert forall|w: int, k: int|
        0 <= w < h.vertices.len() && 0 <= k < h.vertices[w].in_edges.len() implies h.in_record_ok(
        t,
        w,
        #[trigger] h.vertices[w].in_edges[k],
    ) by {
        let r = g.vertices[old_of(w)].in_edges[k];
        assert(g.in_record_ok(t, old_of(w), r));
        assert(!touches(g.edges[r.edge_index as int], v));
    }
}


/// Whatever is retained from position `i` on is an unselected element from there.
pub proof fn lemma_retained_contains<A>(s: Seq<A>, drop: spec_fn(int) -> bool, i: int, x: A)
    requires
        0 <= i,
        retained_from(s, drop, i).contains(x),
    ensures
        exists|j: int| i <= j < s.len() && !drop(j) && s[j] == x,
    decreases s.len() - i,
{
    if i < s.len() {
        if drop(i) {
            lemma_retained_contains(s, drop, i + 1, x);
        } else {
            let r = retained_from(s, drop, i + 1);
            if x != s[i] {
                let k = choose|k: int| 0 <= k < (seq![s[i]] + r).len() && (seq![s[i]] + r)[k] == x;
                assert(r[k - 1] == x);
                lemma_retained_contains(s, drop, i + 1, x);
            }
        }
    }
}


/// What is retained depends only on the selection at positions from `i` on.
pub proof fn lemma_retained_congruent<A>(s: Seq<A>, d1: spec_fn(int) -> bool, d2: spec_fn(int) -> bool, i: int)
    requires
        0 <= i,
        forall|j: int| i <= j < s.len() ==> #[trigger] d1(j) == d2(j),
    ensures
        retained_from(s, d1, i) == retained_from(s, d2, i),
    decreases s.len() - i,
{
    if i < s.len() {
        lemma_retained_congruent(s, d1, d2, i + 1);
    }
}


/// The scan for edges into `v` yields indices below `n`, in increasing order.
pub proof fn lemma_edges_into_bounded<E>(edges: Seq<EdgeView<usize, E>>, v: int, n: int)
    requires
        0 <= n <= edges.len(),
        n <= usize::MAX,
    ensures
        forall|m: int| 0 <= m < edges_into(edges, v, n).len() ==> #[trigger] edges_into(edges, v, n)[m] < n,
        forall|m: int| 0 <= m < edges_into(edges, v, n).len() ==> edges[#[trigger] edges_into(edges, v, n)[m] as int].target == v,
    decreases n,
{
    if n > 0 {
        lemma_edges_into_bounded(edges, v, n - 1);
        let p = edges_into(edges, v, n - 1);
        assert forall|m: int| 0 <= m < edges_into(edges, v, n).len() implies #[trigger] edges_into(edges, v, n)[m] < n
            && edges[edges_into(edges, v, n)[m] as int].target == v by {
            if m < p.len() {
                assert(edges_into(edges, v, n)[m] == p[m]);
            }
        }
    }
}


/// Which edges a batch removal looks at: all, those between two vertices, the
/// out-edges or in-edges of a vertex, or those touching it.
pub enum Scope {
    All,
    Between(usize, usize),
    OutOf(usize),
    InTo(usize),
    Touching(usize),
}

/// Whether edge `e` lies in scope `sc` under topology `t`.
pub open spec fn in_scope<E>(t: Topology, sc: Scope, e: EdgeView<usize, E>) -> bool {
    match sc {
        Scope::All => true,
        Scope::Between(s, tt) => connects(t, e, s as int, tt as int),
        Scope::OutOf(v) => is_out_edge(t, e, v as int),
        Scope::InTo(v) => is_in_edge(t, e, v as int),
        Scope::Touching(v) => touches(e, v as int),
    }
}

/// `chosen` marks exactly the edges in scope `sc` on whose index `predicate`
/// answered true.
pub open spec fn chosen_by<E, F: Fn(&usize) -> bool>(
    chosen: Seq<bool>,
    t: Topology,
    sc: Scope,
    edges: Seq<EdgeView<usize, E>>,
    predicate: F,
) -> bool {
    &&& chosen.len() == edges.len()
    &&& forall|j: int|
        0 <= j < edges.len() ==> (#[trigger] chosen[j] ==> in_scope(t, sc, edges[j]) && call_ensures(
            predicate,
            (&(j as usize),),
            true,
        )) && (!chosen[j] && in_scope(t, sc, edges[j]) ==> call_ensures(predicate, (&(j as usize),), false))
}


/// Renaming a vertex to itself changes nothing.
pub proof fn lemma_rename_nothing<V, E>(g: GraphView<V, E>, v: usize)
    ensures
        g.vertices.map_values(|x: VertexView<V>| rename_vertex(x, v, v)) == g.vertices,
        g.edges.map_values(|e: EdgeView<usize, E>| rename_edge(e, v, v)) == g.edges,
{
    assert forall|w: int| 0 <= w < g.vertices.len() implies #[trigger] rename_vertex(g.vertices[w], v, v) == g.vertices[w] by {
        assert(g.vertices[w].out_edges.map_values(|r: IncidenceRecord| rename_record(r, v, v)) =~= g.vertices[w].out_edges);
        assert(g.vertices[w].in_edges.map_values(|r: IncidenceRecord| rename_record(r, v, v)) =~= g.vertices[w].in_edges);
    }
    assert(g.vertices.map_values(|x: VertexView<V>| rename_vertex(x, v, v)) =~= g.vertices);
    assert(g.edges.map_values(|e: EdgeView<usize, E>| rename_edge(e, v, v)) =~= g.edges);
}


/// `s` after the positions from the last down to `i` are visited in turn, and
/// each one `drop` selects is swap-removed: the last element moves into it.
pub open spec fn removed_from<A>(s: Seq<A>, drop: spec_fn(int) -> bool, i: int) -> Seq<A>
    decreases s.len() - i,
{
    if i < 0 || i >= s.len() {
        s
    } else if drop(i) {
        crate::incidence::swap_removed(removed_from(s, drop, i + 1), i)
    } else {
        removed_from(s, drop, i + 1)
    }
}

/// Descending swap-removal keeps the prefix below `i`, and what it keeps from
/// `i` on is, as a multiset, what `retained_from` keeps.
pub proof fn lemma_removed_from<A>(s: Seq<A>, drop: spec_fn(int) -> bool, i: int)
    requires
        0 <= i <= s.len(),
    ensures
        removed_from(s, drop, i).len() >= i,
        forall|j: int| 0 <= j < i ==> #[trigger] removed_from(s, drop, i)[j] == s[j],
        removed_from(s, drop, i).to_multiset() == s.subrange(0, i).to_multiset().add(
            retained_from(s, drop, i).to_multiset(),
        ),
    decreases s.len() - i,
{
    broadcast use vstd::seq_lib::group_to_multiset_ensures;

    if i == s.len() {
        assert(s.subrange(0, i) =~= s);
        assert(retained_from(s, drop, i) == Seq::<A>::empty());
        assert(Seq::<A>::empty().to_multiset() =~= Multiset::empty());
        assert(s.to_multiset() =~= s.to_multiset().add(Multiset::empty()));
    } else {
        lemma_removed_from(s, drop, i + 1);
        lemma_retained_step(s, drop, i);
        let rest = removed_from(s, drop, i + 1);
        assert(rest[i] == s[i]);
        assert(s.subrange(0, i + 1) =~= s.subrange(0, i).push(s[i]));
        if drop(i) {
            lemma_swap_removed_multiset(rest, i);
            assert forall|j: int| 0 <= j < i implies #[trigger] removed_from(s, drop, i)[j] == s[j] by {
                assert(removed_from(s, drop, i)[j] == rest[j]);
            }
            assert(removed_from(s, drop, i).to_multiset() =~= s.subrange(0, i).to_multiset().add(
                retained_from(s, drop, i).to_multiset(),
            ));
        } else {
            assert(removed_from(s, drop, i).to_multiset() =~= s.subrange(0, i).to_multiset().add(
                retained_from(s, drop, i).to_multiset(),
            ));
        }
    }
}

/// Descending swap-removal that selects nothing from `i` on leaves `s` as it is.
pub proof fn lemma_removed_nothing<A>(s: Seq<A>, drop: spec_fn(int) -> bool, i: int)
    requires
        0 <= i,
        forall|j: int| i <= j < s.len() ==> !#[trigger] drop(j),
    ensures
        removed_from(s, drop, i) == s,
    decreases s.len() - i,
{
    if i < s.len() {
        lemma_removed_nothing(s, drop, i + 1);
    }
}

/// Descending swap-removal depends only on the selection at positions from `i` on.
pub proof fn lemma_removed_congruent<A>(s: Seq<A>, d1: spec_fn(int) -> bool, d2: spec_fn(int) -> bool, i: int)
    requires
        0 <= i,
        forall|j: int| i <= j < s.len() ==> #[trigger] d1(j) == d2(j),
    ensures
        removed_from(s, d1, i) == removed_from(s, d2, i),
    decreases s.len() - i,
{
    if i < s.len() {
        lemma_removed_congruent(s, d1, d2, i + 1);
    }
}

/// The edges left when every edge touching `v` is removed, highest index first.
pub open spec fn untouched<E>(edges: Seq<EdgeView<usize, E>>, v: int) -> Seq<EdgeView<usize, E>> {
    removed_from(edges, |j: int| touches(edges[j], v), 0)
}

/// Every edge with endpoint `from` renamed to `to`.
pub open spec fn rename_edges<E>(edges: Seq<EdgeView<usize, E>>, from: usize, to: usize) -> Seq<EdgeView<usize, E>> {
    edges.map_values(|e: EdgeView<usize, E>| rename_edge(e, from, to))
}

/// The records that adding edge `e`, from `s` to `tt`, appends to the out-list
/// of `w`: one at the source, and for undirected graphs one at the target (so
/// two at the vertex of a self-loop).
pub open spec fn added_out(t: Topology, w: int, s: usize, tt: usize, e: usize) -> Seq<IncidenceRecord> {
    (if w == s {
        seq![IncidenceRecord { neighbor: tt, edge_index: e }]
    } else {
        Seq::empty()
    }) + if t == Topology::Undirected && w == tt {
        seq![IncidenceRecord { neighbor: s, edge_index: e }]
    } else {
        Seq::empty()
    }
}

/// The records that adding edge `e`, from `s` to `tt`, appends to the in-list
/// of `w`: one at the target, for bidirectional graphs only.
pub open spec fn added_in(t: Topology, w: int, s: usize, tt: usize, e: usize) -> Seq<IncidenceRecord> {
    if t == Topology::Bidirectional && w == tt {
        seq![IncidenceRecord { neighbor: s, edge_index: e }]
    } else {
        Seq::empty()
    }
}

/// The out-list of `w` after `edges` are added one by one to a graph without edges.
pub open spec fn built_out<E>(t: Topology, edges: Seq<EdgeView<usize, E>>, w: int) -> Seq<IncidenceRecord>
    decreases edges.len(),
{
    if edges.len() == 0 {
        Seq::empty()
    } else {
        built_out(t, edges.drop_last(), w) + added_out(
            t,
            w,
            edges.last().source,
            edges.last().target,
            (edges.len() - 1) as usize,
        )
    }
}

/// The in-list of `w` after `edges` are added one by one to a graph without edges.
pub open spec fn built_in<E>(t: Topology, edges: Seq<EdgeView<usize, E>>, w: int) -> Seq<IncidenceRecord>
    decreases edges.len(),
{
    if edges.len() == 0 {
        Seq::empty()
    } else {
        built_in(t, edges.drop_last(), w) + added_in(
            t,
            w,
            edges.last().source,
            edges.last().target,
            (edges.len() - 1) as usize,
        )
    }
}

/// A vertex that no edge touches gets no record from adding them.
pub proof fn lemma_built_untouched<E>(t: Topology, edges: Seq<EdgeView<usize, E>>, w: int)
    requires
        forall|j: int| 0 <= j < edges.len() ==> !touches(#[trigger] edges[j], w),
    ensures
        built_out(t, edges, w) == Seq::<IncidenceRecord>::empty(),
        built_in(t, edges, w) == Seq::<IncidenceRecord>::empty(),
    decreases edges.len(),
{
    if edges.len() > 0 {
        let p = edges.drop_last();
        assert forall|j: int| 0 <= j < p.len() implies !touches(#[trigger] p[j], w) by {
            assert(p[j] == edges[j]);
        }
        lemma_built_untouched(t, p, w);
        assert(!touches(edges[edges.len() - 1], w));
        assert(built_out(t, edges, w) =~= Seq::<IncidenceRecord>::empty());
        assert(built_in(t, edges, w) =~= Seq::<IncidenceRecord>::empty());
    }
}


/// Renaming twice is renaming once, when `from` and `to` differ.
pub proof fn lemma_rename_vertex_twice<V>(x: VertexView<V>, from: usize, to: usize)
    requires
        from != to,
    ensures
        rename_vertex(rename_vertex(x, from, to), from, to) == rename_vertex(x, from, to),
{
    assert(rename_vertex(x, from, to).out_edges.map_values(|r: IncidenceRecord| rename_record(r, from, to))
        =~= rename_vertex(x, from, to).out_edges);
    assert(rename_vertex(x, from, to).in_edges.map_values(|r: IncidenceRecord| rename_record(r, from, to))
        =~= rename_vertex(x, from, to).in_edges);
}

/// A vertex whose records never name `from` is left as it is by renaming `from`.
pub proof fn lemma_rename_vertex_unchanged<V>(x: VertexView<V>, from: usize, to: usize)
    requires
        forall|k: int| 0 <= k < x.out_edges.len() ==> (#[trigger] x.out_edges[k]).neighbor != from,
        forall|k: int| 0 <= k < x.in_edges.len() ==> (#[trigger] x.in_edges[k]).neighbor != from,
    ensures
        rename_vertex(x, from, to) == x,
{
    assert(x.out_edges.map_values(|r: IncidenceRecord| rename_record(r, from, to)) =~= x.out_edges);
    assert(x.in_edges.map_values(|r: IncidenceRecord| rename_record(r, from, to)) =~= x.in_edges);
}

} // verus!
