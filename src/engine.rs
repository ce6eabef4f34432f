//! The adjacency-list engine shared by the three topologies: a dense vertex store
//! and a dense edge store, kept consistent through swap-based removal.
use vstd::prelude::*;
use vstd::multiset::Multiset;
use crate::backend::DenseStore;
use crate::edge::{Edge, EdgeView};
use crate::incidence::{count_index, edge_indices, neighbors, find_record, lemma_count_absent, lemma_count_zero, lemma_count_push, lemma_count_positive, lemma_count_swap_removed, lemma_count_update, swap_removed, IncidenceRecord};
use crate::model::{
    added_in, added_out, lemma_rename_vertex_twice, lemma_rename_vertex_unchanged, rename, rename_edges, untouched, lemma_removed_congruent, lemma_removed_from, lemma_removed_nothing, lemma_rename_nothing, removed_from, lemma_retained_congruent, lemma_retained_contains, lemma_retained_step, lemma_swap_removed_multiset, lemma_without_vertex_wf, one_if,
    chosen_by, edges_into, in_scope, lemma_edges_into_bounded, records_to, rename_edge, rename_record, rename_vertex, retained,
    retained_from, touches, GraphView, Scope, VertexView,
};
use crate::selectors::{DirectedSelectorTrait, Topology};

verus! {

/// A vertex slot: its incidence lists and its property.
pub struct VertexEntry<V> {
    out_edges: Vec<IncidenceRecord>,
    in_edges: Vec<IncidenceRecord>,
    property: V,
}

impl<V> View for VertexEntry<V> {
    type V = VertexView<V>;

    closed spec fn view(&self) -> VertexView<V> {
        VertexView { out_edges: self.out_edges@, in_edges: self.in_edges@, property: self.property }
    }
}

/// The list of `v` selected by `inbound`.
pub open spec fn list_of<V, E>(g: GraphView<V, E>, inbound: bool, v: int) -> Seq<IncidenceRecord> {
    if inbound {
        g.vertices[v].in_edges
    } else {
        g.vertices[v].out_edges
    }
}

/// `h` differs from `g` at most in the list of `v` selected by `inbound`.
pub open spec fn same_but_list<V, E>(g: GraphView<V, E>, h: GraphView<V, E>, inbound: bool, v: int) -> bool {
    &&& h.edges == g.edges
    &&& h.vertices.len() == g.vertices.len()
    &&& forall|w: int| 0 <= w < g.vertices.len() && w != v ==> #[trigger] h.vertices[w] == g.vertices[w]
    &&& h.vertices[v].property == g.vertices[v].property
    &&& list_of(h, !inbound, v) == list_of(g, !inbound, v)
}

/// From `g` to `h` only the list of `a` selected by `inb_a` changed, and in it one
/// record naming `from` became one naming `to` (`to` out of range: the record left).
pub open spec fn counts_shift<V, E>(
    g: GraphView<V, E>,
    h: GraphView<V, E>,
    inb_a: bool,
    a: int,
    from: int,
    to: int,
) -> bool {
    &&& h.edges == g.edges
    &&& h.vertices.len() == g.vertices.len()
    &&& forall|w: int| 0 <= w < g.vertices.len() ==> #[trigger] h.vertices[w].property == g.vertices[w].property
    &&& forall|inb: bool, w: int, x: int|
        0 <= w < g.vertices.len() && 0 <= x ==> #[trigger] count_index(list_of(h, inb, w), x) + one_if(
            inb == inb_a && w == a && x == from,
        ) == count_index(list_of(g, inb, w), x) + one_if(inb == inb_a && w == a && x == to)
    &&& forall|inb: bool, w: int, k: int|
        0 <= w < g.vertices.len() && 0 <= k < list_of(h, inb, w).len() ==> ({
            let r = #[trigger] list_of(h, inb, w)[k];
            list_of(g, inb, w).contains(r) || (inb == inb_a && w == a && r.edge_index == to
                && list_of(g, inb, w).contains(
                IncidenceRecord { neighbor: r.neighbor, edge_index: from as usize },
            ))
        })
}

/// How many records naming edge `e` the list of `v` selected by `inbound` must hold.
pub open spec fn expected_at<V, E>(g: GraphView<V, E>, t: Topology, inbound: bool, v: int, e: int) -> nat {
    if inbound {
        g.expected_in(t, v, e)
    } else {
        g.expected_out(t, v, e)
    }
}

/// A record held in the list of `v` selected by `inbound` is consistent with `g`.
pub open spec fn record_ok_at<V, E>(g: GraphView<V, E>, t: Topology, inbound: bool, v: int, r: IncidenceRecord) -> bool {
    if inbound {
        g.in_record_ok(t, v, r)
    } else {
        g.out_record_ok(t, v, r)
    }
}

/// `wf`, restated over both lists of each vertex at once.
pub proof fn lemma_wf_by_lists<V, E>(g: GraphView<V, E>, t: Topology)
    requires
        g.endpoints_live(),
        forall|inb: bool, w: int, e: int|
            0 <= w < g.vertices.len() && 0 <= e < g.edges.len() ==> #[trigger] count_index(
                list_of(g, inb, w),
                e,
            ) == expected_at(g, t, inb, w, e),
        forall|inb: bool, w: int, k: int|
            0 <= w < g.vertices.len() && 0 <= k < list_of(g, inb, w).len() ==> record_ok_at(
                g,
                t,
                inb,
                w,
                #[trigger] list_of(g, inb, w)[k],
            ),
    ensures
        g.wf(t),
{
    assert forall|v: int, e: int|
        0 <= v < g.vertices.len() && 0 <= e < g.edges.len() implies #[trigger] count_index(
        g.vertices[v].out_edges,
        e,
    ) == g.expected_out(t, v, e) by {
        assert(count_index(list_of(g, false, v), e) == expected_at(g, t, false, v, e));
    }
    assert forall|v: int, e: int|
        0 <= v < g.vertices.len() && 0 <= e < g.edges.len() implies #[trigger] count_index(
        g.vertices[v].in_edges,
        e,
    ) == g.expected_in(t, v, e) by {
        assert(count_index(list_of(g, true, v), e) == expected_at(g, t, true, v, e));
    }
    assert forall|v: int, k: int|
        0 <= v < g.vertices.len() && 0 <= k < g.vertices[v].out_edges.len() implies g.out_record_ok(
        t,
        v,
        #[trigger] g.vertices[v].out_edges[k],
    ) by {
        assert(record_ok_at(g, t, false, v, list_of(g, false, v)[k]));
    }
    assert forall|v: int, k: int|
        0 <= v < g.vertices.len() && 0 <= k < g.vertices[v].in_edges.len() implies g.in_record_ok(
        t,
        v,
        #[trigger] g.vertices[v].in_edges[k],
    ) by {
        assert(record_ok_at(g, t, true, v, list_of(g, true, v)[k]));
    }
}

/// The facts of `wf` about both lists of each vertex at once.
pub proof fn lemma_lists_of_wf<V, E>(g: GraphView<V, E>, t: Topology)
    requires
        g.wf(t),
    ensures
        forall|inb: bool, w: int, e: int|
            0 <= w < g.vertices.len() && 0 <= e < g.edges.len() ==> #[trigger] count_index(
                list_of(g, inb, w),
                e,
            ) == expected_at(g, t, inb, w, e),
        forall|inb: bool, w: int, k: int|
            0 <= w < g.vertices.len() && 0 <= k < list_of(g, inb, w).len() ==> record_ok_at(
                g,
                t,
                inb,
                w,
                #[trigger] list_of(g, inb, w)[k],
            ),
{
    assert forall|inb: bool, w: int, e: int|
        0 <= w < g.vertices.len() && 0 <= e < g.edges.len() implies #[trigger] count_index(
        list_of(g, inb, w),
        e,
    ) == expected_at(g, t, inb, w, e) by {
        if inb {
            assert(count_index(g.vertices[w].in_edges, e) == g.expected_in(t, w, e));
        } else {
            assert(count_index(g.vertices[w].out_edges, e) == g.expected_out(t, w, e));
        }
    }
    assert forall|inb: bool, w: int, k: int|
        0 <= w < g.vertices.len() && 0 <= k < list_of(g, inb, w).len() implies record_ok_at(
        g,
        t,
        inb,
        w,
        #[trigger] list_of(g, inb, w)[k],
    ) by {
        if inb {
            assert(g.in_record_ok(t, w, g.vertices[w].in_edges[k]));
        } else {
            assert(g.out_record_ok(t, w, g.vertices[w].out_edges[k]));
        }
    }
}

/// How many records naming an edge `s -> tt` the list of `w` selected by
/// `inbound` must hold under topology `t`.
pub open spec fn expected_for(t: Topology, inbound: bool, w: int, s: int, tt: int) -> nat {
    if inbound {
        one_if(t == Topology::Bidirectional && tt == w)
    } else {
        one_if(s == w) + one_if(t == Topology::Undirected && tt == w)
    }
}

/// `expected_at` is `expected_for` applied to the edge's endpoints.
pub proof fn lemma_expected_at<V, E>(g: GraphView<V, E>, t: Topology, inbound: bool, w: int, e: int)
    ensures
        expected_at(g, t, inbound, w, e) == expected_for(
            t,
            inbound,
            w,
            g.edges[e].source as int,
            g.edges[e].target as int,
        ),
{
}

/// Vertex `w` of `s` is vertex `w` of `r` with `from` renamed to `to`.
pub open spec fn vertex_renamed<V, E>(s: GraphView<V, E>, r: GraphView<V, E>, w: int, from: usize, to: usize) -> bool {
    s.vertices[w] == rename_vertex(r.vertices[w], from, to)
}

/// Edge `j` of `s` is edge `j` of `r` with `from` renamed to `to`.
pub open spec fn edge_renamed<V, E>(s: GraphView<V, E>, r: GraphView<V, E>, j: int, from: usize, to: usize) -> bool {
    s.edges[j] == rename_edge(r.edges[j], from, to)
}

/// Each vertex and each edge of `s` is that of `r`, renamed or not.
pub open spec fn partly_renamed<V, E>(s: GraphView<V, E>, r: GraphView<V, E>, from: usize, to: usize) -> bool {
    &&& s.vertices.len() == r.vertices.len()
    &&& s.edges.len() == r.edges.len()
    &&& forall|w: int|
        0 <= w < s.vertices.len() ==> #[trigger] s.vertices[w] == r.vertices[w] || vertex_renamed(s, r, w, from, to)
    &&& forall|j: int| 0 <= j < s.edges.len() ==> #[trigger] s.edges[j] == r.edges[j] || edge_renamed(s, r, j, from, to)
}

/// From `a` to `b` renaming went on: what was renamed stays renamed.
pub open spec fn progressed<V, E>(a: GraphView<V, E>, b: GraphView<V, E>, r: GraphView<V, E>, from: usize, to: usize) -> bool {
    &&& partly_renamed(b, r, from, to)
    &&& forall|w: int|
        0 <= w < r.vertices.len() && vertex_renamed(a, r, w, from, to) ==> #[trigger] vertex_renamed(b, r, w, from, to)
    &&& forall|j: int|
        0 <= j < r.edges.len() && edge_renamed(a, r, j, from, to) ==> #[trigger] edge_renamed(b, r, j, from, to)
}

/// Visiting the moved vertex's lists, its edges and its neighbours (and, for
/// directed graphs, the sources of the edges into it) renames everything that
/// names it: whatever was not visited names it nowhere.
pub proof fn lemma_moved_vertex_covered<V, E>(
    c: GraphView<V, E>,
    r: GraphView<V, E>,
    s1: GraphView<V, E>,
    s2: GraphView<V, E>,
    s3: GraphView<V, E>,
    h: GraphView<V, E>,
    t: Topology,
    from: usize,
    to: usize,
)
    requires
        c.wf(t),
        from == c.vertices.len() - 1,
        to < from,
        r.vertices == swap_removed(c.vertices, to as int),
        r.edges == c.edges,
        forall|e: int| 0 <= e < c.edges.len() ==> !touches(#[trigger] c.edges[e], to as int),
        t == Topology::Directed ==> forall|k: int|
            #![trigger r.edges[k]]
            0 <= k < r.edges.len() && r.edges[k].target == from ==> edge_renamed(s1, r, k, from, to)
                && vertex_renamed(s1, r, rename(r.edges[k].source, from, to) as int, from, to),
        progressed(s1, s2, r, from, to),
        progressed(s2, s3, r, from, to),
        progressed(s3, h, r, from, to),
        vertex_renamed(s2, r, to as int, from, to),
        forall|m: int|
            0 <= m < r.vertices[to as int].out_edges.len() ==> edge_renamed(
                s3,
                r,
                (#[trigger] r.vertices[to as int].out_edges[m]).edge_index as int,
                from,
                to,
            ) && vertex_renamed(s3, r, rename(r.vertices[to as int].out_edges[m].neighbor, from, to) as int, from, to),
        forall|m: int|
            0 <= m < r.vertices[to as int].in_edges.len() ==> edge_renamed(
                h,
                r,
                (#[trigger] r.vertices[to as int].in_edges[m]).edge_index as int,
                from,
                to,
            ) && vertex_renamed(h, r, rename(r.vertices[to as int].in_edges[m].neighbor, from, to) as int, from, to),
    ensures
        h == (GraphView {
            vertices: r.vertices.map_values(|x: VertexView<V>| rename_vertex(x, from, to)),
            edges: r.edges.map_values(|e: EdgeView<usize, E>| rename_edge(e, from, to)),
        }),
{
    let lo = c.vertices[from as int].out_edges;
    let li = c.vertices[from as int].in_edges;
    assert(r.vertices[to as int] == c.vertices[from as int]);
    assert forall|w: int| 0 <= w < r.vertices.len() && w != to implies #[trigger] r.vertices[w] == c.vertices[w] by {}
    // Every edge that names the moved vertex was renamed.
    assert forall|j: int| 0 <= j < r.edges.len() implies #[trigger] edge_renamed(h, r, j, from, to) by {
        let e = c.edges[j];
        if e.source == from || (e.target == from && t != Topology::Directed) {
            if e.source == from || t == Topology::Undirected {
                assert(count_index(lo, j) == c.expected_out(t, from as int, j));
                let m = lemma_count_positive(lo, j);
                assert(edge_renamed(s3, r, lo[m].edge_index as int, from, to));
            } else {
                assert(count_index(li, j) == c.expected_in(t, from as int, j));
                let m = lemma_count_positive(li, j);
                assert(edge_renamed(h, r, li[m].edge_index as int, from, to));
            }
        } else if e.target == from {
            assert(edge_renamed(s1, r, j, from, to));
        } else {
            assert(rename_edge(r.edges[j], from, to) == r.edges[j]);
        }
    }
    // Every vertex holding a record that names the moved vertex was renamed.
    assert forall|w: int| 0 <= w < r.vertices.len() implies #[trigger] vertex_renamed(h, r, w, from, to) by {
        let wo: int = if w == to {
            from as int
        } else {
            w
        };
        assert(r.vertices[w] == c.vertices[wo]);
        let x = r.vertices[w];
        if exists|p: int| 0 <= p < x.out_edges.len() && (#[trigger] x.out_edges[p]).neighbor == from {
            let p = choose|p: int| 0 <= p < x.out_edges.len() && (#[trigger] x.out_edges[p]).neighbor == from;
            let rec = x.out_edges[p];
            let j = rec.edge_index as int;
            let e = c.edges[j];
            assert(c.out_record_ok(t, wo, c.vertices[wo].out_edges[p]));
            if e.source == from || t == Topology::Undirected {
                assert(count_index(lo, j) == c.expected_out(t, from as int, j));
                let m = lemma_count_positive(lo, j);
                assert(c.out_record_ok(t, from as int, lo[m]));
                assert(vertex_renamed(s3, r, rename(lo[m].neighbor, from, to) as int, from, to));
            } else if t == Topology::Bidirectional {
                assert(count_index(li, j) == c.expected_in(t, from as int, j));
                let m = lemma_count_positive(li, j);
                assert(c.in_record_ok(t, from as int, li[m]));
                assert(vertex_renamed(h, r, rename(li[m].neighbor, from, to) as int, from, to));
            } else {
                assert(vertex_renamed(s1, r, rename(r.edges[j].source, from, to) as int, from, to));
            }
        } else if exists|p: int| 0 <= p < x.in_edges.len() && (#[trigger] x.in_edges[p]).neighbor == from {
            let p = choose|p: int| 0 <= p < x.in_edges.len() && (#[trigger] x.in_edges[p]).neighbor == from;
            let j = x.in_edges[p].edge_index as int;
            assert(c.in_record_ok(t, wo, c.vertices[wo].in_edges[p]));
            assert(count_index(lo, j) == c.expected_out(t, from as int, j));
            let m = lemma_count_positive(lo, j);
            assert(c.out_record_ok(t, from as int, lo[m]));
            assert(vertex_renamed(s3, r, rename(lo[m].neighbor, from, to) as int, from, to));
        } else {
            lemma_rename_vertex_unchanged(x, from, to);
        }
    }
    assert forall|w: int| 0 <= w < h.vertices.len() implies h.vertices[w] == r.vertices.map_values(
        |x: VertexView<V>| rename_vertex(x, from, to),
    )[w] by {
        assert(vertex_renamed(h, r, w, from, to));
    }
    assert forall|j: int| 0 <= j < h.edges.len() implies h.edges[j] == r.edges.map_values(
        |e: EdgeView<usize, E>| rename_edge(e, from, to),
    )[j] by {
        assert(edge_renamed(h, r, j, from, to));
    }
    assert(h.vertices =~= r.vertices.map_values(|x: VertexView<V>| rename_vertex(x, from, to)));
    assert(h.edges =~= r.edges.map_values(|e: EdgeView<usize, E>| rename_edge(e, from, to)));
}

/// The engine: vertices and edges in dense stores, edge direction chosen by `D`.
pub struct AdjacencyCore<D, V, E> {
    vertices: DenseStore<VertexEntry<V>>,
    edges: DenseStore<Edge<D, usize, E>>,
}

impl<D, V, E> View for AdjacencyCore<D, V, E> {
    type V = GraphView<V, E>;

    closed spec fn view(&self) -> GraphView<V, E> {
        GraphView {
            vertices: self.vertices@.map_values(|x: VertexEntry<V>| x@),
            edges: self.edges@.map_values(|e: Edge<D, usize, E>| e@),
        }
    }
}

impl<D: DirectedSelectorTrait, V, E> AdjacencyCore<D, V, E> {
    pub fn new() -> (r: Self)
        ensures
            r@.vertices.len() == 0,
            r@.edges.len() == 0,
            r@.wf(D::topology()),
    {
        AdjacencyCore { vertices: DenseStore::new(), edges: DenseStore::new() }
    }

    pub fn num_vertices(&self) -> (r: usize)
        ensures
            r == self@.vertices.len(),
    {
        self.vertices.len()
    }

    pub fn num_edges(&self) -> (r: usize)
        ensures
            r == self@.edges.len(),
    {
        self.edges.len()
    }

    pub fn add_vertex_with_property(&mut self, property: V) -> (r: usize)
        requires
            old(self)@.wf(D::topology()),
        ensures
            r == old(self)@.vertices.len(),
            final(self)@.vertices == old(self)@.vertices.push(
                VertexView { out_edges: Seq::empty(), in_edges: Seq::empty(), property },
            ),
            final(self)@.edges == old(self)@.edges,
            final(self)@.wf(D::topology()),
    {
        let ghost g = self@;
        self.vertices.insert(VertexEntry { out_edges: Vec::new(), in_edges: Vec::new(), property });
        assert(self@.vertices =~= g.vertices.push(
            VertexView { out_edges: Seq::empty(), in_edges: Seq::empty(), property },
        ));
        assert(self@.edges =~= g.edges);
        let ghost h = self@;
        let ghost t = D::topology();
        assert forall|v: int, e: int|
            0 <= v < h.vertices.len() && 0 <= e < h.edges.len() implies #[trigger] count_index(
            h.vertices[v].out_edges,
            e,
        ) == h.expected_out(t, v, e) by {
            if v < g.vertices.len() {
                assert(h.vertices[v] == g.vertices[v]);
            } else {
                assert(h.vertices[v].out_edges.len() == 0);
            }
        }
        assert forall|v: int, e: int|
            0 <= v < h.vertices.len() && 0 <= e < h.edges.len() implies #[trigger] count_index(
            h.vertices[v].in_edges,
            e,
        ) == h.expected_in(t, v, e) by {
            if v < g.vertices.len() {
                assert(h.vertices[v] == g.vertices[v]);
            } else {
                assert(h.vertices[v].in_edges.len() == 0);
            }
        }
        assert forall|v: int, k: int|
            0 <= v < h.vertices.len() && 0 <= k < h.vertices[v].out_edges.len() implies h.out_record_ok(
            t,
            v,
            #[trigger] h.vertices[v].out_edges[k],
        ) by {
            assert(h.vertices[v] == g.vertices[v]);
        }
        assert forall|v: int, k: int|
            0 <= v < h.vertices.len() && 0 <= k < h.vertices[v].in_edges.len() implies h.in_record_ok(
            t,
            v,
            #[trigger] h.vertices[v].in_edges[k],
        ) by {
            assert(h.vertices[v] == g.vertices[v]);
        }
        self.vertices.len() - 1
    }

    /// Inserts edge `source -> target`, first padding the vertex store with
    /// default vertices until both endpoints exist.
    pub fn add_edge_with_property(&mut self, source: usize, target: usize, property: E) -> (r: usize)
        where
            V: Default,
        requires
            old(self)@.wf(D::topology()),
        ensures
            r == old(self)@.edges.len(),
            final(self)@.edges == old(self)@.edges.push(EdgeView { source, target, property }),
            forall|w: int|
                0 <= w < final(self)@.vertices.len() ==> #[trigger] final(self)@.vertices[w].out_edges == (if w
                    < old(self)@.vertices.len() {
                    old(self)@.vertices[w].out_edges
                } else {
                    Seq::empty()
                }) + added_out(D::topology(), w, source, target, r),
            forall|w: int|
                0 <= w < final(self)@.vertices.len() ==> #[trigger] final(self)@.vertices[w].in_edges == (if w
                    < old(self)@.vertices.len() {
                    old(self)@.vertices[w].in_edges
                } else {
                    Seq::empty()
                }) + added_in(D::topology(), w, source, target, r),
            final(self)@.vertices.len() == vstd::math::max(
                old(self)@.vertices.len() as int,
                vstd::math::max(source as int, target as int) + 1,
            ),
            forall|w: int|
                0 <= w < old(self)@.vertices.len() ==> #[trigger] final(self)@.vertices[w].property
                    == old(self)@.vertices[w].property,
            forall|w: int|
                old(self)@.vertices.len() <= w < final(self)@.vertices.len() ==> call_ensures(
                    V::default,
                    (),
                    #[trigger] final(self)@.vertices[w].property,
                ),
            final(self)@.wf(D::topology()),
    {
        let ghost g0 = self@;
        let max_vertex_index = if source < target {
            target
        } else {
            source
        };
        while self.vertices.len() <= max_vertex_index
            invariant
                self@.wf(D::topology()),
                self@.edges == g0.edges,
                g0.vertices.len() <= self@.vertices.len(),
                self@.vertices.len() <= vstd::math::max(
                    g0.vertices.len() as int,
                    max_vertex_index + 1,
                ),
                forall|w: int| 0 <= w < g0.vertices.len() ==> #[trigger] self@.vertices[w] == g0.vertices[w],
                forall|w: int|
                    g0.vertices.len() <= w < self@.vertices.len() ==> (#[trigger] self@.vertices[w]).out_edges.len()
                        == 0 && self@.vertices[w].in_edges.len() == 0,
                forall|w: int|
                    g0.vertices.len() <= w < self@.vertices.len() ==> call_ensures(
                        V::default,
                        (),
                        #[trigger] self@.vertices[w].property,
                    ),
            decreases max_vertex_index + 1 - self@.vertices.len(),
        {
            let ghost before = self@;
            let p = V::default();
            self.add_vertex_with_property(p);
            assert forall|w: int| 0 <= w < before.vertices.len() implies #[trigger] self@.vertices[w]
                == before.vertices[w] by {}
        }
        let ghost g1 = self@;
        let ghost t = D::topology();
        let edge_index = self.edges.len();
        let ghost ne = EdgeView { source, target, property };
        self.edges.insert(Edge::with_property(source, target, property));
        assert(self@.edges =~= g1.edges.push(ne));
        assert(self@.vertices =~= g1.vertices);
        self.push_record(false, source, IncidenceRecord { neighbor: target, edge_index });
        let ghost g2 = self@;
        let kind = D::kind();
        if kind == Topology::Undirected {
            self.push_record(false, target, IncidenceRecord { neighbor: source, edge_index });
        } else if kind == Topology::Bidirectional {
            self.push_record(true, target, IncidenceRecord { neighbor: source, edge_index });
        }
        let ghost h = self@;
        assert(h.edges == g1.edges.push(ne));
        assert forall|w: int| 0 <= w < h.vertices.len() implies #[trigger] h.vertices[w].out_edges == (if w
            < g0.vertices.len() {
            g0.vertices[w].out_edges
        } else {
            Seq::empty()
        }) + added_out(t, w, source, target, edge_index) && h.vertices[w].in_edges == (if w < g0.vertices.len() {
            g0.vertices[w].in_edges
        } else {
            Seq::empty()
        }) + added_in(t, w, source, target, edge_index) by {
            let base_out = g1.vertices[w].out_edges;
            let base_in = g1.vertices[w].in_edges;
            if w < g0.vertices.len() {
                assert(g1.vertices[w] == g0.vertices[w]);
            } else {
                assert(base_out =~= Seq::<IncidenceRecord>::empty());
                assert(base_in =~= Seq::<IncidenceRecord>::empty());
            }
            assert(g2.vertices[w].in_edges == base_in);
            if w == source {
                assert(g2.vertices[w].out_edges == base_out.push(IncidenceRecord { neighbor: target, edge_index }));
            } else {
                assert(g2.vertices[w].out_edges == base_out);
            }
            assert(h.vertices[w].out_edges =~= base_out + added_out(t, w, source, target, edge_index));
            assert(h.vertices[w].in_edges =~= base_in + added_in(t, w, source, target, edge_index));
        }
        // Every earlier record names an edge below `edge_index`.
        assert forall|v: int| 0 <= v < g1.vertices.len() implies count_index(
            #[trigger] g1.vertices[v].out_edges,
            edge_index as int,
        ) == 0 && count_index(g1.vertices[v].in_edges, edge_index as int) == 0 by {
            let l = g1.vertices[v].out_edges;
            let m = g1.vertices[v].in_edges;
            assert forall|k: int| 0 <= k < l.len() implies #[trigger] l[k].edge_index != edge_index by {
                assert(g1.out_record_ok(t, v, l[k]));
            }
            assert forall|k: int| 0 <= k < m.len() implies #[trigger] m[k].edge_index != edge_index by {
                assert(g1.in_record_ok(t, v, m[k]));
            }
            lemma_count_absent(l, edge_index as int);
            lemma_count_absent(m, edge_index as int);
        }
        let ghost r1 = IncidenceRecord { neighbor: target, edge_index };
        let ghost r2 = IncidenceRecord { neighbor: source, edge_index };
        assert forall|v: int, x: int| 0 <= v < h.vertices.len() implies #[trigger] count_index(
            h.vertices[v].out_edges,
            x,
        ) == count_index(g1.vertices[v].out_edges, x) + one_if(x == edge_index && v == source)
            + one_if(x == edge_index && v == target && t == Topology::Undirected) by {
            lemma_count_push(g1.vertices[v].out_edges, r1, x);
            lemma_count_push(g2.vertices[v].out_edges, r2, x);
        }
        assert forall|v: int, x: int| 0 <= v < h.vertices.len() implies #[trigger] count_index(
            h.vertices[v].in_edges,
            x,
        ) == count_index(g1.vertices[v].in_edges, x) + one_if(
            x == edge_index && v == target && t == Topology::Bidirectional,
        ) by {
            lemma_count_push(g2.vertices[v].in_edges, r2, x);
        }
        assert forall|v: int, e: int|
            0 <= v < h.vertices.len() && 0 <= e < h.edges.len() implies #[trigger] count_index(
            h.vertices[v].out_edges,
            e,
        ) == h.expected_out(t, v, e) by {
            if e < edge_index {
                assert(h.edges[e] == g1.edges[e]);
            }
        }
        assert forall|v: int, e: int|
            0 <= v < h.vertices.len() && 0 <= e < h.edges.len() implies #[trigger] count_index(
            h.vertices[v].in_edges,
            e,
        ) == h.expected_in(t, v, e) by {
            assert(count_index(g1.vertices[v].out_edges, edge_index as int) == 0);
            if e < edge_index {
                assert(h.edges[e] == g1.edges[e]);
            }
        }
        assert forall|v: int, k: int|
            0 <= v < h.vertices.len() && 0 <= k < h.vertices[v].out_edges.len() implies h.out_record_ok(
            t,
            v,
            #[trigger] h.vertices[v].out_edges[k],
        ) by {
            let r = h.vertices[v].out_edges[k];
            if k < g1.vertices[v].out_edges.len() {
                assert(r == g1.vertices[v].out_edges[k]);
                assert(g1.out_record_ok(t, v, r));
            } else if k < g2.vertices[v].out_edges.len() {
                assert(r == g2.vertices[v].out_edges[k]);
            }
        }
        assert forall|v: int, k: int|
            0 <= v < h.vertices.len() && 0 <= k < h.vertices[v].in_edges.len() implies h.in_record_ok(
            t,
            v,
            #[trigger] h.vertices[v].in_edges[k],
        ) by {
            let r = h.vertices[v].in_edges[k];
            if k < g1.vertices[v].in_edges.len() {
                assert(r == g1.vertices[v].in_edges[k]);
                assert(g1.in_record_ok(t, v, r));
            }
        }
        assert forall|e: int| 0 <= e < h.edges.len() implies (#[trigger] h.edges[e]).source
            < h.vertices.len() && h.edges[e].target < h.vertices.len() by {
            if e < edge_index {
                assert(h.edges[e] == g1.edges[e]);
            }
        }
        edge_index
    }

    /// Deletes the records of an edge `s -> tt` stored at index `e`.
    fn detach_edge(&mut self, s: usize, tt: usize, e: usize)
        requires
            s < old(self)@.vertices.len(),
            tt < old(self)@.vertices.len(),
            forall|inb: bool, w: int|
                0 <= w < old(self)@.vertices.len() ==> #[trigger] count_index(
                    list_of(old(self)@, inb, w),
                    e as int,
                ) == expected_for(D::topology(), inb, w, s as int, tt as int),
        ensures
            final(self)@.edges == old(self)@.edges,
            final(self)@.vertices.len() == old(self)@.vertices.len(),
            forall|w: int|
                0 <= w < old(self)@.vertices.len() ==> #[trigger] final(self)@.vertices[w].property
                    == old(self)@.vertices[w].property,
            forall|inb: bool, w: int, x: int|
                0 <= w < old(self)@.vertices.len() && 0 <= x ==> #[trigger] count_index(
                    list_of(final(self)@, inb, w),
                    x,
                ) == if x == e {
                    0
                } else {
                    count_index(list_of(old(self)@, inb, w), x)
                },
            forall|inb: bool, w: int, k: int|
                0 <= w < old(self)@.vertices.len() && 0 <= k < list_of(final(self)@, inb, w).len()
                    ==> list_of(old(self)@, inb, w).contains(#[trigger] list_of(final(self)@, inb, w)[k]),
    {
        let ghost g1 = self@;
        let ghost t = D::topology();
        let kind = D::kind();
        assert(count_index(list_of(g1, false, s as int), e as int) > 0);
        self.detach(false, s, e);
        let ghost g2 = self@;
        if kind == Topology::Undirected {
            assert(count_index(list_of(g2, false, tt as int), e as int) + one_if(tt == s) == count_index(
                list_of(g1, false, tt as int),
                e as int,
            ));
            self.detach(false, tt, e);
        } else if kind == Topology::Bidirectional {
            assert(count_index(list_of(g2, true, tt as int), e as int) == count_index(
                list_of(g1, true, tt as int),
                e as int,
            ));
            self.detach(true, tt, e);
        }
        let ghost g3 = self@;
        assert forall|inb: bool, w: int, x: int| 0 <= w < g1.vertices.len() && 0 <= x implies #[trigger] count_index(
            list_of(g3, inb, w),
            x,
        ) == if x == e {
            0
        } else {
            count_index(list_of(g1, inb, w), x)
        } by {
            assert(count_index(list_of(g2, inb, w), x) + one_if(inb == false && w == s && x == e)
                == count_index(list_of(g1, inb, w), x));
            assert(count_index(list_of(g1, inb, w), e as int) == expected_for(t, inb, w, s as int, tt as int));
            if t == Topology::Undirected {
                assert(count_index(list_of(g3, inb, w), x) + one_if(inb == false && w == tt && x == e)
                    == count_index(list_of(g2, inb, w), x));
            } else if t == Topology::Bidirectional {
                assert(count_index(list_of(g3, inb, w), x) + one_if(inb == true && w == tt && x == e)
                    == count_index(list_of(g2, inb, w), x));
            }
        }
        assert forall|inb: bool, w: int, k: int|
            0 <= w < g1.vertices.len() && 0 <= k < list_of(g3, inb, w).len() implies list_of(
            g1,
            inb,
            w,
        ).contains(#[trigger] list_of(g3, inb, w)[k]) by {
            let r = list_of(g3, inb, w)[k];
            assert(list_of(g2, inb, w).contains(r));
            if t != Topology::Directed {
                let k2 = choose|k2: int| 0 <= k2 < list_of(g2, inb, w).len() && list_of(g2, inb, w)[k2] == r;
                assert(list_of(g1, inb, w).contains(list_of(g2, inb, w)[k2]));
            }
        }
    }

    /// Points the records of an edge `s -> tt`, found by its old index `from`, at index `to`.
    fn relink_edge(&mut self, s: usize, tt: usize, from: usize, to: usize)
        requires
            s < old(self)@.vertices.len(),
            tt < old(self)@.vertices.len(),
            from != to,
            forall|inb: bool, w: int|
                0 <= w < old(self)@.vertices.len() ==> #[trigger] count_index(
                    list_of(old(self)@, inb, w),
                    from as int,
                ) == expected_for(D::topology(), inb, w, s as int, tt as int),
        ensures
            final(self)@.edges == old(self)@.edges,
            final(self)@.vertices.len() == old(self)@.vertices.len(),
            forall|w: int|
                0 <= w < old(self)@.vertices.len() ==> #[trigger] final(self)@.vertices[w].property
                    == old(self)@.vertices[w].property,
            forall|inb: bool, w: int, x: int|
                0 <= w < old(self)@.vertices.len() && 0 <= x ==> #[trigger] count_index(
                    list_of(final(self)@, inb, w),
                    x,
                ) == if x == from {
                    0
                } else if x == to {
                    count_index(list_of(old(self)@, inb, w), x) + expected_for(
                        D::topology(),
                        inb,
                        w,
                        s as int,
                        tt as int,
                    )
                } else {
                    count_index(list_of(old(self)@, inb, w), x)
                },
            forall|inb: bool, w: int, k: int|
                0 <= w < old(self)@.vertices.len() && 0 <= k < list_of(final(self)@, inb, w).len() ==> ({
                    let r = #[trigger] list_of(final(self)@, inb, w)[k];
                    list_of(old(self)@, inb, w).contains(r) || (r.edge_index == to && list_of(
                        old(self)@,
                        inb,
                        w,
                    ).contains(IncidenceRecord { neighbor: r.neighbor, edge_index: from }))
                }),
    {
        let ghost g1 = self@;
        let ghost t = D::topology();
        let kind = D::kind();
        assert(count_index(list_of(g1, false, s as int), from as int) > 0);
        self.relink(false, s, from, to);
        let ghost g2 = self@;
        if kind == Topology::Undirected {
            assert(count_index(list_of(g2, false, tt as int), from as int) + one_if(tt == s)
                == count_index(list_of(g1, false, tt as int), from as int));
            self.relink(false, tt, from, to);
        } else if kind == Topology::Bidirectional {
            assert(count_index(list_of(g2, true, tt as int), from as int) == count_index(
                list_of(g1, true, tt as int),
                from as int,
            ));
            self.relink(true, tt, from, to);
        }
        let ghost g3 = self@;
        assert forall|inb: bool, w: int, x: int| 0 <= w < g1.vertices.len() && 0 <= x implies #[trigger] count_index(
            list_of(g3, inb, w),
            x,
        ) == if x == from {
            0
        } else if x == to {
            count_index(list_of(g1, inb, w), x) + expected_for(t, inb, w, s as int, tt as int)
        } else {
            count_index(list_of(g1, inb, w), x)
        } by {
            assert(count_index(list_of(g2, inb, w), x) + one_if(inb == false && w == s && x == from)
                == count_index(list_of(g1, inb, w), x) + one_if(inb == false && w == s && x == to));
            assert(count_index(list_of(g1, inb, w), from as int) == expected_for(
                t,
                inb,
                w,
                s as int,
                tt as int,
            ));
            if t == Topology::Undirected {
                assert(count_index(list_of(g3, inb, w), x) + one_if(
                    inb == false && w == tt && x == from,
                ) == count_index(list_of(g2, inb, w), x) + one_if(inb == false && w == tt && x == to));
            } else if t == Topology::Bidirectional {
                assert(count_index(list_of(g3, inb, w), x) + one_if(inb == true && w == tt && x == from)
                    == count_index(list_of(g2, inb, w), x) + one_if(inb == true && w == tt && x == to));
            }
        }
        assert forall|inb: bool, w: int, k: int|
            0 <= w < g1.vertices.len() && 0 <= k < list_of(g3, inb, w).len() implies ({
            let r = #[trigger] list_of(g3, inb, w)[k];
            list_of(g1, inb, w).contains(r) || (r.edge_index == to && list_of(g1, inb, w).contains(
                IncidenceRecord { neighbor: r.neighbor, edge_index: from },
            ))
        }) by {
            let r = list_of(g3, inb, w)[k];
            let rl = IncidenceRecord { neighbor: r.neighbor, edge_index: from };
            if t != Topology::Directed {
                if list_of(g2, inb, w).contains(r) {
                    let k2 = choose|k2: int| 0 <= k2 < list_of(g2, inb, w).len() && list_of(g2, inb, w)[k2] == r;
                    assert(list_of(g1, inb, w).contains(list_of(g2, inb, w)[k2]) || (list_of(g2, inb, w)[k2].edge_index == to
                        && list_of(g1, inb, w).contains(rl)));
                } else {
                    assert(list_of(g2, inb, w).contains(rl));
                    let k2 = choose|k2: int| 0 <= k2 < list_of(g2, inb, w).len() && list_of(g2, inb, w)[k2] == rl;
                    assert(list_of(g1, inb, w).contains(list_of(g2, inb, w)[k2]) || (list_of(g2, inb, w)[k2].edge_index == to
                        && list_of(g1, inb, w).contains(IncidenceRecord { neighbor: r.neighbor, edge_index: from })));
                }
            }
        }
    }

    /// Removes the edge at `i` by moving the last edge into its slot, then
    /// deletes the removed edge's records and points the moved edge's records,
    /// found by its old index, at `i`. An index past the end changes nothing.
    pub fn remove_edge_at(&mut self, i: usize)
        requires
            old(self)@.wf(D::topology()),
        ensures
            i < old(self)@.edges.len() ==> final(self)@.edges == swap_removed(old(self)@.edges, i as int),
            i >= old(self)@.edges.len() ==> final(self)@ == old(self)@,
            final(self)@.vertices.len() == old(self)@.vertices.len(),
            final(self)@.vertex_properties() == old(self)@.vertex_properties(),
            final(self)@.wf(D::topology()),
    {
        if i >= self.edges.len() {
            return;
        }
        let ghost g0 = self@;
        let ghost t = D::topology();
        let ghost n = g0.edges.len() as int;
        proof {
            lemma_lists_of_wf(g0, t);
        }
        let (removed, moved) = self.edges.remove(i);
        let ghost g1 = self@;
        assert(g1.edges =~= swap_removed(g0.edges, i as int));
        assert(g1.vertices =~= g0.vertices);
        let source = *removed.source();
        let target = *removed.target();
        assert(removed@ == g0.edges[i as int]);
        assert forall|inb: bool, w: int| 0 <= w < g1.vertices.len() implies #[trigger] count_index(
            list_of(g1, inb, w),
            i as int,
        ) == expected_for(t, inb, w, source as int, target as int) by {
            lemma_expected_at(g0, t, inb, w, i as int);
        }
        self.detach_edge(source, target, i);
        let ghost g3 = self@;
        if let Some(last) = moved {
            let moved_source = *self.edges.at(i).source();
            let moved_target = *self.edges.at(i).target();
            assert(g3.edges[i as int] == g0.edges[n - 1]);
            assert forall|inb: bool, w: int| 0 <= w < g3.vertices.len() implies #[trigger] count_index(
                list_of(g3, inb, w),
                last as int,
            ) == expected_for(t, inb, w, moved_source as int, moved_target as int) by {
                lemma_expected_at(g0, t, inb, w, last as int);
            }
            self.relink_edge(moved_source, moved_target, last, i);
        }
        let ghost h = self@;
        assert forall|inb: bool, w: int, e: int|
            0 <= w < h.vertices.len() && 0 <= e < h.edges.len() implies #[trigger] count_index(
            list_of(h, inb, w),
            e,
        ) == expected_at(h, t, inb, w, e) by {
            lemma_expected_at(g0, t, inb, w, e);
            lemma_expected_at(h, t, inb, w, e);
            if e != i {
                assert(h.edges[e] == g0.edges[e]);
            } else {
                assert(h.edges[e] == g0.edges[n - 1]);
                assert(count_index(list_of(g3, inb, w), e) == 0);
            }
        }
        assert forall|inb: bool, w: int, k: int|
            0 <= w < h.vertices.len() && 0 <= k < list_of(h, inb, w).len() implies record_ok_at(
            h,
            t,
            inb,
            w,
            #[trigger] list_of(h, inb, w)[k],
        ) by {
            let r = list_of(h, inb, w)[k];
            let rl = IncidenceRecord { neighbor: r.neighbor, edge_index: (n - 1) as usize };
            assert(count_index(list_of(h, inb, w), n - 1) == 0);
            lemma_count_zero(list_of(h, inb, w), n - 1);
            assert(count_index(list_of(g3, inb, w), i as int) == 0);
            lemma_count_zero(list_of(g3, inb, w), i as int);
            if list_of(g3, inb, w).contains(r) {
                let k3 = choose|k3: int| 0 <= k3 < list_of(g3, inb, w).len() && list_of(g3, inb, w)[k3] == r;
                assert(list_of(g0, inb, w).contains(list_of(g3, inb, w)[k3]));
                let k0 = choose|k0: int| 0 <= k0 < list_of(g0, inb, w).len() && list_of(g0, inb, w)[k0] == r;
                assert(record_ok_at(g0, t, inb, w, list_of(g0, inb, w)[k0]));
                assert(h.edges[r.edge_index as int] == g0.edges[r.edge_index as int]);
            } else {
                assert(list_of(g3, inb, w).contains(rl));
                let k3 = choose|k3: int| 0 <= k3 < list_of(g3, inb, w).len() && list_of(g3, inb, w)[k3] == rl;
                assert(list_of(g0, inb, w).contains(list_of(g3, inb, w)[k3]));
                let k0 = choose|k0: int| 0 <= k0 < list_of(g0, inb, w).len() && list_of(g0, inb, w)[k0] == rl;
                assert(record_ok_at(g0, t, inb, w, list_of(g0, inb, w)[k0]));
                assert(h.edges[i as int] == g0.edges[n - 1]);
            }
        }
        assert forall|e: int| 0 <= e < h.edges.len() implies (#[trigger] h.edges[e]).source
            < h.vertices.len() && h.edges[e].target < h.vertices.len() by {
            if e == i {
                assert(h.edges[e] == g0.edges[n - 1]);
            } else {
                assert(h.edges[e] == g0.edges[e]);
            }
        }
        proof {
            lemma_wf_by_lists(h, t);
        }
        assert(h.vertex_properties() =~= g0.vertex_properties());
    }

    /// Removes every edge whose index `marks` selects, highest index first, so
    /// that no index still to be visited is moved.
    pub fn remove_marked(&mut self, marks: &Vec<bool>)
        requires
            old(self)@.wf(D::topology()),
            marks@.len() == old(self)@.edges.len(),
        ensures
            final(self)@.wf(D::topology()),
            final(self)@.vertices.len() == old(self)@.vertices.len(),
            final(self)@.vertex_properties() == old(self)@.vertex_properties(),
            final(self)@.edges == removed_from(old(self)@.edges, |j: int| marks@[j], 0),
            final(self)@.edges.to_multiset() == retained(old(self)@.edges, |j: int| marks@[j]).to_multiset(),
            (forall|j: int| 0 <= j < marks@.len() ==> !#[trigger] marks@[j]) ==> final(self)@ == old(self)@,
    {
        let ghost g0 = self@;
        let ghost drop = |j: int| marks@[j];
        let mut i: usize = self.edges.len();
        while i > 0
            invariant
                self@.wf(D::topology()),
                self@.vertices.len() == g0.vertices.len(),
                self@.vertex_properties() == g0.vertex_properties(),
                marks@.len() == g0.edges.len(),
                drop == (|j: int| marks@[j]),
                i <= g0.edges.len(),
                self@.edges == removed_from(g0.edges, drop, i as int),
                (forall|j: int| i <= j < marks@.len() ==> !#[trigger] marks@[j]) ==> self@ == g0,
            decreases i,
        {
            i -= 1;
            proof {
                lemma_removed_from(g0.edges, drop, i as int + 1);
            }
            assert(drop(i as int) == marks@[i as int]);
            if marks[i] {
                self.remove_edge_at(i);
            }
        }
        proof {
            lemma_removed_from(g0.edges, drop, 0);
            broadcast use vstd::seq_lib::group_to_multiset_ensures;

            assert(g0.edges.subrange(0, 0) =~= Seq::<EdgeView<usize, E>>::empty());
            assert(Seq::<EdgeView<usize, E>>::empty().to_multiset() =~= Multiset::empty());
        }
        assert(self@.edges.to_multiset() =~= retained(g0.edges, drop).to_multiset());
    }

    /// Renames neighbour `from` to `to` in both lists of vertex `w`.
    fn rename_at_vertex(&mut self, w: usize, from: usize, to: usize, Ghost(r): Ghost<GraphView<V, E>>)
        requires
            w < old(self)@.vertices.len(),
            from != to,
            partly_renamed(old(self)@, r, from, to),
        ensures
            progressed(old(self)@, final(self)@, r, from, to),
            vertex_renamed(final(self)@, r, w as int, from, to),
            final(self)@.edges == old(self)@.edges,
            forall|x: int| 0 <= x < old(self)@.vertices.len() && x != w ==> #[trigger] final(self)@.vertices[x] == old(self)@.vertices[x],
    {
        let ghost g = self@;
        rename_neighbors(&mut self.vertices.at_mut(w).out_edges, from, to);
        rename_neighbors(&mut self.vertices.at_mut(w).in_edges, from, to);
        proof {
            lemma_rename_vertex_twice(r.vertices[w as int], from, to);
        }
        assert(self@.vertices[w as int] == rename_vertex(g.vertices[w as int], from, to));
        assert forall|x: int| 0 <= x < self@.vertices.len() && x != w implies #[trigger] self@.vertices[x]
            == g.vertices[x] by {}
        assert(self@.edges =~= g.edges);
    }

    /// Renames endpoint `from` to `to` in edge `j`.
    fn rename_at_edge(&mut self, j: usize, from: usize, to: usize, Ghost(r): Ghost<GraphView<V, E>>)
        requires
            j < old(self)@.edges.len(),
            from != to,
            partly_renamed(old(self)@, r, from, to),
        ensures
            progressed(old(self)@, final(self)@, r, from, to),
            edge_renamed(final(self)@, r, j as int, from, to),
            final(self)@.vertices == old(self)@.vertices,
            forall|x: int| 0 <= x < old(self)@.edges.len() && x != j ==> #[trigger] final(self)@.edges[x] == old(self)@.edges[x],
    {
        let ghost g = self@;
        let s = *self.edges.at(j).source();
        let t = *self.edges.at(j).target();
        let ns = if s == from { to } else { s };
        let nt = if t == from { to } else { t };
        self.edges.at_mut(j).set_ends(ns, nt);
        assert(self@.edges[j as int] == rename_edge(g.edges[j as int], from, to));
        assert forall|x: int| 0 <= x < self@.edges.len() && x != j implies #[trigger] self@.edges[x] == g.edges[x] by {}
        assert(self@.vertices =~= g.vertices);
    }

    /// Renames every reference to the moved vertex, which was the last vertex
    /// `from` of `c` and now sits in slot `to`. Only its own lists, its edges and
    /// the lists of its neighbours are visited; a directed graph keeps no
    /// in-list, so its in-edges are found by a scan of the edge store.
    fn rename_moved_vertex(&mut self, from: usize, to: usize, Ghost(c): Ghost<GraphView<V, E>>)
        requires
            c.wf(D::topology()),
            c.vertices.len() <= usize::MAX,
            from == c.vertices.len() - 1,
            to < from,
            old(self)@.vertices == swap_removed(c.vertices, to as int),
            old(self)@.edges == c.edges,
            forall|e: int| 0 <= e < c.edges.len() ==> !touches(#[trigger] c.edges[e], to as int),
        ensures
            final(self)@ == (GraphView {
                vertices: old(self)@.vertices.map_values(|x: VertexView<V>| rename_vertex(x, from, to)),
                edges: old(self)@.edges.map_values(|e: EdgeView<usize, E>| rename_edge(e, from, to)),
            }),
    {
        let ghost r = self@;
        let ghost t = D::topology();
        let ghost n = c.vertices.len();
        assert(r.vertices[to as int] == c.vertices[from as int]);
        assert forall|w: int| 0 <= w < r.vertices.len() && w != to implies #[trigger] r.vertices[w] == c.vertices[w] by {}
        // Edges into the moved vertex of a directed graph: found by scanning.
        if D::kind() == Topology::Directed {
            let mut j: usize = 0;
            while j < self.edges.len()
                invariant
                    t == D::topology(),
                    r.edges == c.edges,
                    r.vertices.len() + 1 == n,
                    n == c.vertices.len(),
                    c.endpoints_live(),
                    from == n - 1,
                    to < from,
                    j <= self@.edges.len(),
                    partly_renamed(self@, r, from, to),
                    forall|k: int| j <= k < self@.edges.len() ==> #[trigger] self@.edges[k] == r.edges[k],
                    forall|k: int|
                        #![trigger r.edges[k]]
                        0 <= k < j && r.edges[k].target == from ==> edge_renamed(self@, r, k, from, to)
                            && vertex_renamed(self@, r, rename(r.edges[k].source, from, to) as int, from, to),
                decreases self@.edges.len() - j,
            {
                let ghost before = self@;
                let tj = *self.edges.at(j).target();
                let sj = *self.edges.at(j).source();
                if tj == from {
                    assert(r.edges[j as int] == c.edges[j as int]);
                    assert(c.edges[j as int].source < n);
                    self.rename_at_edge(j, from, to, Ghost(r));
                    let w = if sj == from { to } else { sj };
                    assert(before.edges[j as int] == r.edges[j as int]);
                    self.rename_at_vertex(w, from, to, Ghost(r));
                }
                assert forall|k: int|
                    #![trigger r.edges[k]]
                    0 <= k < j + 1 && r.edges[k].target == from implies edge_renamed(self@, r, k, from, to)
                    && vertex_renamed(self@, r, rename(r.edges[k].source, from, to) as int, from, to) by {
                    if k < j {
                        assert(vertex_renamed(before, r, rename(r.edges[k].source, from, to) as int, from, to));
                        assert(edge_renamed(before, r, k, from, to));
                    }
                }
                j += 1;
            }
        }
        let ghost s1 = self@;
        self.rename_at_vertex(to, from, to, Ghost(r));
        let ghost s2 = self@;
        // Edges out of the moved vertex (for undirected graphs, all its edges).
        let ghost lo = r.vertices[to as int].out_edges;
        let mut k: usize = 0;
        while k < self.vertices.at(to).out_edges.len()
            invariant
                r.vertices[to as int] == c.vertices[from as int],
                lo == r.vertices[to as int].out_edges,
                c.wf(t),
                t == D::topology(),
                r.edges == c.edges,
                r.vertices.len() + 1 == n,
                n == c.vertices.len(),
                from == n - 1,
                to < from,
                forall|e: int| 0 <= e < c.edges.len() ==> !touches(#[trigger] c.edges[e], to as int),
                partly_renamed(self@, r, from, to),
                progressed(s2, self@, r, from, to),
                vertex_renamed(self@, r, to as int, from, to),
                k <= lo.len(),
                forall|m: int|
                    0 <= m < k ==> edge_renamed(self@, r, (#[trigger] lo[m]).edge_index as int, from, to)
                        && vertex_renamed(self@, r, rename(lo[m].neighbor, from, to) as int, from, to),
            decreases lo.len() - k,
        {
            let ghost before = self@;
            let rec = self.vertices.at(to).out_edges[k];
            assert(rec == rename_record(lo[k as int], from, to));
            assert(c.out_record_ok(t, from as int, c.vertices[from as int].out_edges[k as int]));
            assert(c.edges[lo[k as int].edge_index as int].source < n);
            self.rename_at_edge(rec.edge_index, from, to, Ghost(r));
            self.rename_at_vertex(rec.neighbor, from, to, Ghost(r));
            assert forall|m: int| 0 <= m < k + 1 implies edge_renamed(self@, r, (#[trigger] lo[m]).edge_index as int, from, to)
                && vertex_renamed(self@, r, rename(lo[m].neighbor, from, to) as int, from, to) by {
                if m < k {
                    assert(edge_renamed(before, r, lo[m].edge_index as int, from, to));
                    assert(vertex_renamed(before, r, rename(lo[m].neighbor, from, to) as int, from, to));
                }
            }
            k += 1;
        }
        let ghost s3 = self@;
        // Edges into the moved vertex of a bidirectional graph, from its in-list.
        let ghost li = r.vertices[to as int].in_edges;
        let mut k: usize = 0;
        while k < self.vertices.at(to).in_edges.len()
            invariant
                r.vertices[to as int] == c.vertices[from as int],
                li == r.vertices[to as int].in_edges,
                c.wf(t),
                t == D::topology(),
                r.edges == c.edges,
                r.vertices.len() + 1 == n,
                n == c.vertices.len(),
                from == n - 1,
                to < from,
                forall|e: int| 0 <= e < c.edges.len() ==> !touches(#[trigger] c.edges[e], to as int),
                partly_renamed(self@, r, from, to),
                progressed(s3, self@, r, from, to),
                vertex_renamed(self@, r, to as int, from, to),
                k <= li.len(),
                forall|m: int|
                    0 <= m < k ==> edge_renamed(self@, r, (#[trigger] li[m]).edge_index as int, from, to)
                        && vertex_renamed(self@, r, rename(li[m].neighbor, from, to) as int, from, to),
            decreases li.len() - k,
        {
            let ghost before = self@;
            let rec = self.vertices.at(to).in_edges[k];
            assert(rec == rename_record(li[k as int], from, to));
            assert(c.in_record_ok(t, from as int, c.vertices[from as int].in_edges[k as int]));
            self.rename_at_edge(rec.edge_index, from, to, Ghost(r));
            self.rename_at_vertex(rec.neighbor, from, to, Ghost(r));
            assert forall|m: int| 0 <= m < k + 1 implies edge_renamed(self@, r, (#[trigger] li[m]).edge_index as int, from, to)
                && vertex_renamed(self@, r, rename(li[m].neighbor, from, to) as int, from, to) by {
                if m < k {
                    assert(edge_renamed(before, r, li[m].edge_index as int, from, to));
                    assert(vertex_renamed(before, r, rename(li[m].neighbor, from, to) as int, from, to));
                }
            }
            k += 1;
        }
        let ghost h = self@;
        proof {
            lemma_moved_vertex_covered(c, r, s1, s2, s3, h, t, from, to);
        }
    }

    /// Removes vertex `v` and every edge touching it; the last vertex then moves
    /// into slot `v` and every reference to it is renamed.
    pub fn remove_vertex(&mut self, v: usize)
        requires
            old(self)@.wf(D::topology()),
            v < old(self)@.vertices.len(),
        ensures
            final(self)@.wf(D::topology()),
            final(self)@.vertices.len() == old(self)@.vertices.len() - 1,
            final(self)@.vertex_properties() == swap_removed(old(self)@.vertex_properties(), v as int),
            final(self)@.edges == rename_edges(
                untouched(old(self)@.edges, v as int),
                (old(self)@.vertices.len() - 1) as usize,
                v,
            ),
    {
        let ghost g0 = self@;
        let ghost t = D::topology();
        let mut marks: Vec<bool> = Vec::new();
        let mut j: usize = 0;
        while j < self.edges.len()
            invariant
                self@ == g0,
                j <= self@.edges.len(),
                marks@.len() == j,
                forall|k: int| 0 <= k < j ==> #[trigger] marks@[k] == touches(g0.edges[k], v as int),
            decreases self@.edges.len() - j,
        {
            let s = *self.edges.at(j).source();
            let tt = *self.edges.at(j).target();
            marks.push(s == v || tt == v);
            j += 1;
        }
        self.remove_marked(&marks);
        let ghost c = self@;
        let ghost drop = |k: int| marks@[k];
        proof {
            lemma_retained_congruent(g0.edges, drop, |k: int| touches(g0.edges[k], v as int), 0);
            lemma_removed_congruent(g0.edges, drop, |k: int| touches(g0.edges[k], v as int), 0);
        }
        assert forall|e: int| 0 <= e < c.edges.len() implies !touches(#[trigger] c.edges[e], v as int) by {
            broadcast use vstd::seq_lib::group_to_multiset_ensures;

            let x = c.edges[e];
            let kept = retained(g0.edges, |j: int| marks@[j]);
            assert(c.edges.contains(x));
            assert(c.edges.to_multiset().count(x) > 0);
            assert(kept.to_multiset().count(x) > 0);
            assert(kept.contains(x));
            lemma_retained_contains(g0.edges, |j: int| marks@[j], 0, c.edges[e]);
        }
        let nv = self.vertices.len();
        assert(nv == c.vertices.len());
        let (_removed, moved) = self.vertices.remove(v);
        let ghost r = self@;
        assert(r.vertices =~= swap_removed(c.vertices, v as int));
        assert(r.edges =~= c.edges);
        match moved {
            Some(old_id) => {
                self.rename_moved_vertex(old_id, v, Ghost(c));
            },
            None => {
                proof {
                    lemma_rename_nothing(r, v);
                }
            },
        }
        proof {
            lemma_without_vertex_wf(c, t, v as int);
        }
        assert(self@.vertices =~= c.without_vertex(v as int).vertices);
        assert(self@.edges =~= c.without_vertex(v as int).edges);
        assert(self@.vertex_properties() =~= swap_removed(g0.vertex_properties(), v as int));
    }

    /// Indices of the out-edges of `v`, in incidence order.
    pub fn out_edges(&self, v: usize) -> (r: Vec<usize>)
        requires
            v < self@.vertices.len(),
        ensures
            r@ == self@.out_edge_ids(v as int),
    {
        let list = &self.vertices.at(v).out_edges;
        let mut r: Vec<usize> = Vec::new();
        let mut k: usize = 0;
        while k < list.len()
            invariant
                list@ == self@.vertices[v as int].out_edges,
                k <= list@.len(),
                r@ == edge_indices(list@.subrange(0, k as int)),
            decreases list@.len() - k,
        {
            r.push(list[k].edge_index);
            k += 1;
            assert(edge_indices(list@.subrange(0, k as int)) =~= edge_indices(list@.subrange(0, k - 1)).push(list@[k - 1].edge_index));
        }
        assert(list@.subrange(0, k as int) =~= list@);
        r
    }

    /// Neighbours reached from `v` by its out-edges, in incidence order.
    pub fn adjacent_vertices(&self, v: usize) -> (r: Vec<usize>)
        requires
            v < self@.vertices.len(),
        ensures
            r@ == self@.adjacent(v as int),
    {
        let list = &self.vertices.at(v).out_edges;
        let mut r: Vec<usize> = Vec::new();
        let mut k: usize = 0;
        while k < list.len()
            invariant
                list@ == self@.vertices[v as int].out_edges,
                k <= list@.len(),
                r@ == neighbors(list@.subrange(0, k as int)),
            decreases list@.len() - k,
        {
            r.push(list[k].neighbor);
            k += 1;
            assert(neighbors(list@.subrange(0, k as int)) =~= neighbors(list@.subrange(0, k - 1)).push(list@[k - 1].neighbor));
        }
        assert(list@.subrange(0, k as int) =~= list@);
        r
    }

    /// Indices of the stored in-records of `v`, in incidence order.
    fn in_record_ids(&self, v: usize) -> (r: Vec<usize>)
        requires
            v < self@.vertices.len(),
        ensures
            r@ == edge_indices(self@.vertices[v as int].in_edges),
    {
        let list = &self.vertices.at(v).in_edges;
        let mut r: Vec<usize> = Vec::new();
        let mut k: usize = 0;
        while k < list.len()
            invariant
                list@ == self@.vertices[v as int].in_edges,
                k <= list@.len(),
                r@ == edge_indices(list@.subrange(0, k as int)),
            decreases list@.len() - k,
        {
            r.push(list[k].edge_index);
            k += 1;
            assert(edge_indices(list@.subrange(0, k as int)) =~= edge_indices(list@.subrange(0, k - 1)).push(list@[k - 1].edge_index));
        }
        assert(list@.subrange(0, k as int) =~= list@);
        r
    }

    /// Neighbours named by the stored in-records of `v`, in incidence order.
    fn in_record_neighbors(&self, v: usize) -> (r: Vec<usize>)
        requires
            v < self@.vertices.len(),
        ensures
            r@ == neighbors(self@.vertices[v as int].in_edges),
    {
        let list = &self.vertices.at(v).in_edges;
        let mut r: Vec<usize> = Vec::new();
        let mut k: usize = 0;
        while k < list.len()
            invariant
                list@ == self@.vertices[v as int].in_edges,
                k <= list@.len(),
                r@ == neighbors(list@.subrange(0, k as int)),
            decreases list@.len() - k,
        {
            r.push(list[k].neighbor);
            k += 1;
            assert(neighbors(list@.subrange(0, k as int)) =~= neighbors(list@.subrange(0, k - 1)).push(list@[k - 1].neighbor));
        }
        assert(list@.subrange(0, k as int) =~= list@);
        r
    }

    /// Indices, in increasing order, of the edges whose target is `v`.
    fn scan_edges_into(&self, v: usize) -> (r: Vec<usize>)
        ensures
            r@ == edges_into(self@.edges, v as int, self@.edges.len() as int),
    {
        let mut r: Vec<usize> = Vec::new();
        let mut j: usize = 0;
        while j < self.edges.len()
            invariant
                j <= self@.edges.len(),
                r@ == edges_into(self@.edges, v as int, j as int),
            decreases self@.edges.len() - j,
        {
            if *self.edges.at(j).target() == v {
                r.push(j);
            }
            j += 1;
        }
        r
    }

    /// Indices of the in-edges of `v`, as `in_edge_ids` describes them.
    pub fn in_edges(&self, v: usize) -> (r: Vec<usize>)
        requires
            v < self@.vertices.len(),
        ensures
            r@ == self@.in_edge_ids(D::topology(), v as int),
    {
        match D::kind() {
            Topology::Undirected => self.out_edges(v),
            Topology::Directed => self.scan_edges_into(v),
            Topology::Bidirectional => self.in_record_ids(v),
        }
    }

    /// Neighbours that reach `v` by its in-edges, in the order of `in_edges`.
    pub fn inv_adjacent_vertices(&self, v: usize) -> (r: Vec<usize>)
        requires
            v < self@.vertices.len(),
            self@.wf(D::topology()),
        ensures
            r@ == self@.inv_adjacent(D::topology(), v as int),
    {
        match D::kind() {
            Topology::Undirected => self.adjacent_vertices(v),
            Topology::Bidirectional => self.in_record_neighbors(v),
            Topology::Directed => {
                let ids = self.scan_edges_into(v);
                let ghost g = self@;
                let mut r: Vec<usize> = Vec::new();
                let mut k: usize = 0;
                let n_edges = self.edges.len();
                assert(n_edges == g.edges.len());
                proof {
                    lemma_edges_into_bounded(g.edges, v as int, g.edges.len() as int);
                }
                while k < ids.len()
                    invariant
                        g == self@,
                        ids@ == edges_into(g.edges, v as int, g.edges.len() as int),
                        forall|m: int| 0 <= m < ids@.len() ==> #[trigger] ids@[m] < g.edges.len(),
                        k <= ids@.len(),
                        r@ == ids@.subrange(0, k as int).map_values(|i: usize| g.edges[i as int].source),
                    decreases ids@.len() - k,
                {
                    r.push(*self.edges.at(ids[k]).source());
                    k += 1;
                    assert(ids@.subrange(0, k as int).map_values(|i: usize| g.edges[i as int].source) =~= ids@.subrange(0, k - 1).map_values(|i: usize| g.edges[i as int].source).push(g.edges[ids@[k - 1] as int].source));
                }
                assert(ids@.subrange(0, k as int) =~= ids@);
                r
            },
        }
    }

    pub fn source(&self, e: usize) -> (r: usize)
        requires
            e < self@.edges.len(),
        ensures
            r == self@.edges[e as int].source,
    {
        *self.edges.at(e).source()
    }

    pub fn target(&self, e: usize) -> (r: usize)
        requires
            e < self@.edges.len(),
        ensures
            r == self@.edges[e as int].target,
    {
        *self.edges.at(e).target()
    }

    /// Indices of the edges from `s` to `t` recorded at `s`, in incidence order.
    pub fn get_edges(&self, s: usize, t: usize) -> (r: Vec<usize>)
        requires
            s < self@.vertices.len(),
        ensures
            r@ == self@.edges_between(s as int, t as int),
    {
        let list = &self.vertices.at(s).out_edges;
        let mut r: Vec<usize> = Vec::new();
        let mut k: usize = 0;
        while k < list.len()
            invariant
                list@ == self@.vertices[s as int].out_edges,
                k <= list@.len(),
                r@ == records_to(list@.subrange(0, k as int), t as int),
            decreases list@.len() - k,
        {
            if list[k].neighbor == t {
                r.push(list[k].edge_index);
            }
            k += 1;
            assert(list@.subrange(0, k as int).drop_last() =~= list@.subrange(0, k - 1));
        }
        assert(list@.subrange(0, k as int) =~= list@);
        r
    }

    pub fn vertex_property(&self, v: usize) -> (r: &V)
        requires
            v < self@.vertices.len(),
        ensures
            *r == self@.vertices[v as int].property,
    {
        &self.vertices.at(v).property
    }

    pub fn set_vertex_property(&mut self, v: usize, property: V)
        requires
            v < old(self)@.vertices.len(),
        ensures
            final(self)@ == (GraphView {
                vertices: old(self)@.vertices.update(
                    v as int,
                    VertexView { property, ..old(self)@.vertices[v as int] },
                ),
                ..old(self)@
            }),
    {
        self.vertices.at_mut(v).property = property;
        assert(self@.vertices =~= old(self)@.vertices.update(
            v as int,
            VertexView { property, ..old(self)@.vertices[v as int] },
        ));
        assert(self@.edges =~= old(self)@.edges);
    }

    pub fn edge_property(&self, e: usize) -> (r: &E)
        requires
            e < self@.edges.len(),
        ensures
            *r == self@.edges[e as int].property,
    {
        self.edges.at(e).get_property()
    }

    pub fn set_edge_property(&mut self, e: usize, property: E)
        requires
            e < old(self)@.edges.len(),
        ensures
            final(self)@ == (GraphView {
                edges: old(self)@.edges.update(e as int, EdgeView { property, ..old(self)@.edges[e as int] }),
                ..old(self)@
            }),
    {
        self.edges.at_mut(e).set_property(property);
        assert(self@.edges =~= old(self)@.edges.update(
            e as int,
            EdgeView { property, ..old(self)@.edges[e as int] },
        ));
        assert(self@.vertices =~= old(self)@.vertices);
    }

    /// Drops every vertex and every edge.
    pub fn clear(&mut self)
        ensures
            final(self)@.vertices.len() == 0,
            final(self)@.edges.len() == 0,
            final(self)@.wf(D::topology()),
    {
        self.vertices.clear();
        self.edges.clear();
    }

    /// The `(source, target)` pairs of all edges, in index order.
    pub fn edge_ends(&self) -> (r: Vec<(usize, usize)>)
        ensures
            r@.len() == self@.edges.len(),
            forall|j: int| 0 <= j < r@.len() ==> #[trigger] r@[j] == (self@.edges[j].source, self@.edges[j].target),
    {
        let mut r: Vec<(usize, usize)> = Vec::new();
        let mut j: usize = 0;
        while j < self.edges.len()
            invariant
                j <= self@.edges.len(),
                r@.len() == j,
                forall|k: int| 0 <= k < j ==> #[trigger] r@[k] == (self@.edges[k].source, self@.edges[k].target),
            decreases self@.edges.len() - j,
        {
            r.push((*self.edges.at(j).source(), *self.edges.at(j).target()));
            j += 1;
        }
        r
    }

    /// Whether the edge at `j` lies in scope `sc`.
    fn edge_in_scope(&self, sc: &Scope, j: usize) -> (r: bool)
        requires
            j < self@.edges.len(),
        ensures
            r == in_scope(D::topology(), *sc, self@.edges[j as int]),
    {
        let s = *self.edges.at(j).source();
        let t = *self.edges.at(j).target();
        let undirected = D::kind() == Topology::Undirected;
        match sc {
            Scope::All => true,
            Scope::Between(a, b) => (s == *a && t == *b) || (undirected && s == *b && t == *a),
            Scope::OutOf(v) => s == *v || (undirected && t == *v),
            Scope::InTo(v) => t == *v || (undirected && s == *v),
            Scope::Touching(v) => s == *v || t == *v,
        }
    }

    /// Removes every edge in scope `sc`.
    pub fn remove_in_scope(&mut self, sc: Scope)
        requires
            old(self)@.wf(D::topology()),
        ensures
            final(self)@.wf(D::topology()),
            final(self)@.vertices.len() == old(self)@.vertices.len(),
            final(self)@.vertex_properties() == old(self)@.vertex_properties(),
            final(self)@.edges == removed_from(
                old(self)@.edges,
                |j: int| in_scope(D::topology(), sc, old(self)@.edges[j]),
                0,
            ),
            final(self)@.edges.to_multiset() == retained(
                old(self)@.edges,
                |j: int| in_scope(D::topology(), sc, old(self)@.edges[j]),
            ).to_multiset(),
            (forall|j: int| 0 <= j < old(self)@.edges.len() ==> !in_scope(D::topology(), sc, #[trigger] old(self)@.edges[j]))
                ==> final(self)@ == old(self)@,
    {
        let ghost g0 = self@;
        let mut marks: Vec<bool> = Vec::new();
        let mut j: usize = 0;
        while j < self.edges.len()
            invariant
                self@ == g0,
                j <= self@.edges.len(),
                marks@.len() == j,
                forall|k: int| 0 <= k < j ==> #[trigger] marks@[k] == in_scope(D::topology(), sc, g0.edges[k]),
            decreases self@.edges.len() - j,
        {
            let m = self.edge_in_scope(&sc, j);
            marks.push(m);
            j += 1;
        }
        self.remove_marked(&marks);
        proof {
            lemma_retained_congruent(
                g0.edges,
                |k: int| marks@[k],
                |k: int| in_scope(D::topology(), sc, g0.edges[k]),
                0,
            );
            lemma_removed_congruent(
                g0.edges,
                |k: int| marks@[k],
                |k: int| in_scope(D::topology(), sc, g0.edges[k]),
                0,
            );
        }
    }

    /// Removes every edge in scope `sc` whose index `predicate` accepts; the
    /// predicate is asked about the edges in scope only.
    pub fn remove_in_scope_if<F: Fn(&usize) -> bool>(&mut self, sc: Scope, predicate: F)
        requires
            old(self)@.wf(D::topology()),
            forall|j: usize| call_requires(predicate, (&j,)),
        ensures
            final(self)@.wf(D::topology()),
            final(self)@.vertices.len() == old(self)@.vertices.len(),
            final(self)@.vertex_properties() == old(self)@.vertex_properties(),
            exists|chosen: Seq<bool>|
                #[trigger] chosen_by(chosen, D::topology(), sc, old(self)@.edges, predicate)
                    && final(self)@.edges == removed_from(old(self)@.edges, |j: int| chosen[j], 0)
                    && final(self)@.edges.to_multiset() == retained(old(self)@.edges, |j: int| chosen[j]).to_multiset()
                    && ((forall|j: int| 0 <= j < chosen.len() ==> !#[trigger] chosen[j]) ==> final(self)@ == old(self)@),
            (forall|j: int| 0 <= j < old(self)@.edges.len() ==> !in_scope(D::topology(), sc, #[trigger] old(self)@.edges[j]))
                ==> final(self)@ == old(self)@,
    {
        let ghost g0 = self@;
        let mut marks: Vec<bool> = Vec::new();
        let mut j: usize = 0;
        while j < self.edges.len()
            invariant
                self@ == g0,
                j <= self@.edges.len(),
                marks@.len() == j,
                forall|i: usize| call_requires(predicate, (&i,)),
                forall|k: int|
                    0 <= k < j ==> (#[trigger] marks@[k] ==> in_scope(D::topology(), sc, g0.edges[k])
                        && call_ensures(predicate, (&(k as usize),), true)) && (!marks@[k] && in_scope(
                        D::topology(),
                        sc,
                        g0.edges[k],
                    ) ==> call_ensures(predicate, (&(k as usize),), false)),
            decreases self@.edges.len() - j,
        {
            let m = if self.edge_in_scope(&sc, j) {
                predicate(&j)
            } else {
                false
            };
            marks.push(m);
            j += 1;
        }
        self.remove_marked(&marks);
        assert(chosen_by(marks@, D::topology(), sc, g0.edges, predicate));
    }

    /// Appends `r` to the list of `v` selected by `inbound`.
    fn push_record(&mut self, inbound: bool, v: usize, r: IncidenceRecord)
        requires
            v < old(self)@.vertices.len(),
        ensures
            same_but_list(old(self)@, final(self)@, inbound, v as int),
            list_of(final(self)@, inbound, v as int) == list_of(old(self)@, inbound, v as int).push(r),
    {
        let ghost g = self@;
        if inbound {
            self.vertices.at_mut(v).in_edges.push(r);
        } else {
            self.vertices.at_mut(v).out_edges.push(r);
        }
        assert(self@.edges =~= g.edges);
        assert forall|w: int| 0 <= w < g.vertices.len() && w != v implies #[trigger] self@.vertices[w]
            == g.vertices[w] by {}
    }

    /// Removes, by swapping in the last record, the first record naming edge `e`
    /// from the list of `v` selected by `inbound`.
    fn detach(&mut self, inbound: bool, v: usize, e: usize)
        requires
            v < old(self)@.vertices.len(),
            count_index(list_of(old(self)@, inbound, v as int), e as int) > 0,
        ensures
            counts_shift(old(self)@, final(self)@, inbound, v as int, e as int, -1),
    {
        let ghost g = self@;
        let ghost l = list_of(g, inbound, v as int);
        proof {
            lemma_count_positive(l, e as int);
        }
        let pos = if inbound {
            find_record(&self.vertices.at(v).in_edges, e)
        } else {
            find_record(&self.vertices.at(v).out_edges, e)
        };
        let k = pos.unwrap();
        if inbound {
            self.vertices.at_mut(v).in_edges.swap_remove(k);
        } else {
            self.vertices.at_mut(v).out_edges.swap_remove(k);
        }
        let ghost h = self@;
        let ghost nl = list_of(h, inbound, v as int);
        assert(nl =~= swap_removed(l, k as int));
        assert(h.edges =~= g.edges);
        assert forall|w: int| 0 <= w < g.vertices.len() && w != v implies #[trigger] h.vertices[w]
            == g.vertices[w] by {}
        assert forall|inb: bool, w: int, x: int| 0 <= w < g.vertices.len() && 0 <= x implies #[trigger] count_index(
            list_of(h, inb, w),
            x,
        ) + one_if(inb == inbound && w == v && x == e) == count_index(list_of(g, inb, w), x) + one_if(
            inb == inbound && w == v && x == -1,
        ) by {
            if inb == inbound && w == v {
                assert(l[k as int].edge_index == e);
                lemma_count_swap_removed(l, k as int, x);
                assert(list_of(h, inb, w) == nl);
                assert(count_index(nl, x) + one_if(x == e) == count_index(l, x));
            } else if w != v {
                assert(h.vertices[w] == g.vertices[w]);
            } else {
                assert(list_of(h, inb, w) =~= list_of(g, inb, w));
            }
        }
        assert forall|inb: bool, w: int, j: int|
            0 <= w < g.vertices.len() && 0 <= j < list_of(h, inb, w).len() implies list_of(
            g,
            inb,
            w,
        ).contains(#[trigger] list_of(h, inb, w)[j]) by {
            if inb == inbound && w == v {
                if j == k {
                    assert(nl[j] == l[l.len() - 1]);
                } else {
                    assert(nl[j] == l[j]);
                }
            } else if w != v {
                assert(h.vertices[w] == g.vertices[w]);
                assert(list_of(g, inb, w)[j] == list_of(h, inb, w)[j]);
            } else {
                assert(list_of(g, inb, w)[j] == list_of(h, inb, w)[j]);
            }
        }
    }

    /// Rewrites the first record naming edge `from` in the list of `v` selected
    /// by `inbound` so that it names edge `to`.
    fn relink(&mut self, inbound: bool, v: usize, from: usize, to: usize)
        requires
            v < old(self)@.vertices.len(),
            count_index(list_of(old(self)@, inbound, v as int), from as int) > 0,
        ensures
            counts_shift(old(self)@, final(self)@, inbound, v as int, from as int, to as int),
    {
        let ghost g = self@;
        let ghost l = list_of(g, inbound, v as int);
        proof {
            lemma_count_positive(l, from as int);
        }
        let pos = if inbound {
            find_record(&self.vertices.at(v).in_edges, from)
        } else {
            find_record(&self.vertices.at(v).out_edges, from)
        };
        let k = pos.unwrap();
        let ghost nr = IncidenceRecord { neighbor: l[k as int].neighbor, edge_index: to };
        if inbound {
            self.vertices.at_mut(v).in_edges[k].edge_index = to;
        } else {
            self.vertices.at_mut(v).out_edges[k].edge_index = to;
        }
        let ghost h = self@;
        let ghost nl = list_of(h, inbound, v as int);
        assert(nl =~= l.update(k as int, nr));
        assert(h.edges =~= g.edges);
        assert forall|w: int| 0 <= w < g.vertices.len() && w != v implies #[trigger] h.vertices[w]
            == g.vertices[w] by {}
        assert forall|inb: bool, w: int, x: int| 0 <= w < g.vertices.len() && 0 <= x implies #[trigger] count_index(
            list_of(h, inb, w),
            x,
        ) + one_if(inb == inbound && w == v && x == from) == count_index(list_of(g, inb, w), x)
            + one_if(inb == inbound && w == v && x == to) by {
            if inb == inbound && w == v {
                lemma_count_update(l, k as int, nr, x);
            } else if w != v {
                assert(h.vertices[w] == g.vertices[w]);
            }
        }
        assert forall|inb: bool, w: int, j: int|
            0 <= w < g.vertices.len() && 0 <= j < list_of(h, inb, w).len() implies ({
            let r = #[trigger] list_of(h, inb, w)[j];
            list_of(g, inb, w).contains(r) || (inb == inbound && w == v && r.edge_index == to
                && list_of(g, inb, w).contains(
                IncidenceRecord { neighbor: r.neighbor, edge_index: from as usize },
            ))
        }) by {
            if inb == inbound && w == v {
                if j == k {
                    assert(l[k as int] == IncidenceRecord { neighbor: nl[j].neighbor, edge_index: from });
                } else {
                    assert(nl[j] == l[j]);
                }
            } else if w != v {
                assert(h.vertices[w] == g.vertices[w]);
                assert(list_of(g, inb, w)[j] == list_of(h, inb, w)[j]);
            } else {
                assert(list_of(g, inb, w)[j] == list_of(h, inb, w)[j]);
            }
        }
    }
}


/// Renames neighbour `from` to `to` in every record of `list`.
fn rename_neighbors(list: &mut Vec<IncidenceRecord>, from: usize, to: usize)
    ensures
        final(list)@ == old(list)@.map_values(|r: IncidenceRecord| rename_record(r, from, to)),
{
    let ghost l0 = list@;
    let mut k: usize = 0;
    while k < list.len()
        invariant
            list@.len() == l0.len(),
            forall|j: int| 0 <= j < k ==> #[trigger] list@[j] == rename_record(l0[j], from, to),
            forall|j: int| k <= j < list@.len() ==> #[trigger] list@[j] == l0[j],
        decreases list@.len() - k,
    {
        if list[k].neighbor == from {
            list[k].neighbor = to;
        }
        k += 1;
    }
    assert(list@ =~= l0.map_values(|r: IncidenceRecord| rename_record(r, from, to)));
}

} // verus!
