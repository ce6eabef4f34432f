//! The directed adjacency list over dense vertex and edge stores, and its builder.
use vstd::prelude::*;
use std::marker::PhantomData;
use crate::edge::{Edge, EdgeView};
use crate::engine::AdjacencyCore;
use crate::incidence::swap_removed;
use crate::model::{
    added_in, added_out, built_in, built_out, chosen_by, connects, in_scope, removed_from, rename_edges, retained,
    touches, untouched, GraphView, Scope,
};
use crate::selectors::{Directed, Topology};

verus! {

/// A graph with directed edges. Vertex and edge ids are dense indices; a
/// removal moves the last vertex or edge into the freed slot.
pub struct DirectedVecAdjList<GraphProperty, VertexProperty, EdgeProperty> {
    graph_property: GraphProperty,
    core: AdjacencyCore<Directed, VertexProperty, EdgeProperty>,
}

impl<G, V, E> View for DirectedVecAdjList<G, V, E> {
    type V = GraphView<V, E>;

    closed spec fn view(&self) -> GraphView<V, E> {
        self.core@
    }
}

impl<G, V, E> DirectedVecAdjList<G, V, E> {
    /// The property attached to the graph as a whole.
    pub closed spec fn graph_property_view(&self) -> G {
        self.graph_property
    }

    /// The invariant of the adjacency structure.
    pub open spec fn wf(&self) -> bool {
        self@.wf(Topology::Directed)
    }
}

impl<G: Default, V: Default, E: Default + PartialEq> DirectedVecAdjList<G, V, E> {
    /// The vertex ids, `0..num_vertices()`.
    pub fn vertices(&self) -> (r: Vec<usize>)
        ensures
            r@.len() == self@.vertices.len(),
            forall|i: int| 0 <= i < r@.len() ==> #[trigger] r@[i] == i,
    {
        let n = self.core.num_vertices();
        let mut r: Vec<usize> = Vec::new();
        let mut i: usize = 0;
        while i < n
            invariant
                i <= n,
                n == self@.vertices.len(),
                r@.len() == i,
                forall|k: int| 0 <= k < i ==> #[trigger] r@[k] == k,
            decreases n - i,
        {
            r.push(i);
            i += 1;
        }
        r
    }

    /// The `(source, target)` pair of every edge, in edge-id order.
    pub fn edges(&self) -> (r: Vec<(usize, usize)>)
        ensures
            r@.len() == self@.edges.len(),
            forall|j: int|
                0 <= j < r@.len() ==> #[trigger] r@[j] == (self@.edges[j].source, self@.edges[j].target),
    {
        self.core.edge_ends()
    }

    pub fn adjacent_vertices(&self, vertex_index: usize) -> (r: Vec<usize>)
        requires
            vertex_index < self@.vertices.len(),
        ensures
            r@ == self@.adjacent(vertex_index as int),
    {
        self.core.adjacent_vertices(vertex_index)
    }

    pub fn inv_adjacent_vertices(&self, vertex_index: usize) -> (r: Vec<usize>)
        requires
            self.wf(),
            vertex_index < self@.vertices.len(),
        ensures
            r@ == self@.inv_adjacent(Topology::Directed, vertex_index as int),
    {
        self.core.inv_adjacent_vertices(vertex_index)
    }

    pub fn out_edges(&self, vertex_index: usize) -> (r: Vec<usize>)
        requires
            vertex_index < self@.vertices.len(),
        ensures
            r@ == self@.out_edge_ids(vertex_index as int),
    {
        self.core.out_edges(vertex_index)
    }

    pub fn in_edges(&self, vertex_index: usize) -> (r: Vec<usize>)
        requires
            vertex_index < self@.vertices.len(),
        ensures
            r@ == self@.in_edge_ids(Topology::Directed, vertex_index as int),
    {
        self.core.in_edges(vertex_index)
    }

    pub fn source(&self, edge_index: usize) -> (r: usize)
        requires
            edge_index < self@.edges.len(),
        ensures
            r == self@.edges[edge_index as int].source,
    {
        self.core.source(edge_index)
    }

    pub fn target(&self, edge_index: usize) -> (r: usize)
        requires
            edge_index < self@.edges.len(),
        ensures
            r == self@.edges[edge_index as int].target,
    {
        self.core.target(edge_index)
    }

    pub fn out_degree(&self, vertex_index: usize) -> (r: usize)
        requires
            vertex_index < self@.vertices.len(),
        ensures
            r == self@.out_edge_ids(vertex_index as int).len(),
    {
        self.core.out_edges(vertex_index).len()
    }

    pub fn in_degree(&self, vertex_index: usize) -> (r: usize)
        requires
            vertex_index < self@.vertices.len(),
        ensures
            r == self@.in_edge_ids(Topology::Directed, vertex_index as int).len(),
    {
        self.core.in_edges(vertex_index).len()
    }

    /// In-degree plus out-degree; a self-loop counts in both.
    pub fn degree(&self, vertex_index: usize) -> (r: usize)
        requires
            vertex_index < self@.vertices.len(),
            self@.degree(Topology::Directed, vertex_index as int) <= usize::MAX,
        ensures
            r == self@.degree(Topology::Directed, vertex_index as int),
    {
        self.in_degree(vertex_index) + self.out_degree(vertex_index)
    }

    pub fn num_vertices(&self) -> (r: usize)
        ensures
            r == self@.vertices.len(),
    {
        self.core.num_vertices()
    }

    pub fn num_edges(&self) -> (r: usize)
        ensures
            r == self@.edges.len(),
    {
        self.core.num_edges()
    }

    /// The first edge from `source` to `target` in the incidence order of `source`.
    pub fn get_edge(&self, source: usize, target: usize) -> (r: Option<usize>)
        requires
            source < self@.vertices.len(),
        ensures
            r == if self@.edges_between(source as int, target as int).len() > 0 {
                Some(self@.edges_between(source as int, target as int)[0])
            } else {
                None
            },
    {
        let all = self.core.get_edges(source, target);
        if all.len() > 0 {
            Some(all[0])
        } else {
            None
        }
    }

    /// Every edge from `source` to `target`, in the incidence order of `source`.
    pub fn get_edges(&self, source: usize, target: usize) -> (r: Vec<usize>)
        requires
            source < self@.vertices.len(),
        ensures
            r@ == self@.edges_between(source as int, target as int),
    {
        self.core.get_edges(source, target)
    }

    /// Adds an edge with the default property; see `add_edge_with_property`.
    pub fn add_edge(&mut self, source: usize, target: usize) -> (r: Option<usize>)
        requires
            old(self).wf(),
        ensures
            final(self).wf(),
            r == Some(old(self)@.edges.len() as usize),
            final(self)@.edges.len() == old(self)@.edges.len() + 1,
            final(self)@.edges.drop_last() == old(self)@.edges,
            final(self)@.edges.last().source == source,
            final(self)@.edges.last().target == target,
            call_ensures(E::default, (), final(self)@.edges.last().property),
            forall|w: int|
                0 <= w < final(self)@.vertices.len() ==> #[trigger] final(self)@.vertices[w].out_edges == (if w
                    < old(self)@.vertices.len() {
                    old(self)@.vertices[w].out_edges
                } else {
                    Seq::empty()
                }) + added_out(Topology::Directed, w, source, target, old(self)@.edges.len() as usize),
            forall|w: int|
                0 <= w < final(self)@.vertices.len() ==> #[trigger] final(self)@.vertices[w].in_edges == (if w
                    < old(self)@.vertices.len() {
                    old(self)@.vertices[w].in_edges
                } else {
                    Seq::empty()
                }) + added_in(Topology::Directed, w, source, target, old(self)@.edges.len() as usize),
            final(self)@.vertices.len() == vstd::math::max(
                old(self)@.vertices.len() as int,
                vstd::math::max(source as int, target as int) + 1,
            ),
            forall|w: int|
                0 <= w < old(self)@.vertices.len() ==> #[trigger] final(self)@.vertices[w].property
                    == old(self)@.vertices[w].property,
            forall|w: int|
                old(self)@.vertices.len() <= w < final(self)@.vertices.len() ==> call_ensures(
                    V::default,
                    (),
                    #[trigger] final(self)@.vertices[w].property,
                ),
            final(self).graph_property_view() == old(self).graph_property_view(),
    {
        let property = E::default();
        let r = self.add_edge_with_property(source, target, property);
        assert(self@.edges.drop_last() =~= old(self)@.edges);
        r
    }

    /// Adds an edge from `source` to `target`, first padding the vertex store
    /// with default vertices until both endpoints exist. Returns the new edge's id.
    pub fn add_edge_with_property(&mut self, source: usize, target: usize, edge_property: E) -> (r: Option<usize>)
        requires
            old(self).wf(),
        ensures
            final(self).wf(),
            r == Some(old(self)@.edges.len() as usize),
            final(self)@.edges == old(self)@.edges.push(
                EdgeView { source, target, property: edge_property },
            ),
            forall|w: int|
                0 <= w < final(self)@.vertices.len() ==> #[trigger] final(self)@.vertices[w].out_edges == (if w
                    < old(self)@.vertices.len() {
                    old(self)@.vertices[w].out_edges
                } else {
                    Seq::empty()
                }) + added_out(Topology::Directed, w, source, target, old(self)@.edges.len() as usize),
            forall|w: int|
                0 <= w < final(self)@.vertices.len() ==> #[trigger] final(self)@.vertices[w].in_edges == (if w
                    < old(self)@.vertices.len() {
                    old(self)@.vertices[w].in_edges
                } else {
                    Seq::empty()
                }) + added_in(Topology::Directed, w, source, target, old(self)@.edges.len() as usize),
            final(self)@.vertices.len() == vstd::math::max(
                old(self)@.vertices.len() as int,
                vstd::math::max(source as int, target as int) + 1,
            ),
            forall|w: int|
                0 <= w < old(self)@.vertices.len() ==> #[trigger] final(self)@.vertices[w].property
                    == old(self)@.vertices[w].property,
            forall|w: int|
                old(self)@.vertices.len() <= w < final(self)@.vertices.len() ==> call_ensures(
                    V::default,
                    (),
                    #[trigger] final(self)@.vertices[w].property,
                ),
            final(self).graph_property_view() == old(self).graph_property_view(),
    {
        Some(self.core.add_edge_with_property(source, target, edge_property))
    }

    /// Removes the edge with id `remove_index`: the last edge takes over that
    /// id. An id past the end changes nothing.
    pub fn remove_edge_at(&mut self, remove_index: usize)
        requires
            old(self).wf(),
        ensures
            final(self).wf(),
            remove_index < old(self)@.edges.len() ==> final(self)@.edges == swap_removed(
                old(self)@.edges,
                remove_index as int,
            ),
            remove_index >= old(self)@.edges.len() ==> final(self)@ == old(self)@,
            final(self)@.vertices.len() == old(self)@.vertices.len(),
            final(self)@.vertex_properties() == old(self)@.vertex_properties(),
            final(self).graph_property_view() == old(self).graph_property_view(),
    {
        self.core.remove_edge_at(remove_index)
    }

    /// Removes every edge from `source` to `target`; none there is no error.
    pub fn remove_edge(&mut self, source: usize, target: usize)
        requires
            old(self).wf(),
        ensures
            final(self).wf(),
            final(self)@.edges == removed_from(
                old(self)@.edges,
                |j: int| connects(Topology::Directed, old(self)@.edges[j], source as int, target as int),
                0,
            ),
            final(self)@.edges.to_multiset() == retained(
                old(self)@.edges,
                |j: int| connects(Topology::Directed, old(self)@.edges[j], source as int, target as int),
            ).to_multiset(),
            (forall|j: int|
                0 <= j < old(self)@.edges.len() ==> !connects(
                    Topology::Directed,
                    #[trigger] old(self)@.edges[j],
                    source as int,
                    target as int,
                )) ==> final(self)@ == old(self)@,
            final(self)@.vertices.len() == old(self)@.vertices.len(),
            final(self)@.vertex_properties() == old(self)@.vertex_properties(),
            final(self).graph_property_view() == old(self).graph_property_view(),
    {
        self.core.remove_in_scope(Scope::Between(source, target));
        proof {
            crate::model::lemma_retained_congruent(
                old(self)@.edges,
                |j: int| in_scope(Topology::Directed, Scope::Between(source, target), old(self)@.edges[j]),
                |j: int| connects(Topology::Directed, old(self)@.edges[j], source as int, target as int),
                0,
            );
            crate::model::lemma_removed_congruent(
                old(self)@.edges,
                |j: int| in_scope(Topology::Directed, Scope::Between(source, target), old(self)@.edges[j]),
                |j: int| connects(Topology::Directed, old(self)@.edges[j], source as int, target as int),
                0,
            );
        }
    }

    /// Removes the out-edges of `vertex_index` whose id `predicate` accepts.
    pub fn remove_out_edge_if(&mut self, vertex_index: usize, predicate: impl Fn(&usize) -> bool)
        requires
            old(self).wf(),
            forall|j: usize| call_requires(predicate, (&j,)),
        ensures
            final(self).wf(),
            exists|chosen: Seq<bool>|
                #[trigger] chosen_by(chosen, Topology::Directed, Scope::OutOf(vertex_index), old(self)@.edges, predicate)
                    && final(self)@.edges == removed_from(old(self)@.edges, |j: int| chosen[j], 0)
                    && final(self)@.edges.to_multiset() == retained(old(self)@.edges, |j: int| chosen[j]).to_multiset()
                    && ((forall|j: int| 0 <= j < chosen.len() ==> !#[trigger] chosen[j]) ==> final(self)@ == old(self)@),
            (forall|j: int|
                0 <= j < old(self)@.edges.len() ==> !in_scope(Topology::Directed, Scope::OutOf(vertex_index), #[trigger] old(self)@.edges[j]))
                ==> final(self)@ == old(self)@,
            final(self)@.vertices.len() == old(self)@.vertices.len(),
            final(self)@.vertex_properties() == old(self)@.vertex_properties(),
            final(self).graph_property_view() == old(self).graph_property_view(),
    {
        self.core.remove_in_scope_if(Scope::OutOf(vertex_index), predicate);
    }

    /// Removes the in-edges of `vertex_index` whose id `predicate` accepts.
    pub fn remove_in_edge_if(&mut self, vertex_index: usize, predicate: impl Fn(&usize) -> bool)
        requires
            old(self).wf(),
            forall|j: usize| call_requires(predicate, (&j,)),
        ensures
            final(self).wf(),
            exists|chosen: Seq<bool>|
                #[trigger] chosen_by(chosen, Topology::Directed, Scope::InTo(vertex_index), old(self)@.edges, predicate)
                    && final(self)@.edges == removed_from(old(self)@.edges, |j: int| chosen[j], 0)
                    && final(self)@.edges.to_multiset() == retained(old(self)@.edges, |j: int| chosen[j]).to_multiset()
                    && ((forall|j: int| 0 <= j < chosen.len() ==> !#[trigger] chosen[j]) ==> final(self)@ == old(self)@),
            (forall|j: int|
                0 <= j < old(self)@.edges.len() ==> !in_scope(Topology::Directed, Scope::InTo(vertex_index), #[trigger] old(self)@.edges[j]))
                ==> final(self)@ == old(self)@,
            final(self)@.vertices.len() == old(self)@.vertices.len(),
            final(self)@.vertex_properties() == old(self)@.vertex_properties(),
            final(self).graph_property_view() == old(self).graph_property_view(),
    {
        self.core.remove_in_scope_if(Scope::InTo(vertex_index), predicate);
    }

    /// Removes every edge whose id `predicate` accepts.
    pub fn remove_edge_if(&mut self, predicate: impl Fn(&usize) -> bool)
        requires
            old(self).wf(),
            forall|j: usize| call_requires(predicate, (&j,)),
        ensures
            final(self).wf(),
            exists|chosen: Seq<bool>|
                #[trigger] chosen_by(chosen, Topology::Directed, Scope::All, old(self)@.edges, predicate)
                    && final(self)@.edges == removed_from(old(self)@.edges, |j: int| chosen[j], 0)
                    && final(self)@.edges.to_multiset() == retained(old(self)@.edges, |j: int| chosen[j]).to_multiset()
                    && ((forall|j: int| 0 <= j < chosen.len() ==> !#[trigger] chosen[j]) ==> final(self)@ == old(self)@),
            (forall|j: int|
                0 <= j < old(self)@.edges.len() ==> !in_scope(Topology::Directed, Scope::All, #[trigger] old(self)@.edges[j]))
                ==> final(self)@ == old(self)@,
            final(self)@.vertices.len() == old(self)@.vertices.len(),
            final(self)@.vertex_properties() == old(self)@.vertex_properties(),
            final(self).graph_property_view() == old(self).graph_property_view(),
    {
        self.core.remove_in_scope_if(Scope::All, predicate);
    }

    /// Adds a vertex with the default property and returns its id.
    pub fn add_vertex(&mut self) -> (r: usize)
        requires
            old(self).wf(),
        ensures
            final(self).wf(),
            r == old(self)@.vertices.len(),
            final(self)@.vertices.len() == old(self)@.vertices.len() + 1,
            final(self)@.vertices.drop_last() == old(self)@.vertices,
            final(self)@.vertices.last().out_edges.len() == 0,
            final(self)@.vertices.last().in_edges.len() == 0,
            call_ensures(V::default, (), final(self)@.vertices.last().property),
            final(self)@.edges == old(self)@.edges,
            final(self).graph_property_view() == old(self).graph_property_view(),
    {
        let property = V::default();
        let r = self.add_vertex_with_property(property);
        assert(self@.vertices.drop_last() =~= old(self)@.vertices);
        r
    }

    /// Adds a vertex carrying `vertex_property` and returns its id.
    pub fn add_vertex_with_property(&mut self, vertex_property: V) -> (r: usize)
        requires
            old(self).wf(),
        ensures
            final(self).wf(),
            r == old(self)@.vertices.len(),
            final(self)@.vertices == old(self)@.vertices.push(
                crate::model::VertexView {
                    out_edges: Seq::empty(),
                    in_edges: Seq::empty(),
                    property: vertex_property,
                },
            ),
            final(self)@.edges == old(self)@.edges,
            final(self).graph_property_view() == old(self).graph_property_view(),
    {
        self.core.add_vertex_with_property(vertex_property)
    }

    /// Removes every edge touching `vertex_index`.
    pub fn clear_vertex(&mut self, vertex_index: usize)
        requires
            old(self).wf(),
        ensures
            final(self).wf(),
            final(self)@.edges == untouched(old(self)@.edges, vertex_index as int),
            final(self)@.edges.to_multiset() == retained(
                old(self)@.edges,
                |j: int| touches(old(self)@.edges[j], vertex_index as int),
            ).to_multiset(),
            (forall|j: int| 0 <= j < old(self)@.edges.len() ==> !touches(#[trigger] old(self)@.edges[j], vertex_index as int))
                ==> final(self)@ == old(self)@,
            final(self)@.vertices.len() == old(self)@.vertices.len(),
            final(self)@.vertex_properties() == old(self)@.vertex_properties(),
            final(self).graph_property_view() == old(self).graph_property_view(),
    {
        self.core.remove_in_scope(Scope::Touching(vertex_index));
        proof {
            crate::model::lemma_retained_congruent(
                old(self)@.edges,
                |j: int| in_scope(Topology::Directed, Scope::Touching(vertex_index), old(self)@.edges[j]),
                |j: int| touches(old(self)@.edges[j], vertex_index as int),
                0,
            );
            crate::model::lemma_removed_congruent(
                old(self)@.edges,
                |j: int| in_scope(Topology::Directed, Scope::Touching(vertex_index), old(self)@.edges[j]),
                |j: int| touches(old(self)@.edges[j], vertex_index as int),
                0,
            );
        }
    }

    /// Removes every out-edge of `vertex_index`.
    pub fn clear_out_edges(&mut self, vertex_index: usize)
        requires
            old(self).wf(),
        ensures
            final(self).wf(),
            final(self)@.edges == removed_from(
                old(self)@.edges,
                |j: int| in_scope(Topology::Directed, Scope::OutOf(vertex_index), old(self)@.edges[j]),
                0,
            ),
            final(self)@.edges.to_multiset() == retained(
                old(self)@.edges,
                |j: int| in_scope(Topology::Directed, Scope::OutOf(vertex_index), old(self)@.edges[j]),
            ).to_multiset(),
            (forall|j: int|
                0 <= j < old(self)@.edges.len() ==> !in_scope(
                    Topology::Directed,
                    Scope::OutOf(vertex_index),
                    #[trigger] old(self)@.edges[j],
                )) ==> final(self)@ == old(self)@,
            final(self)@.vertices.len() == old(self)@.vertices.len(),
            final(self)@.vertex_properties() == old(self)@.vertex_properties(),
            final(self).graph_property_view() == old(self).graph_property_view(),
    {
        self.core.remove_in_scope(Scope::OutOf(vertex_index));
    }

    /// Removes every in-edge of `vertex_index`.
    pub fn clear_in_edges(&mut self, vertex_index: usize)
        requires
            old(self).wf(),
        ensures
            final(self).wf(),
            final(self)@.edges == removed_from(
                old(self)@.edges,
                |j: int| in_scope(Topology::Directed, Scope::InTo(vertex_index), old(self)@.edges[j]),
                0,
            ),
            final(self)@.edges.to_multiset() == retained(
                old(self)@.edges,
                |j: int| in_scope(Topology::Directed, Scope::InTo(vertex_index), old(self)@.edges[j]),
            ).to_multiset(),
            (forall|j: int|
                0 <= j < old(self)@.edges.len() ==> !in_scope(
                    Topology::Directed,
                    Scope::InTo(vertex_index),
                    #[trigger] old(self)@.edges[j],
                )) ==> final(self)@ == old(self)@,
            final(self)@.vertices.len() == old(self)@.vertices.len(),
            final(self)@.vertex_properties() == old(self)@.vertex_properties(),
            final(self).graph_property_view() == old(self).graph_property_view(),
    {
        self.core.remove_in_scope(Scope::InTo(vertex_index));
    }

    /// Removes vertex `vertex_index` and every edge touching it. The last
    /// vertex takes over the freed id, and every reference to it is renamed.
    pub fn remove_vertex(&mut self, vertex_index: usize)
        requires
            old(self).wf(),
            vertex_index < old(self)@.vertices.len(),
        ensures
            final(self).wf(),
            final(self)@.vertices.len() == old(self)@.vertices.len() - 1,
            final(self)@.vertex_properties() == swap_removed(old(self)@.vertex_properties(), vertex_index as int),
            final(self)@.edges == rename_edges(
                untouched(old(self)@.edges, vertex_index as int),
                (old(self)@.vertices.len() - 1) as usize,
                vertex_index,
            ),
            final(self).graph_property_view() == old(self).graph_property_view(),
    {
        self.core.remove_vertex(vertex_index)
    }

    pub fn get_vertex_properties(&self, vertex_index: usize) -> (r: &V)
        requires
            vertex_index < self@.vertices.len(),
        ensures
            *r == self@.vertices[vertex_index as int].property,
    {
        self.core.vertex_property(vertex_index)
    }

    pub fn set_vertex_properties(&mut self, vertex_index: usize, vertex_properties: V)
        requires
            old(self).wf(),
            vertex_index < old(self)@.vertices.len(),
        ensures
            final(self).wf(),
            final(self)@ == (GraphView {
                vertices: old(self)@.vertices.update(
                    vertex_index as int,
                    crate::model::VertexView { property: vertex_properties, ..old(self)@.vertices[vertex_index as int] },
                ),
                ..old(self)@
            }),
            final(self).graph_property_view() == old(self).graph_property_view(),
    {
        self.core.set_vertex_property(vertex_index, vertex_properties);
        assert(self@.wf(Topology::Directed)) by {
            assert forall|w: int| 0 <= w < self@.vertices.len() implies #[trigger] self@.vertices[w].out_edges
                == old(self)@.vertices[w].out_edges && self@.vertices[w].in_edges == old(self)@.vertices[w].in_edges by {}
        }
    }

    pub fn get_edge_properties(&self, edge_index: usize) -> (r: &E)
        requires
            edge_index < self@.edges.len(),
        ensures
            *r == self@.edges[edge_index as int].property,
    {
        self.core.edge_property(edge_index)
    }

    pub fn set_edge_properties(&mut self, edge_index: usize, edge_properties: E)
        requires
            old(self).wf(),
            edge_index < old(self)@.edges.len(),
        ensures
            final(self).wf(),
            final(self)@ == (GraphView {
                edges: old(self)@.edges.update(
                    edge_index as int,
                    EdgeView { property: edge_properties, ..old(self)@.edges[edge_index as int] },
                ),
                ..old(self)@
            }),
            final(self).graph_property_view() == old(self).graph_property_view(),
    {
        self.core.set_edge_property(edge_index, edge_properties);
        assert(self@.wf(Topology::Directed)) by {
            assert forall|e: int| 0 <= e < self@.edges.len() implies #[trigger] self@.edges[e].source
                == old(self)@.edges[e].source && self@.edges[e].target == old(self)@.edges[e].target by {}
        }
    }

    pub fn get_graph_properties(&self) -> (r: &G)
        ensures
            *r == self.graph_property_view(),
    {
        &self.graph_property
    }

    pub fn set_graph_properties(&mut self, graph_property: G)
        ensures
            final(self)@ == old(self)@,
            final(self).graph_property_view() == graph_property,
    {
        self.graph_property = graph_property;
    }

    /// Drops every vertex and every edge; the graph property stays.
    pub fn clear(&mut self)
        ensures
            final(self).wf(),
            final(self)@.vertices.len() == 0,
            final(self)@.edges.len() == 0,
            final(self).graph_property_view() == old(self).graph_property_view(),
    {
        self.core.clear()
    }
}

/// Collects a vertex count and a list of edges, then builds a DirectedVecAdjList.
pub struct DirectedVecAdjListBuilder<GraphProperty, VertexProperty, EdgeProperty> {
    vertex_property: PhantomData<VertexProperty>,
    graph_property: GraphProperty,
    num_vertices: usize,
    edges: Vec<Edge<Directed, usize, EdgeProperty>>,
}

impl<G, V, E> DirectedVecAdjListBuilder<G, V, E> {
    /// The vertex count asked for so far.
    pub closed spec fn spec_num_vertices(&self) -> nat {
        self.num_vertices as nat
    }

    /// The edges collected so far, in order.
    pub closed spec fn spec_edges(&self) -> Seq<EdgeView<usize, E>> {
        self.edges@.map_values(|e: Edge<Directed, usize, E>| e@)
    }

    /// The graph property the built graph will carry.
    pub closed spec fn spec_property(&self) -> G {
        self.graph_property
    }

    /// Every collected endpoint leaves room for one more vertex id.
    pub open spec fn wf(&self) -> bool {
        forall|j: int|
            0 <= j < self.spec_edges().len() ==> (#[trigger] self.spec_edges()[j]).source < usize::MAX
                && self.spec_edges()[j].target < usize::MAX
    }
}

impl<G: Default, V: Default, E: Default + PartialEq> DirectedVecAdjListBuilder<G, V, E> {
    /// An empty builder: no vertices, no edges, the default graph property.
    pub fn default() -> (r: Self)
        ensures
            r.wf(),
            r.spec_num_vertices() == 0,
            r.spec_edges().len() == 0,
            call_ensures(G::default, (), r.spec_property()),
    {
        let r = Self { vertex_property: PhantomData, graph_property: G::default(), num_vertices: 0, edges: Vec::new() };
        assert(r.spec_edges() =~= Seq::<EdgeView<usize, E>>::empty());
        r
    }

    pub fn property(&mut self, graph_property: G) -> (r: &mut Self)
        ensures
            r.spec_property() == graph_property,
            r.spec_num_vertices() == old(self).spec_num_vertices(),
            r.spec_edges() == old(self).spec_edges(),
            *final(self) == *final(r),
    {
        self.graph_property = graph_property;
        self
    }

    /// Sets the vertex count the built graph starts with.
    pub fn num_vertices(&mut self, num_vertices: usize) -> (r: &mut Self)
        ensures
            r.spec_num_vertices() == num_vertices,
            r.spec_property() == old(self).spec_property(),
            r.spec_edges() == old(self).spec_edges(),
            *final(self) == *final(r),
    {
        self.num_vertices = num_vertices;
        self
    }

    /// Appends edges with the default property, raising the vertex count to
    /// cover their endpoints.
    pub fn edges(&mut self, edges: Vec<(usize, usize)>) -> (r: &mut Self)
        requires
            old(self).wf(),
            forall|j: int| 0 <= j < edges@.len() ==> (#[trigger] edges@[j]).0 < usize::MAX && edges@[j].1 < usize::MAX,
        ensures
            r.wf(),
            r.spec_property() == old(self).spec_property(),
            r.spec_num_vertices() == crate::builder::cover(old(self).spec_num_vertices(), edges@),
            r.spec_edges().len() == old(self).spec_edges().len() + edges@.len(),
            r.spec_edges().subrange(0, old(self).spec_edges().len() as int) == old(self).spec_edges(),
            forall|j: int|
                old(self).spec_edges().len() <= j < r.spec_edges().len() ==> {
                    let e = #[trigger] r.spec_edges()[j];
                    let k = j - old(self).spec_edges().len();
                    e.source == edges@[k].0 && e.target == edges@[k].1 && call_ensures(E::default, (), e.property)
                },
            *final(self) == *final(r),
    {
        let ghost b0 = *self;
        let mut k: usize = 0;
        while k < edges.len()
            invariant
                k <= edges@.len(),
                self.wf(),
                forall|j: int| 0 <= j < edges@.len() ==> (#[trigger] edges@[j]).0 < usize::MAX && edges@[j].1 < usize::MAX,
                self.spec_property() == b0.spec_property(),
                self.spec_num_vertices() == crate::builder::cover(b0.spec_num_vertices(), edges@.subrange(0, k as int)),
                self.spec_edges().len() == b0.spec_edges().len() + k,
                self.spec_edges().subrange(0, b0.spec_edges().len() as int) == b0.spec_edges(),
                forall|j: int|
                    b0.spec_edges().len() <= j < self.spec_edges().len() ==> {
                        let e = #[trigger] self.spec_edges()[j];
                        let i = j - b0.spec_edges().len();
                        e.source == edges@[i].0 && e.target == edges@[i].1 && call_ensures(E::default, (), e.property)
                    },
            decreases edges@.len() - k,
        {
            let (s, t) = edges[k];
            let ghost before = self.spec_edges();
            self.num_vertices = crate::builder::raise(self.num_vertices, s, t);
            self.edges.push(Edge::new(s, t));
            proof {
                crate::builder::lemma_cover_push(b0.spec_num_vertices(), edges@, k as int);
                assert(self.spec_edges() =~= before.push(self.spec_edges().last()));
                assert(self.spec_edges().subrange(0, b0.spec_edges().len() as int) =~= b0.spec_edges());
            }
            k += 1;
        }
        assert(edges@.subrange(0, k as int) =~= edges@);
        self
    }

    /// Appends edges paired position by position with `properties`, raising
    /// the vertex count to cover their endpoints.
    pub fn edges_with_properties(&mut self, edges: Vec<(usize, usize)>, properties: Vec<E>) -> (r: &mut Self)
        requires
            old(self).wf(),
            properties@.len() >= edges@.len(),
            forall|j: int| 0 <= j < edges@.len() ==> (#[trigger] edges@[j]).0 < usize::MAX && edges@[j].1 < usize::MAX,
        ensures
            r.wf(),
            r.spec_property() == old(self).spec_property(),
            r.spec_num_vertices() == crate::builder::cover(old(self).spec_num_vertices(), edges@),
            r.spec_edges() == old(self).spec_edges() + crate::builder::zip_edges(edges@, properties@),
            *final(self) == *final(r),
    {
        let ghost b0 = *self;
        let ghost props = properties@;
        let mut properties = properties;
        let mut rev: Vec<E> = Vec::new();
        assert(props.subrange(0, props.len() as int) =~= props);
        while properties.len() > edges.len()
            invariant
                properties@.len() <= props.len(),
                properties@ == props.subrange(0, properties@.len() as int),
                properties@.len() >= edges@.len(),
                props.len() >= edges@.len(),
            decreases properties@.len(),
        {
            properties.pop();
            assert(properties@ =~= props.subrange(0, properties@.len() as int));
        }
        while properties.len() > 0
            invariant
                properties@.len() <= props.len(),
                properties@ == props.subrange(0, properties@.len() as int),
                rev@.len() + properties@.len() == edges@.len(),
                props.len() >= edges@.len(),
                forall|j: int| 0 <= j < rev@.len() ==> #[trigger] rev@[j] == props[edges@.len() - 1 - j],
            decreases properties@.len(),
        {
            let ghost before = properties@;
            let p = properties.pop().unwrap();
            assert(p == props[properties@.len() as int]);
            rev.push(p);
            assert(properties@ =~= props.subrange(0, properties@.len() as int));
        }
        let mut k: usize = 0;
        while k < edges.len()
            invariant
                k <= edges@.len(),
                rev@.len() == edges@.len() - k,
                props.len() >= edges@.len(),
                forall|j: int| 0 <= j < rev@.len() ==> #[trigger] rev@[j] == props[edges@.len() - 1 - j],
                self.wf(),
                forall|j: int| 0 <= j < edges@.len() ==> (#[trigger] edges@[j]).0 < usize::MAX && edges@[j].1 < usize::MAX,
                self.spec_property() == b0.spec_property(),
                self.spec_num_vertices() == crate::builder::cover(b0.spec_num_vertices(), edges@.subrange(0, k as int)),
                self.spec_edges() == b0.spec_edges() + crate::builder::zip_edges(edges@.subrange(0, k as int), props),
            decreases edges@.len() - k,
        {
            let (s, t) = edges[k];
            let p = rev.pop().unwrap();
            self.num_vertices = crate::builder::raise(self.num_vertices, s, t);
            let ghost before = self.spec_edges();
            self.edges.push(Edge::with_property(s, t, p));
            proof {
                crate::builder::lemma_cover_push(b0.spec_num_vertices(), edges@, k as int);
                crate::builder::lemma_zip_push(edges@, props, k as int);
                assert(self.spec_edges() =~= before.push(EdgeView { source: s, target: t, property: p }));
                assert(b0.spec_edges() + crate::builder::zip_edges(edges@.subrange(0, k + 1), props) =~= (b0.spec_edges()
                    + crate::builder::zip_edges(edges@.subrange(0, k as int), props)).push(
                    EdgeView { source: s, target: t, property: p },
                ));
            }
            k += 1;
        }
        assert(edges@.subrange(0, k as int) =~= edges@);
        self
    }

    /// Builds the graph: the asked-for number of default vertices, then every
    /// collected edge in order, added as `add_edge_with_property` adds it.
    pub fn build(self) -> (r: DirectedVecAdjList<G, V, E>)
        requires
            self.wf(),
        ensures
            r.wf(),
            r.graph_property_view() == self.spec_property(),
            r@.edges == self.spec_edges(),
            r@.vertices.len() == vstd::math::max(
                self.spec_num_vertices() as int,
                crate::builder::span(self.spec_edges()) as int,
            ),
            forall|w: int| 0 <= w < r@.vertices.len() ==> call_ensures(V::default, (), #[trigger] r@.vertices[w].property),
            forall|w: int|
                0 <= w < r@.vertices.len() ==> #[trigger] r@.vertices[w].out_edges == built_out(
                    Topology::Directed,
                    self.spec_edges(),
                    w,
                ),
            forall|w: int|
                0 <= w < r@.vertices.len() ==> #[trigger] r@.vertices[w].in_edges == built_in(
                    Topology::Directed,
                    self.spec_edges(),
                    w,
                ),
    {
        let ghost pending = self.spec_edges();
        let n_pending = self.edges.len();
        let mut core: AdjacencyCore<Directed, V, E> = AdjacencyCore::new();
        let mut i: usize = 0;
        while i < self.num_vertices
            invariant
                i <= self.num_vertices,
                core@.wf(Topology::Directed),
                core@.vertices.len() == i,
                core@.edges.len() == 0,
                forall|w: int| 0 <= w < core@.vertices.len() ==> call_ensures(V::default, (), #[trigger] core@.vertices[w].property),
                forall|w: int|
                    0 <= w < core@.vertices.len() ==> (#[trigger] core@.vertices[w]).out_edges.len() == 0
                        && core@.vertices[w].in_edges.len() == 0,
            decreases self.num_vertices - i,
        {
            let ghost before = core@;
            core.add_vertex_with_property(V::default());
            assert forall|w: int| 0 <= w < before.vertices.len() implies #[trigger] core@.vertices[w] == before.vertices[w] by {}
            i += 1;
        }
        let DirectedVecAdjListBuilder { vertex_property: _, graph_property, num_vertices, edges } = self;
        let mut edges = edges;
        let mut rev: Vec<Edge<Directed, usize, E>> = Vec::new();
        while edges.len() > 0
            invariant
                edges@.map_values(|e: Edge<Directed, usize, E>| e@) == pending.subrange(0, edges@.len() as int),
                rev@.len() + edges@.len() == pending.len(),
                forall|j: int| 0 <= j < rev@.len() ==> #[trigger] rev@[j]@ == pending[pending.len() - 1 - j],
            decreases edges@.len(),
        {
            let ghost before = edges@;
            let e = edges.pop().unwrap();
            proof {
                assert(before.map_values(|e: Edge<Directed, usize, E>| e@)[edges@.len() as int] == e@);
            }
            rev.push(e);
            assert(edges@.map_values(|e: Edge<Directed, usize, E>| e@) =~= pending.subrange(0, edges@.len() as int));
        }
        let mut k: usize = 0;
        while rev.len() > 0
            invariant
                k + rev@.len() == pending.len(),
                pending.len() == n_pending,
                forall|j: int| 0 <= j < rev@.len() ==> #[trigger] rev@[j]@ == pending[pending.len() - 1 - j],
                forall|j: int|
                    0 <= j < pending.len() ==> (#[trigger] pending[j]).source < usize::MAX && pending[j].target < usize::MAX,
                core@.wf(Topology::Directed),
                core@.edges == pending.subrange(0, k as int),
                core@.vertices.len() == vstd::math::max(
                    num_vertices as int,
                    crate::builder::span(pending.subrange(0, k as int)) as int,
                ),
                forall|w: int| 0 <= w < core@.vertices.len() ==> call_ensures(V::default, (), #[trigger] core@.vertices[w].property),
                forall|w: int|
                    0 <= w < core@.vertices.len() ==> #[trigger] core@.vertices[w].out_edges == built_out(
                        Topology::Directed,
                        pending.subrange(0, k as int),
                        w,
                    ),
                forall|w: int|
                    0 <= w < core@.vertices.len() ==> #[trigger] core@.vertices[w].in_edges == built_in(
                        Topology::Directed,
                        pending.subrange(0, k as int),
                        w,
                    ),
            decreases rev@.len(),
        {
            let e = rev.pop().unwrap();
            let s = *e.source();
            let t = *e.target();
            let ghost before = core@;
            let ghost ev = e@;
            assert(ev == pending[k as int]);
            let p = Edge::into_property(e);
            core.add_edge_with_property(s, t, p);
            proof {
                crate::builder::lemma_span_push(pending, k as int);
                assert(core@.edges =~= pending.subrange(0, k + 1));
                let prefix = pending.subrange(0, k as int);
                let next = pending.subrange(0, k + 1);
                assert(next.drop_last() =~= prefix);
                assert forall|w: int| #![trigger core@.vertices[w]] 0 <= w < core@.vertices.len() implies core@.vertices[w].out_edges
                    == built_out(Topology::Directed, next, w) && core@.vertices[w].in_edges == built_in(
                    Topology::Directed,
                    next,
                    w,
                ) by {
                    if w >= before.vertices.len() {
                        assert forall|j: int| 0 <= j < prefix.len() implies !touches(#[trigger] prefix[j], w) by {
                            assert(prefix[j] == before.edges[j]);
                            assert(before.edges[j].source < before.vertices.len());
                        }
                        crate::model::lemma_built_untouched(Topology::Directed, prefix, w);
                    }
                    assert(core@.vertices[w].out_edges =~= built_out(Topology::Directed, next, w));
                    assert(core@.vertices[w].in_edges =~= built_in(Topology::Directed, next, w));
                }
            }
            k += 1;
        }
        assert(pending.subrange(0, k as int) =~= pending);
        let r = DirectedVecAdjList { graph_property, core };
        r
    }
}

} // verus!
