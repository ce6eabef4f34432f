//! Vertex records for the dense and the stable backend, with and without a
//! kept list of incoming edges.
use vstd::prelude::*;

verus! {

/// A vertex of a dense store: its out-edge list and its property.
pub struct RandVertex<VertexEdgeStorageType, VertexProperty> {
    out_edges: VertexEdgeStorageType,
    property: VertexProperty,
}

/// A vertex of a stable store: its out-edge list, its property and its
/// position, which stays `usize::MAX` until the store assigns one.
pub struct StableVertex<VertexEdgeStorageType, VertexProperty> {
    out_edges: VertexEdgeStorageType,
    property: VertexProperty,
    position: usize,
}

/// A dense-store vertex that also keeps its in-edge list.
pub struct BidirectionalRandVertex<VertexEdgeStorageType, VertexProperty> {
    in_edges: VertexEdgeStorageType,
    out_edges: VertexEdgeStorageType,
    property: VertexProperty,
}

/// A stable-store vertex that also keeps its in-edge list.
pub struct BidirectionalStableVertex<VertexEdgeStorageType, VertexProperty> {
    in_edges: VertexEdgeStorageType,
    out_edges: VertexEdgeStorageType,
    property: VertexProperty,
    position: usize,
}

impl<S, P> RandVertex<S, P> {
    pub closed spec fn spec_out_edges(&self) -> S {
        self.out_edges
    }

    pub closed spec fn spec_property(&self) -> P {
        self.property
    }

    /// A vertex with empty (default) edge storage carrying `property`.
    pub fn new(property: P) -> (r: Self)
        where
            S: Default,
        ensures
            r.spec_property() == property,
            call_ensures(S::default, (), r.spec_out_edges()),
    {
        Self { out_edges: S::default(), property }
    }
}

impl<S, P> StableVertex<S, P> {
    pub closed spec fn spec_out_edges(&self) -> S {
        self.out_edges
    }

    pub closed spec fn spec_property(&self) -> P {
        self.property
    }

    pub closed spec fn spec_position(&self) -> usize {
        self.position
    }

    /// A vertex with empty (default) edge storage carrying `property`, not yet placed.
    pub fn new(property: P) -> (r: Self)
        where
            S: Default,
        ensures
            r.spec_property() == property,
            r.spec_position() == usize::MAX,
            call_ensures(S::default, (), r.spec_out_edges()),
    {
        Self { out_edges: S::default(), property, position: usize::MAX }
    }
}

impl<S, P> BidirectionalRandVertex<S, P> {
    pub closed spec fn spec_in_edges(&self) -> S {
        self.in_edges
    }

    pub closed spec fn spec_out_edges(&self) -> S {
        self.out_edges
    }

    pub closed spec fn spec_property(&self) -> P {
        self.property
    }

    /// A vertex with empty (default) edge lists carrying `property`.
    pub fn new(property: P) -> (r: Self)
        where
            S: Default,
        ensures
            r.spec_property() == property,
            call_ensures(S::default, (), r.spec_in_edges()),
            call_ensures(S::default, (), r.spec_out_edges()),
    {
        Self { in_edges: S::default(), out_edges: S::default(), property }
    }
}

impl<S, P> BidirectionalStableVertex<S, P> {
    pub closed spec fn spec_in_edges(&self) -> S {
        self.in_edges
    }

    pub closed spec fn spec_out_edges(&self) -> S {
        self.out_edges
    }

    pub closed spec fn spec_property(&self) -> P {
        self.property
    }

    pub closed spec fn spec_position(&self) -> usize {
        self.position
    }

    /// A vertex with empty (default) edge lists carrying `property`, not yet placed.
    pub fn new(property: P) -> (r: Self)
        where
            S: Default,
        ensures
            r.spec_property() == property,
            r.spec_position() == usize::MAX,
            call_ensures(S::default, (), r.spec_in_edges()),
            call_ensures(S::default, (), r.spec_out_edges()),
    {
        Self { in_edges: S::default(), out_edges: S::default(), property, position: usize::MAX }
    }
}


/// Chooses, at compile time, the vertex record for a storage selector: a
/// dense-store vertex for `VecS`, a stable-store vertex for `MapS`.
pub struct VertexTypeSelector<VertexEdgeStorageType, VertexStorageSelector, VertexProperty> {
    out_edge_storage_type: std::marker::PhantomData<VertexEdgeStorageType>,
    vertex_storage_selector: std::marker::PhantomData<VertexStorageSelector>,
    vertex_property: std::marker::PhantomData<VertexProperty>,
}

/// The vertex record a `VertexTypeSelector` stands for.
pub trait VertexTypeSelectorTrait {
    type Type;
}

impl<S, P> VertexTypeSelectorTrait for VertexTypeSelector<S, crate::selectors::VecS, P> {
    type Type = RandVertex<S, P>;
}

impl<S, P> VertexTypeSelectorTrait for VertexTypeSelector<S, crate::selectors::MapS, P> {
    type Type = StableVertex<S, P>;
}

} // verus!
