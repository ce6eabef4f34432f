//! Edges: a source, a target and a property, tagged with the edge-direction selector.
use vstd::prelude::*;
use std::marker::PhantomData;

verus! {

/// What an edge holds, as a specification value.
pub struct EdgeView<VT, EP> {
    pub source: VT,
    pub target: VT,
    pub property: EP,
}

/// An edge of a graph whose direction is chosen by `EdgeDirectedSelector`.
pub struct Edge<EdgeDirectedSelector, VertexType, EdgeProperty> {
    source: VertexType,
    target: VertexType,
    property: EdgeProperty,
    edge_type: PhantomData<EdgeDirectedSelector>,
}

impl<D, VT, EP> View for Edge<D, VT, EP> {
    type V = EdgeView<VT, EP>;

    closed spec fn view(&self) -> EdgeView<VT, EP> {
        EdgeView { source: self.source, target: self.target, property: self.property }
    }
}

impl<D, VT, EP> Edge<D, VT, EP> {
    /// An edge from `source` to `target` with the default property.
    pub fn new(source: VT, target: VT) -> (r: Self)
        where
            EP: Default,
        ensures
            r@.source == source,
            r@.target == target,
            call_ensures(EP::default, (), r@.property),
    {
        Self::with_property(source, target, EP::default())
    }

    /// An edge from `source` to `target` carrying `property`.
    pub fn with_property(source: VT, target: VT, property: EP) -> (r: Self)
        ensures
            r@ == (EdgeView { source, target, property }),
    {
        Self { source, target, property, edge_type: PhantomData }
    }

    pub fn get_property(&self) -> (r: &EP)
        ensures
            *r == self@.property,
    {
        &self.property
    }

    pub fn set_property(&mut self, p: EP)
        ensures
            final(self)@ == (EdgeView { property: p, ..old(self)@ }),
    {
        self.property = p;
    }

    pub fn get_mut_property(&mut self) -> (r: &mut EP)
        ensures
            *r == old(self)@.property,
            final(self)@ == (EdgeView { property: *final(r), ..old(self)@ }),
    {
        &mut self.property
    }

    pub fn source(&self) -> (r: &VT)
        ensures
            *r == self@.source,
    {
        &self.source
    }

    pub fn target(&self) -> (r: &VT)
        ensures
            *r == self@.target,
    {
        &self.target
    }

    /// Consumes the edge, handing back its property.
    pub fn into_property(self) -> (r: EP)
        ensures
            r == self@.property,
    {
        self.property
    }

    /// Moves both ends of the edge, keeping its property.
    pub(crate) fn set_ends(&mut self, source: VT, target: VT)
        ensures
            final(self)@ == (EdgeView { source, target, property: old(self)@.property }),
    {
        self.source = source;
        self.target = target;
    }
}

} // verus!
