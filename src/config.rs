//! A bundle of the compile-time choices that shape a graph: storage of
//! vertices, of incidence lists and of edges, edge direction and the three
//! property types.
use vstd::prelude::*;
use std::marker::PhantomData;
use crate::backend::{ContainerGen, ContainerGenTrait};
use crate::edge::Edge;
use crate::vertex::{VertexTypeSelector, VertexTypeSelectorTrait};

verus! {

pub struct Config<
    VertexStorageSelector,
    VertexEdgeStorageType,
    EdgeDirectedSelector,
    EdgeStorageSelector,
    GraphProperty,
    VertexProperty,
    EdgeProperty,
> {
    vertex_storage_selector: PhantomData<VertexStorageSelector>,
    vertex_edge_storage_selector: PhantomData<VertexEdgeStorageType>,
    edge_directed_selector: PhantomData<EdgeDirectedSelector>,
    edge_storage_selector: PhantomData<EdgeStorageSelector>,
    graph_property: PhantomData<GraphProperty>,
    vertex_property: PhantomData<VertexProperty>,
    edge_property: PhantomData<EdgeProperty>,
}

/// The types a `Config` selects.
pub trait ConfigTrait {
    type VertexEdgeStorage;
    type VertexType;
    type EdgeType;
    type VertexStorage;
    type EdgeStorage;
    type EdgeDirected;
    type GraphProperty;
    type VertexProperty;
    type EdgeProperty;
}

impl<VSS, VES, D, ESS, GP, VP, EP> ConfigTrait for Config<VSS, VES, D, ESS, GP, VP, EP> where
    ContainerGen<VES, usize>: ContainerGenTrait<usize>,
    VertexTypeSelector<<ContainerGen<VES, usize> as ContainerGenTrait<usize>>::Type, VSS, VP>: VertexTypeSelectorTrait,
    ContainerGen<
        VSS,
        <VertexTypeSelector<<ContainerGen<VES, usize> as ContainerGenTrait<usize>>::Type, VSS, VP> as VertexTypeSelectorTrait>::Type,
    >: ContainerGenTrait<
        <VertexTypeSelector<<ContainerGen<VES, usize> as ContainerGenTrait<usize>>::Type, VSS, VP> as VertexTypeSelectorTrait>::Type,
    >,
    ContainerGen<ESS, Edge<D, usize, EP>>: ContainerGenTrait<Edge<D, usize, EP>>,
 {
    type VertexEdgeStorage = <ContainerGen<VES, usize> as ContainerGenTrait<usize>>::Type;
    type VertexType = <VertexTypeSelector<Self::VertexEdgeStorage, VSS, VP> as VertexTypeSelectorTrait>::Type;
    type EdgeType = Edge<D, usize, EP>;
    type VertexStorage = <ContainerGen<VSS, Self::VertexType> as ContainerGenTrait<Self::VertexType>>::Type;
    type EdgeStorage = <ContainerGen<ESS, Self::EdgeType> as ContainerGenTrait<Self::EdgeType>>::Type;
    type EdgeDirected = D;
    type GraphProperty = GP;
    type VertexProperty = VP;
    type EdgeProperty = EP;
}

} // verus!
