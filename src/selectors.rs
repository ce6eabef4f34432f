//! Compile-time strategy selectors: edge direction and storage backend.
use vstd::prelude::*;

verus! {

/// The three edge-direction topologies, as a value that specifications can talk about.
#[derive(PartialEq, Eq, Structural, Clone, Copy, Debug)]
pub enum Topology {
    Undirected,
    Directed,
    Bidirectional,
}

/// A type-level choice of edge direction, injected into the adjacency engine.
pub trait DirectedSelectorTrait {
    /// The topology this selector stands for.
    spec fn topology() -> Topology;

    /// The topology this selector stands for, at run time.
    fn kind() -> (t: Topology)
        ensures
            t == Self::topology(),
    ;
}

/// Selects undirected edges: each edge is recorded at both of its endpoints.
#[derive(Default)]
pub struct Undirected {}

/// Selects directed edges: each edge is recorded at its source only.
#[derive(Default)]
pub struct Directed {}

/// Selects directed edges with a maintained reverse index at the target.
#[derive(Default)]
pub struct Bidirectional {}

impl DirectedSelectorTrait for Undirected {
    open spec fn topology() -> Topology {
        Topology::Undirected
    }

    fn kind() -> (t: Topology) {
        Topology::Undirected
    }
}

impl DirectedSelectorTrait for Directed {
    open spec fn topology() -> Topology {
        Topology::Directed
    }

    fn kind() -> (t: Topology) {
        Topology::Directed
    }
}

impl DirectedSelectorTrait for Bidirectional {
    open spec fn topology() -> Topology {
        Topology::Bidirectional
    }

    fn kind() -> (t: Topology) {
        Topology::Bidirectional
    }
}


/// A type-level choice of storage backend.
pub trait StorageSelectorTrait {
    /// Whether ids stay valid when other elements are removed.
    spec fn stable_ids() -> bool;
}

/// Selects dense, array-like storage: removal moves the last element into the
/// freed slot, so the moved element's id changes.
#[derive(Default)]
pub struct VecS {}

/// Selects associative storage with keys that are never reused: removal
/// changes no other element's id.
#[derive(Default)]
pub struct MapS {}

impl StorageSelectorTrait for VecS {
    open spec fn stable_ids() -> bool {
        false
    }
}

impl StorageSelectorTrait for MapS {
    open spec fn stable_ids() -> bool {
        true
    }
}

} // verus!
