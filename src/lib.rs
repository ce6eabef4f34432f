//! An in-memory graph storage engine built on index-addressed adjacency lists.
//!
//! Three topologies share one engine: undirected graphs record each edge at
//! both endpoints (a self-loop twice at its vertex, so it counts 2 towards the
//! degree), directed graphs at the source only, and bidirectional graphs at the
//! source and, in a separate in-list, at the target. Vertex and edge ids are
//! dense indices: removing an element moves the last one into the freed slot,
//! and every reference to the moved element is rewritten, found by its old id.
pub mod backend;
pub mod bidirectional;
pub mod builder;
pub mod config;
pub mod counting;
pub mod directed;
pub mod edge;
mod engine;
pub mod incidence;
pub mod laws;
pub mod model;
pub mod selectors;
pub mod undirected;
pub mod vertex;
