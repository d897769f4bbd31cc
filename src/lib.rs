//! A directed graph container over caller-supplied ordered keys.
//!
//! The graph keeps two indices in step: each vertex maps to the set of its
//! outgoing edge keys, and each edge key maps to its (source, destination)
//! pair. Every operation is specified against [`GraphModel`], the abstract
//! view of those two indices.
mod api;
mod error;
mod graph;
mod key;
pub mod laws;
mod model;

pub use api::{
    AddEdge, AddVertex, Adjacent, Connections, Edges, GetEdgeValue, GetVertexValue, RemoveEdge,
    RemoveVertex, Vertices,
};
pub use error::Error;
pub use graph::{BTreeGraph, Edge};
pub use key::GraphKey;
pub use model::GraphModel;
