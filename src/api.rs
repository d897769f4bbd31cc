use std::collections::BTreeSet;
use vstd::prelude::*;

verus! {

/// `Vertices` returns the set of the vertices which comprise the graph.
pub trait Vertices<T> where T: Ord {
    fn vertices(&self) -> BTreeSet<&T>;
}

/// `Edges` returns the set of the edges which comprise the graph.
pub trait Edges<T> where T: Ord {
    fn edges(&self) -> BTreeSet<&T>;
}

/// `AddVertex` registers the vertex `x` with no outgoing edges, replacing
/// any entry it had, and returns the outgoing set it replaced.
pub trait AddVertex<V, E> where E: Ord {
    fn add_vertex(&mut self, x: V) -> Option<BTreeSet<E>>;
}

/// `AddEdge` adds the edge `e` from the vertex `x` to the vertex `y`, and
/// returns the endpoints that `e` had before, if any.
pub trait AddEdge<V, E> {
    type Error;

    fn add_edge(&mut self, x: V, y: V, e: E) -> Result<Option<(V, V)>, Self::Error>;
}

/// `GetEdgeValue` returns the (source, destination) pair of the edge `x`.
pub trait GetEdgeValue<V, E> {
    fn get_edge_value(&self, x: E) -> Option<&(V, V)>;
}

/// `GetVertexValue` returns the set of outgoing edges of the vertex `x`.
pub trait GetVertexValue<V, E> where E: Ord {
    fn get_vertex_value(&self, x: V) -> Option<&BTreeSet<E>>;
}

/// `RemoveEdge` removes the edge `x`, also from its source vertex's
/// outgoing set, and returns its endpoints. If the edge does not exist, an
/// error is returned.
pub trait RemoveEdge<V, E> {
    type Error;

    fn remove_edge(&mut self, x: E) -> Result<(V, V), Self::Error>;
}

/// `RemoveVertex` removes the vertex `x` and every edge that leaves or
/// enters it, and returns the entering edges. If the vertex does not exist,
/// an error is returned.
pub trait RemoveVertex<V, E> where E: Ord {
    type Error;

    fn remove_vertex(&mut self, x: V) -> Result<BTreeSet<(E, (V, V))>, Self::Error>;
}

/// `Adjacent` tests whether there is an edge from the vertex `x` to the
/// vertex `y`. An error is returned if either `x` or `y` does not exist.
/// The graph is directed: `x` adjacent to `y` does not make `y` adjacent
/// to `x`.
pub trait Adjacent<T> {
    type Error;

    fn adjacent(&self, x: T, y: T) -> Result<bool, Self::Error>;
}

/// `Connections` lists every vertex `y` such that there is an edge from the
/// vertex `x` to `y`. An error is returned if `x` does not exist.
pub trait Connections<T> {
    type Error;

    fn connections(&self, x: T) -> Result<BTreeSet<&T>, Self::Error>;
}

} // verus!
