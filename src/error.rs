use vstd::prelude::*;

verus! {

/// Errors which may occur during normal usage of the graph.
#[derive(PartialEq, Eq, Clone, Copy, Debug)]
pub enum Error {
    /// An operation referenced a vertex key that is not in the vertex index.
    VertexDoesNotExist,
    /// An operation referenced an edge key that is not in the edge index.
    EdgeDoesNotExist,
}

impl Error {
    /// A one-line description of the error.
    pub fn message(&self) -> (r: &'static str)
        ensures
            r@ == match self {
                Error::VertexDoesNotExist => "Graph Error: Vertex does not exist"@,
                Error::EdgeDoesNotExist => "Graph Error: Edge does not exist"@,
            },
    {
        match self {
            Error::VertexDoesNotExist => "Graph Error: Vertex does not exist",
            Error::EdgeDoesNotExist => "Graph Error: Edge does not exist",
        }
    }
}

} // verus!
