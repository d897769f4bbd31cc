use vstd::prelude::*;

verus! {

/// The abstract state of a graph: the two indices as mathematical maps.
///
/// `outgoing` maps each registered vertex to the set of edge keys recorded
/// as leaving it; `endpoints` maps each registered edge key to its
/// (source, destination) pair.
#[verifier::reject_recursive_types(V)]
#[verifier::reject_recursive_types(E)]
pub struct GraphModel<V, E> {
    pub outgoing: Map<V, Set<E>>,
    pub endpoints: Map<E, (V, V)>,
}

impl<V, E> GraphModel<V, E> {
    /// The graph with no vertices and no edges.
    pub open spec fn empty() -> Self {
        GraphModel { outgoing: Map::empty(), endpoints: Map::empty() }
    }

    /// `v` is registered in the vertex index.
    pub open spec fn has_vertex(self, v: V) -> bool {
        self.outgoing.contains_key(v)
    }

    /// `e` is registered in the edge index.
    pub open spec fn has_edge(self, e: E) -> bool {
        self.endpoints.contains_key(e)
    }

    /// The two indices agree: every key in a registered vertex's outgoing set
    /// is a registered edge with that vertex as its source, and every
    /// registered edge has registered endpoints and is in the outgoing set
    /// of its source.
    pub open spec fn well_formed(self) -> bool {
        &&& forall|u: V, e: E|
            self.has_vertex(u) && #[trigger] self.outgoing[u].contains(e) ==> self.has_edge(e)
                && self.endpoints[e].0 == u
        &&& forall|e: E| #[trigger]
            self.has_edge(e) ==> {
                &&& self.has_vertex(self.endpoints[e].0)
                &&& self.has_vertex(self.endpoints[e].1)
                &&& self.outgoing[self.endpoints[e].0].contains(e)
            }
    }

    /// Registers `v` with an empty outgoing set, replacing any set it had.
    /// The edge index is left as it is.
    pub open spec fn add_vertex(self, v: V) -> Self {
        GraphModel { outgoing: self.outgoing.insert(v, Set::empty()), endpoints: self.endpoints }
    }

    /// Records `e` as leaving `x` and maps `e` to `(x, y)`, replacing any
    /// pair it had. Meaningful when both `x` and `y` are registered.
    pub open spec fn add_edge(self, x: V, y: V, e: E) -> Self {
        GraphModel {
            outgoing: self.outgoing.insert(x, self.outgoing[x].insert(e)),
            endpoints: self.endpoints.insert(e, (x, y)),
        }
    }

    /// Unmaps `e` and drops it from the outgoing set of its recorded source,
    /// if that source is registered. Meaningful when `e` is registered.
    pub open spec fn remove_edge(self, e: E) -> Self {
        let s = self.endpoints[e].0;
        GraphModel {
            outgoing: if self.outgoing.contains_key(s) {
                self.outgoing.insert(s, self.outgoing[s].remove(e))
            } else {
                self.outgoing
            },
            endpoints: self.endpoints.remove(e),
        }
    }

    /// The effect of removing, one by one, each registered edge of `es`: each
    /// is unmapped and dropped from the outgoing set of its recorded source.
    pub open spec fn remove_edges(self, es: Set<E>) -> Self {
        GraphModel {
            outgoing: Map::new(
                |u: V| self.outgoing.contains_key(u),
                |u: V|
                    self.outgoing[u].filter(
                        |k: E| !(es.contains(k) && self.has_edge(k) && self.endpoints[k].0 == u),
                    ),
            ),
            endpoints: self.endpoints.remove_keys(es),
        }
    }

    /// The registered edges whose recorded destination is `v`.
    pub open spec fn edges_into(self, v: V) -> Set<E> {
        self.endpoints.dom().filter(|k: E| self.endpoints[k].1 == v)
    }

    /// The graph with the outgoing edges of `v` unmapped from the edge index;
    /// the vertex index is left as it is.
    pub open spec fn cut_outgoing(self, v: V) -> Self {
        GraphModel { outgoing: self.outgoing, endpoints: self.endpoints.remove_keys(self.outgoing[v]) }
    }

    /// The edges that removing `v` reports: those that still enter `v` once
    /// its own outgoing edges are unmapped, each with its endpoints.
    pub open spec fn incoming_edges(self, v: V) -> Set<(E, (V, V))> {
        let cut = self.cut_outgoing(v);
        Set::new(|t: (E, (V, V))| cut.has_edge(t.0) && cut.endpoints[t.0] == t.1 && t.1.1 == v)
    }

    /// There is an edge from `x` to `y`: some key in the outgoing set of `x`
    /// that the edge index maps to `(x, y)`.
    pub open spec fn adjacent(self, x: V, y: V) -> bool {
        exists|e: E| #[trigger]
            self.outgoing[x].contains(e) && self.has_edge(e) && self.endpoints[e] == (x, y)
    }

    /// The destinations of the edges whose keys are in the outgoing set of
    /// `x` and are registered in the edge index.
    pub open spec fn connections(self, x: V) -> Set<V> {
        Set::new(
            |y: V|
                exists|e: E| #[trigger]
                    self.outgoing[x].contains(e) && self.has_edge(e) && self.endpoints[e].1 == y,
        )
    }

    /// Removes `v`: its outgoing edges are unmapped, every edge still entering
    /// it is removed as by `remove_edge`, and `v` is unregistered.
    /// Meaningful when `v` is registered.
    pub open spec fn remove_vertex(self, v: V) -> Self {
        let cut = self.cut_outgoing(v);
        let swept = cut.remove_edges(cut.edges_into(v));
        GraphModel { outgoing: swept.outgoing.remove(v), endpoints: swept.endpoints }
    }
}

/// Removing no edges leaves the graph as it is.
pub(crate) proof fn lemma_remove_no_edges<V, E>(g: GraphModel<V, E>)
    ensures
        g.remove_edges(Set::empty()) == g,
{
    let r = g.remove_edges(Set::empty());
    assert forall|u: V| #[trigger] r.outgoing.contains_key(u) implies r.outgoing[u]
        =~= g.outgoing[u] by {}
    assert(r.outgoing =~= g.outgoing);
    assert(r.endpoints =~= g.endpoints);
}

/// Removing one more registered edge after a set of them is the same as
/// removing the enlarged set.
pub(crate) proof fn lemma_remove_edges_step<V, E>(g: GraphModel<V, E>, done: Set<E>, e: E)
    requires
        g.has_edge(e),
        !done.contains(e),
    ensures
        g.remove_edges(done).has_edge(e),
        g.remove_edges(done).endpoints[e] == g.endpoints[e],
        g.remove_edges(done).remove_edge(e) == g.remove_edges(done.insert(e)),
{
    let lhs = g.remove_edges(done).remove_edge(e);
    let rhs = g.remove_edges(done.insert(e));
    let s = g.endpoints[e].0;
    assert forall|u: V| #[trigger] lhs.outgoing.contains_key(u) implies lhs.outgoing[u]
        =~= rhs.outgoing[u] by {}
    assert(lhs.outgoing =~= rhs.outgoing);
    assert(lhs.endpoints =~= rhs.endpoints);
}

} // verus!
