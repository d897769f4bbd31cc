//! Laws of the graph, stated over its model.
use vstd::prelude::*;

use crate::model::GraphModel;

verus! {

/// The empty graph is well formed.
pub proof fn lemma_empty_well_formed<V, E>()
    ensures
        GraphModel::<V, E>::empty().well_formed(),
{
}

/// Adding a vertex that is not yet present registers it with no outgoing
/// edges, and keeps a well-formed graph well formed.
pub proof fn lemma_add_vertex_registers<V, E>(g: GraphModel<V, E>, v: V)
    requires
        !g.has_vertex(v),
    ensures
        g.add_vertex(v).has_vertex(v),
        g.add_vertex(v).outgoing[v] == Set::<E>::empty(),
        g.well_formed() ==> g.add_vertex(v).well_formed(),
{
    let h = g.add_vertex(v);
    if g.well_formed() {
        assert forall|u: V, k: E| h.has_vertex(u) && #[trigger] h.outgoing[u].contains(k) implies h.has_edge(k)
            && h.endpoints[k].0 == u by {
            assert(u != v);
            assert(g.outgoing[u].contains(k));
        }
        assert forall|k: E| #[trigger] h.has_edge(k) implies {
            &&& h.has_vertex(h.endpoints[k].0)
            &&& h.has_vertex(h.endpoints[k].1)
            &&& h.outgoing[h.endpoints[k].0].contains(k)
        } by {
            assert(g.has_edge(k));
        }
    }
}

/// Adding an unused edge key between two present vertices registers the edge
/// with those endpoints and records it as leaving its source, and keeps a
/// well-formed graph well formed.
pub proof fn lemma_add_edge_registers<V, E>(g: GraphModel<V, E>, x: V, y: V, e: E)
    requires
        g.has_vertex(x),
        g.has_vertex(y),
        !g.has_edge(e),
    ensures
        g.add_edge(x, y, e).has_edge(e),
        g.add_edge(x, y, e).endpoints[e] == (x, y),
        g.add_edge(x, y, e).outgoing[x].contains(e),
        g.well_formed() ==> g.add_edge(x, y, e).well_formed(),
{
    let h = g.add_edge(x, y, e);
    if g.well_formed() {
        assert forall|u: V, k: E| h.has_vertex(u) && #[trigger] h.outgoing[u].contains(k) implies h.has_edge(k)
            && h.endpoints[k].0 == u by {
            if k != e {
                assert(g.outgoing[u].contains(k));
            }
        }
        assert forall|k: E| #[trigger] h.has_edge(k) implies {
            &&& h.has_vertex(h.endpoints[k].0)
            &&& h.has_vertex(h.endpoints[k].1)
            &&& h.outgoing[h.endpoints[k].0].contains(k)
        } by {
            if k != e {
                assert(g.has_edge(k));
            }
        }
    }
}

/// Removing a present edge unregisters it and keeps a well-formed graph well
/// formed.
pub proof fn lemma_remove_edge_well_formed<V, E>(g: GraphModel<V, E>, e: E)
    requires
        g.well_formed(),
        g.has_edge(e),
    ensures
        !g.remove_edge(e).has_edge(e),
        g.remove_edge(e).well_formed(),
{
    let h = g.remove_edge(e);
    assert forall|u: V, k: E| h.has_vertex(u) && #[trigger] h.outgoing[u].contains(k) implies h.has_edge(k)
        && h.endpoints[k].0 == u by {
        assert(g.outgoing[u].contains(k));
    }
    assert forall|k: E| #[trigger] h.has_edge(k) implies {
        &&& h.has_vertex(h.endpoints[k].0)
        &&& h.has_vertex(h.endpoints[k].1)
        &&& h.outgoing[h.endpoints[k].0].contains(k)
    } by {
        assert(g.has_edge(k));
        assert(g.outgoing[g.endpoints[k].0].contains(k));
    }
}

/// In a well-formed graph, removing a present vertex unregisters it and
/// every edge that leaves or enters it, keeps everything else, and reports
/// exactly the edges that entered it from another vertex. The result is well
/// formed.
pub proof fn lemma_remove_vertex_cascade<V, E>(g: GraphModel<V, E>, v: V)
    requires
        g.well_formed(),
        g.has_vertex(v),
    ensures
        forall|u: V| #[trigger]
            g.remove_vertex(v).has_vertex(u) <==> g.has_vertex(u) && u != v,
        forall|e: E| #[trigger]
            g.remove_vertex(v).has_edge(e) <==> g.has_edge(e) && g.endpoints[e].0 != v
                && g.endpoints[e].1 != v,
        g.incoming_edges(v) == Set::new(
            |t: (E, (V, V))| g.has_edge(t.0) && g.endpoints[t.0] == t.1 && t.1.1 == v && t.1.0 != v,
        ),
        g.remove_vertex(v).well_formed(),
{
    let h = g.remove_vertex(v);
    let cut = g.cut_outgoing(v);
    assert(g.incoming_edges(v) =~= Set::new(
        |t: (E, (V, V))| g.has_edge(t.0) && g.endpoints[t.0] == t.1 && t.1.1 == v && t.1.0 != v,
    ));
    assert forall|e: E| #[trigger] h.has_edge(e) implies g.endpoints[e] == h.endpoints[e] by {}
    assert forall|u: V, e: E| h.has_vertex(u) && #[trigger] h.outgoing[u].contains(e) implies h.has_edge(
        e,
    ) && h.endpoints[e].0 == u by {
        assert(g.outgoing[u].contains(e));
    }
    assert forall|e: E| #[trigger] h.has_edge(e) implies {
        &&& h.has_vertex(h.endpoints[e].0)
        &&& h.has_vertex(h.endpoints[e].1)
        &&& h.outgoing[h.endpoints[e].0].contains(e)
    } by {
        assert(g.has_edge(e));
        assert(g.outgoing[g.endpoints[e].0].contains(e));
    }
}

/// Adjacency is directed: in a graph made of two distinct vertices and one
/// edge from the first to the second, the first is adjacent to the second
/// and not the other way round.
pub proof fn lemma_adjacent_directed<V, E>(x: V, y: V, e: E)
    requires
        x != y,
    ensures
        ({
            let g = GraphModel::<V, E>::empty().add_vertex(x).add_vertex(y).add_edge(x, y, e);
            g.adjacent(x, y) && !g.adjacent(y, x)
        }),
{
    let g = GraphModel::<V, E>::empty().add_vertex(x).add_vertex(y).add_edge(x, y, e);
    assert(g.outgoing[x].contains(e));
    assert(g.outgoing[y] =~= Set::<E>::empty());
}

} // verus!
