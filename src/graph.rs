use std::collections::{BTreeMap, BTreeSet};
use vstd::laws_cmp::obeys_cmp;
use vstd::prelude::*;
use vstd::std_specs::iter::IteratorSpec;

use crate::api::{
    AddEdge, AddVertex, Adjacent, Connections, Edges, GetEdgeValue, GetVertexValue, RemoveEdge,
    RemoveVertex, Vertices,
};
use crate::error::Error;
use crate::key::GraphKey;
use crate::model::{lemma_remove_edges_step, lemma_remove_no_edges, GraphModel};

verus! {

/// An edge together with its key: `(key, (source, destination))`.
pub type Edge<V, E> = (E, (V, V));

/// A directed graph whose vertex index and edge index are `BTreeMap`s.
#[derive(PartialEq, Eq, Clone, Debug)]
pub struct BTreeGraph<V, E> where V: Ord, E: Ord {
    vertices: BTreeMap<V, BTreeSet<E>>,
    edges: BTreeMap<E, (V, V)>,
}

impl<V: Ord, E: Ord> View for BTreeGraph<V, E> {
    type V = GraphModel<V, E>;

    closed spec fn view(&self) -> GraphModel<V, E> {
        GraphModel {
            outgoing: self.vertices@.map_values(|s: BTreeSet<E>| s@),
            endpoints: self.edges@,
        }
    }
}

impl<V: GraphKey, E: GraphKey> BTreeGraph<V, E> {
    /// Creates a graph with no vertices and no edges.
    pub fn new() -> (g: Self)
        ensures
            g@ == GraphModel::<V, E>::empty(),
    {
        let vertices: BTreeMap<V, BTreeSet<E>> = BTreeMap::new();
        let edges: BTreeMap<E, (V, V)> = BTreeMap::new();
        let g = BTreeGraph { vertices, edges };
        assert(g@.outgoing =~= Map::empty());
        g
    }

    /// Builds a graph from its vertex index and its edge index, as they are.
    pub fn from_indices(vertices: BTreeMap<V, BTreeSet<E>>, edges: BTreeMap<E, (V, V)>) -> (g: Self)
        ensures
            g@.outgoing == vertices@.map_values(|s: BTreeSet<E>| s@),
            g@.endpoints == edges@,
    {
        BTreeGraph { vertices, edges }
    }

    /// Takes the graph apart into its vertex index and its edge index.
    pub fn into_indices(self) -> (r: (BTreeMap<V, BTreeSet<E>>, BTreeMap<E, (V, V)>))
        ensures
            r.0@.map_values(|s: BTreeSet<E>| s@) == self@.outgoing,
            r.1@ == self@.endpoints,
    {
        (self.vertices, self.edges)
    }
}

impl<V: GraphKey, E: GraphKey> Default for BTreeGraph<V, E> {
    fn default() -> (g: Self)
        ensures
            g@ == GraphModel::<V, E>::empty(),
    {
        Self::new()
    }
}

/// The keys of `m`, borrowed, as an ordered set.
fn key_refs<K: GraphKey, W>(m: &BTreeMap<K, W>) -> (r: BTreeSet<&K>)
    ensures
        forall|k: &K| r@.contains(k) <==> m@.contains_key(*k),
{
    proof {
        K::lemma_key_laws();
    }
    let ghost keys = m.keys().remaining();
    let mut r: BTreeSet<&K> = BTreeSet::new();
    for k in it: m.keys()
        invariant
            obeys_cmp::<&K>(),
            it.seq() == keys,
            forall|x: &K| r@.contains(x) <==> exists|j: int| 0 <= j < it.index() && keys[j] == x,
    {
        r.insert(k);
    }
    proof {
        assert(keys.unref().to_set() == m@.dom());
        assert forall|x: &K| r@.contains(x) <==> m@.contains_key(*x) by {
            if r@.contains(x) {
                let j = choose|j: int| 0 <= j < keys.len() && keys[j] == x;
                assert(keys.unref()[j] == *x);
            }
            if m@.contains_key(*x) {
                assert(keys.unref().to_set().contains(*x));
                let j = choose|j: int| 0 <= j < keys.len() && keys.unref()[j] == *x;
                assert(keys[j] == x);
            }
        }
    }
    r
}

impl<V: GraphKey, E: GraphKey> Vertices<V> for BTreeGraph<V, E> {
    fn vertices(&self) -> (r: BTreeSet<&V>)
        ensures
            forall|v: &V| r@.contains(v) <==> self@.has_vertex(*v),
    {
        key_refs(&self.vertices)
    }
}

impl<V: GraphKey, E: GraphKey> Edges<E> for BTreeGraph<V, E> {
    fn edges(&self) -> (r: BTreeSet<&E>)
        ensures
            forall|e: &E| r@.contains(e) <==> self@.has_edge(*e),
    {
        key_refs(&self.edges)
    }
}

impl<V: GraphKey, E: GraphKey> AddVertex<V, E> for BTreeGraph<V, E> {
    fn add_vertex(&mut self, x: V) -> (r: Option<BTreeSet<E>>)
        ensures
            final(self)@ == old(self)@.add_vertex(x),
            match r {
                Some(s) => old(self)@.has_vertex(x) && s@ == old(self)@.outgoing[x],
                None => !old(self)@.has_vertex(x),
            },
    {
        proof {
            V::lemma_key_laws();
        }
        let r = self.vertices.insert(x, BTreeSet::new());
        assert(self@.outgoing =~= old(self)@.add_vertex(x).outgoing);
        r
    }
}

impl<V: GraphKey, E: GraphKey> AddEdge<V, E> for BTreeGraph<V, E> {
    type Error = Error;

    fn add_edge(&mut self, x: V, y: V, e: E) -> (r: Result<Option<(V, V)>, Self::Error>)
        ensures
            match r {
                Ok(prev) => {
                    &&& old(self)@.has_vertex(x)
                    &&& old(self)@.has_vertex(y)
                    &&& final(self)@ == old(self)@.add_edge(x, y, e)
                    &&& match prev {
                        Some(p) => old(self)@.has_edge(e) && p == old(self)@.endpoints[e],
                        None => !old(self)@.has_edge(e),
                    }
                },
                Err(err) => {
                    &&& !(old(self)@.has_vertex(x) && old(self)@.has_vertex(y))
                    &&& err == Error::VertexDoesNotExist
                    &&& final(self)@ == old(self)@
                },
            },
    {
        proof {
            V::lemma_key_laws();
            E::lemma_key_laws();
        }
        if self.vertices.get(&y).is_some() {
            if let Some(edges) = self.vertices.get(&x) {
                let mut out: BTreeSet<E> = edges.clone();
                out.insert(e.copy_key());
                self.vertices.insert(x.copy_key(), out);
                let prev = self.edges.insert(e, (x, y));
                assert(self@.outgoing =~= old(self)@.add_edge(x, y, e).outgoing);
                return Ok(prev);
            }
        }
        Err(Error::VertexDoesNotExist)
    }
}

impl<V: GraphKey, E: GraphKey> GetEdgeValue<V, E> for BTreeGraph<V, E> {
    fn get_edge_value(&self, e: E) -> (r: Option<&(V, V)>)
        ensures
            match r {
                Some(p) => self@.has_edge(e) && *p == self@.endpoints[e],
                None => !self@.has_edge(e),
            },
    {
        proof {
            E::lemma_key_laws();
        }
        self.edges.get(&e)
    }
}

impl<V: GraphKey, E: GraphKey> GetVertexValue<V, E> for BTreeGraph<V, E> {
    fn get_vertex_value(&self, v: V) -> (r: Option<&BTreeSet<E>>)
        ensures
            match r {
                Some(s) => self@.has_vertex(v) && s@ == self@.outgoing[v],
                None => !self@.has_vertex(v),
            },
    {
        proof {
            V::lemma_key_laws();
        }
        self.vertices.get(&v)
    }
}

impl<V: GraphKey, E: GraphKey> RemoveEdge<V, E> for BTreeGraph<V, E> {
    type Error = Error;

    fn remove_edge(&mut self, e: E) -> (r: Result<(V, V), Self::Error>)
        ensures
            match r {
                Ok(p) => {
                    &&& old(self)@.has_edge(e)
                    &&& p == old(self)@.endpoints[e]
                    &&& final(self)@ == old(self)@.remove_edge(e)
                },
                Err(err) => {
                    &&& !old(self)@.has_edge(e)
                    &&& err == Error::EdgeDoesNotExist
                    &&& final(self)@ == old(self)@
                },
            },
    {
        proof {
            V::lemma_key_laws();
            E::lemma_key_laws();
        }
        match self.edges.remove(&e) {
            Some(pair) => {
                if let Some(out) = self.vertices.get(&pair.0) {
                    let mut out: BTreeSet<E> = out.clone();
                    out.remove(&e);
                    let source = pair.0.copy_key();
                    self.vertices.insert(source, out);
                }
                assert(self@.outgoing =~= old(self)@.remove_edge(e).outgoing);
                assert(self@.endpoints =~= old(self)@.remove_edge(e).endpoints);
                Ok(pair)
            },
            None => {
                assert(self.edges@ =~= old(self).edges@);
                Err(Error::EdgeDoesNotExist)
            },
        }
    }
}

impl<V: GraphKey, E: GraphKey> RemoveVertex<V, E> for BTreeGraph<V, E> {
    type Error = Error;

    fn remove_vertex(&mut self, v: V) -> (r: Result<BTreeSet<Edge<V, E>>, Self::Error>)
        ensures
            match r {
                Ok(removed) => {
                    &&& old(self)@.has_vertex(v)
                    &&& final(self)@ == old(self)@.remove_vertex(v)
                    &&& removed@ == old(self)@.incoming_edges(v)
                },
                Err(err) => {
                    &&& !old(self)@.has_vertex(v)
                    &&& err == Error::VertexDoesNotExist
                    &&& final(self)@ == old(self)@
                },
            },
    {
        proof {
            V::lemma_key_laws();
            E::lemma_key_laws();
        }
        if let Some(out) = self.vertices.get(&v) {
            // The vertex's own outgoing edges leave the edge index directly.
            let ghost out_keys = out.iter().remaining();
            for edge in it: out.iter()
                invariant
                    obeys_cmp::<E>(),
                    it.seq() == out_keys,
                    self.vertices == old(self).vertices,
                    self.edges@ == old(self).edges@.remove_keys(
                        Set::new(|k: E| exists|j: int| 0 <= j < it.index() && *out_keys[j] == k),
                    ),
            {
                self.edges.remove(edge);
            }
            assert forall|j: int| 0 <= j < out_keys.len() implies out@.contains(*out_keys[j]) by {
                assert(out_keys.unref()[j] == *out_keys[j]);
                assert(out_keys.unref().to_set().contains(out_keys.unref()[j]));
            }
            assert(self.edges@ =~= old(self)@.cut_outgoing(v).endpoints);
            let ghost cut = self@;

            // No index leads from `v` to the edges entering it: scan them all.
            let ghost entries = self.edges.iter().remaining();
            let mut incoming: BTreeSet<Edge<V, E>> = BTreeSet::new();
            for entry in it: self.edges.iter()
                invariant
                    obeys_cmp::<Edge<V, E>>(),
                    it.seq() == entries,
                    forall|t: Edge<V, E>|
                        incoming@.contains(t) <==> exists|j: int|
                            0 <= j < it.index() && *entries[j].0 == t.0 && *entries[j].1 == t.1
                                && t.1.1 == v,
            {
                proof {
                    V::lemma_key_laws();
                }
                let (k, pair) = entry;
                if pair.1 == v {
                    incoming.insert((k.copy_key(), (pair.0.copy_key(), pair.1.copy_key())));
                }
            }
            assert(incoming@ =~= old(self)@.incoming_edges(v));

            // Each entering edge is removed as `remove_edge` does, which also
            // drops it from its source's outgoing set.
            let ghost incs = incoming.iter().remaining();
            let ghost mut done: Set<E> = Set::empty();
            proof {
                lemma_remove_no_edges(cut);
            }
            assert forall|j: int| 0 <= j < incs.len() implies incoming@.contains(*incs[j]) by {
                assert(incs.unref()[j] == *incs[j]);
                assert(incs.unref().to_set().contains(incs.unref()[j]));
            }
            for t in it: incoming.iter()
                invariant
                    it.seq() == incs,
                    incs.no_duplicates(),
                    forall|j: int| 0 <= j < incs.len() ==> incoming@.contains(*#[trigger] incs[j]),
                    forall|t: Edge<V, E>|
                        #[trigger] incoming@.contains(t) ==> cut.has_edge(t.0) && cut.endpoints[t.0]
                            == t.1,
                    done == Set::new(|k: E| exists|j: int| 0 <= j < it.index() && incs[j].0 == k),
                    self@ == cut.remove_edges(done),
            {
                let key = t.0.copy_key();
                proof {
                    let i = it.index();
                    assert(incoming@.contains(*incs[i]));
                    if done.contains(key) {
                        let j = choose|j: int| 0 <= j < i && incs[j].0 == key;
                        assert(incoming@.contains(*incs[j]));
                        assert(*incs[j] == *incs[i]);
                    }
                    lemma_remove_edges_step(cut, done, key);
                    done = done.insert(key);
                    assert(done =~= Set::new(
                        |k: E| exists|j: int| 0 <= j < i + 1 && incs[j].0 == k,
                    ));
                }
                let removed = self.remove_edge(key);
                assert(removed is Ok);
            }
            assert(done =~= cut.edges_into(v)) by {
                assert forall|k: E| cut.edges_into(v).contains(k) implies done.contains(k) by {
                    let t = (k, cut.endpoints[k]);
                    assert(incoming@.contains(t));
                    assert(incs.unref().to_set().contains(t));
                    let j = choose|j: int| 0 <= j < incs.len() && incs.unref()[j] == t;
                    assert(incs[j].0 == k);
                }
            }
            self.vertices.remove(&v);
            assert(self@.outgoing =~= old(self)@.remove_vertex(v).outgoing);
            assert(self@.endpoints =~= old(self)@.remove_vertex(v).endpoints);
            return Ok(incoming);
        }
        Err(Error::VertexDoesNotExist)
    }
}

impl<V: GraphKey, E: GraphKey> Adjacent<V> for BTreeGraph<V, E> {
    type Error = Error;

    fn adjacent(&self, x: V, y: V) -> (r: Result<bool, Self::Error>)
        ensures
            match r {
                Ok(b) => self@.has_vertex(x) && self@.has_vertex(y) && b == self@.adjacent(x, y),
                Err(err) => {
                    &&& !(self@.has_vertex(x) && self@.has_vertex(y))
                    &&& err == Error::VertexDoesNotExist
                },
            },
    {
        proof {
            V::lemma_key_laws();
            E::lemma_key_laws();
        }
        if self.vertices.get(&y).is_some() {
            if let Some(out) = self.vertices.get(&x) {
                let ghost keys = out.iter().remaining();
                for edge in it: out.iter()
                    invariant
                        it.seq() == keys,
                        self@.has_vertex(x),
                        self@.has_vertex(y),
                        out@ == self@.outgoing[x],
                        forall|j: int|
                            0 <= j < it.index() ==> !(self@.has_edge(*#[trigger] keys[j])
                                && self@.endpoints[*keys[j]] == (x, y)),
                {
                    proof {
                        V::lemma_key_laws();
                        E::lemma_key_laws();
                    }
                    // A key that the edge index has lost is skipped.
                    if let Some(pair) = self.edges.get(edge) {
                        if pair.0 == x && pair.1 == y {
                            proof {
                                let j = it.index();
                                assert(keys.unref().to_set().contains(keys.unref()[j]));
                                assert(self@.outgoing[x].contains(*edge));
                                assert(self@.endpoints[*edge] == (x, y));
                            }
                            return Ok(true);
                        }
                    }
                }
                proof {
                    assert forall|e: E| #[trigger] out@.contains(e) implies !(self@.has_edge(e)
                        && self@.endpoints[e] == (x, y)) by {
                        assert(keys.unref().to_set().contains(e));
                        let j = choose|j: int| 0 <= j < keys.len() && keys.unref()[j] == e;
                        assert(*keys[j] == e);
                    }
                }
                return Ok(false);
            }
        }
        Err(Error::VertexDoesNotExist)
    }
}

impl<V: GraphKey, E: GraphKey> Connections<V> for BTreeGraph<V, E> {
    type Error = Error;

    fn connections(&self, x: V) -> (r: Result<BTreeSet<&V>, Self::Error>)
        ensures
            match r {
                Ok(s) => {
                    &&& self@.has_vertex(x)
                    &&& forall|y: &V| s@.contains(y) <==> self@.connections(x).contains(*y)
                },
                Err(err) => !self@.has_vertex(x) && err == Error::VertexDoesNotExist,
            },
    {
        proof {
            V::lemma_key_laws();
            E::lemma_key_laws();
        }
        match self.vertices.get(&x) {
            Some(out) => {
                let ghost keys = out.iter().remaining();
                let mut r: BTreeSet<&V> = BTreeSet::new();
                for edge in it: out.iter()
                    invariant
                        obeys_cmp::<&V>(),
                        it.seq() == keys,
                        self@.has_vertex(x),
                        out@ == self@.outgoing[x],
                        forall|y: &V|
                            r@.contains(y) <==> exists|j: int|
                                0 <= j < it.index() && self@.has_edge(*keys[j])
                                    && self@.endpoints[*keys[j]].1 == *y,
                {
                    proof {
                        E::lemma_key_laws();
                    }
                    // A key that the edge index has lost is skipped.
                    if let Some(pair) = self.edges.get(edge) {
                        r.insert(&pair.1);
                    }
                }
                proof {
                    assert forall|y: &V| r@.contains(y) <==> self@.connections(x).contains(*y) by {
                        if r@.contains(y) {
                            let j = choose|j: int|
                                0 <= j < keys.len() && self@.has_edge(*keys[j])
                                    && self@.endpoints[*keys[j]].1 == *y;
                            assert(keys.unref().to_set().contains(keys.unref()[j]));
                            assert(out@.contains(*keys[j]));
                        }
                        if self@.connections(x).contains(*y) {
                            let e = choose|e: E|
                                self@.outgoing[x].contains(e) && self@.has_edge(e)
                                    && self@.endpoints[e].1 == *y;
                            assert(keys.unref().to_set().contains(e));
                            let j = choose|j: int| 0 <= j < keys.len() && keys.unref()[j] == e;
                            assert(*keys[j] == e);
                        }
                    }
                }
                Ok(r)
            },
            None => Err(Error::VertexDoesNotExist),
        }
    }
}

} // verus!
