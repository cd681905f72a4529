//! The graph: two arenas, one of node records and one of edge records, and
//! the bookkeeping that keeps every node's incident-edge set in step with the
//! live edges.

use crate::arena::Arena;
use crate::cursor::{
    edges_of, lemma_select, select, AdjacentEdges, AdjacentNodes, EdgeIter, Neighbors, NodeIter,
};
use crate::handle::{Direction, Edge, Node};
use crate::model::{EdgeView, GraphView};
use crate::slots::MAX_SLOTS;
use std::collections::HashSet;
use std::ops::Index;
use vstd::prelude::*;
use vstd::set_lib::lemma_map_size;
use vstd::std_specs::hash::group_hash_axioms;

verus! {

broadcast use group_hash_axioms;

/// A node's record: the keys of the edges that touch it, and its weight.
pub struct NodeData<N> {
    pub(crate) edges: HashSet<usize>,
    pub(crate) weight: N,
}

/// An edge's record: the keys of its endpoints, and its weight.
pub struct EdgeData<E> {
    pub(crate) source: usize,
    pub(crate) target: usize,
    pub(crate) weight: E,
}

impl<N: Clone> NodeData<N> {
    /// `copy` names the same edges and holds a clone of the weight.
    pub closed spec fn cloned_as(&self, copy: &Self) -> bool {
        copy.edges@ == self.edges@ && cloned::<N>(self.weight, copy.weight)
    }
}

impl<N: Clone> Clone for NodeData<N> {
    fn clone(&self) -> (copy: Self)
        ensures
            self.cloned_as(&copy),
    {
        let incident = snapshot(&self.edges);
        let mut edges: HashSet<usize> = HashSet::new();
        let mut i: usize = 0;
        while i < incident.len()
            invariant
                i <= incident@.len(),
                edges@ == incident@.take(i as int).to_set(),
            decreases incident@.len() - i,
        {
            proof {
                incident@.take(i as int).lemma_push_to_set_commute(incident@[i as int]);
                assert(incident@.take(i as int + 1) =~= incident@.take(i as int).push(
                    incident@[i as int],
                ));
            }
            edges.insert(incident[i]);
            i += 1;
        }
        assert(incident@.take(i as int) =~= incident@);
        NodeData { edges, weight: self.weight.clone() }
    }
}

impl<E: Clone> EdgeData<E> {
    /// `copy` names the same endpoints and holds a clone of the weight.
    pub closed spec fn cloned_as(&self, copy: &Self) -> bool {
        copy.source == self.source && copy.target == self.target && cloned::<E>(
            self.weight,
            copy.weight,
        )
    }
}

impl<E: Clone> Clone for EdgeData<E> {
    fn clone(&self) -> (copy: Self)
        ensures
            self.cloned_as(&copy),
    {
        EdgeData { source: self.source, target: self.target, weight: self.weight.clone() }
    }
}

/// A directed multigraph with stable, reusable handles.
pub struct Graph<N, E> {
    nodes: Arena<NodeData<N>>,
    edges: Arena<EdgeData<E>>,
}

/// The edge record under `e` names `n` as an endpoint.
pub(crate) open spec fn joins<E>(edges: Map<usize, EdgeData<E>>, e: usize, n: usize) -> bool {
    edges.contains_key(e) && (edges[e].source == n || edges[e].target == n)
}

/// The members of `set` as a list, each once, in the order in which the set
/// yields them.
fn snapshot(set: &HashSet<usize>) -> (list: Vec<usize>)
    ensures
        list@.no_duplicates(),
        list@.to_set() == set@,
{
    let mut list: Vec<usize> = Vec::new();
    for e in it: set.iter()
        invariant
            list@ == it.seq().unref().take(it.index()),
            it.seq().unref().to_set() == set@,
            it.index() == it.seq().len() ==> list@ == it.seq().unref(),
    {
        list.push(*e);
    }
    list
}

impl<N, E> View for Graph<N, E> {
    type V = GraphView<N, E>;

    closed spec fn view(&self) -> GraphView<N, E> {
        GraphView {
            nodes: Map::new(
                |n: Node| self.nodes@.contains_key(n.0),
                |n: Node| self.nodes@[n.0].weight,
            ),
            edges: Map::new(
                |e: Edge| self.edges@.contains_key(e.0),
                |e: Edge|
                    EdgeView {
                        source: Node(self.edges@[e.0].source),
                        target: Node(self.edges@[e.0].target),
                        weight: self.edges@[e.0].weight,
                    },
            ),
        }
    }
}

impl<N, E> Graph<N, E> {
    /// Both arenas are sound, every live edge joins live nodes, and the
    /// incident-edge set of every live node holds exactly the live edges that
    /// touch it.
    pub closed spec fn wf(&self) -> bool {
        &&& self.nodes.wf()
        &&& self.edges.wf()
        &&& forall|e: usize| #[trigger]
            self.edges@.contains_key(e) ==> self.nodes@.contains_key(self.edges@[e].source)
                && self.nodes@.contains_key(self.edges@[e].target)
        &&& forall|n: usize, e: usize|
            self.nodes@.contains_key(n) ==> (#[trigger] self.nodes@[n].edges@.contains(e)
                <==> joins(self.edges@, e, n))
    }

    /// The node handles handed out since the graph was new or cleared: the
    /// live ones, and those of removed nodes, which wait to be handed out
    /// again. A handle kept from a removed node may so come to name a node
    /// that was added later.
    pub closed spec fn issued_nodes(&self) -> Set<Node> {
        Set::new(|n: Node| n.0 < self.nodes.span())
    }

    /// The edge handles handed out since the graph was new or cleared: the
    /// live ones, and those of removed edges, which wait to be handed out
    /// again.
    pub closed spec fn issued_edges(&self) -> Set<Edge> {
        Set::new(|e: Edge| e.0 < self.edges.span())
    }

    /// The model has as many nodes and edges as the arenas hold records.
    proof fn lemma_populations(&self)
        requires
            self.wf(),
        ensures
            self@.nodes.dom().finite(),
            self@.edges.dom().finite(),
            self@.nodes.len() == self.nodes@.len(),
            self@.edges.len() == self.edges@.len(),
    {
        self.nodes.lemma_finite();
        self.edges.lemma_finite();
        let to_node = |i: usize| Node(i);
        let to_edge = |i: usize| Edge(i);
        assert(self.nodes@.dom().map(to_node) =~= self@.nodes.dom());
        lemma_map_size(self.nodes@.dom(), self@.nodes.dom(), to_node);
        assert(self.edges@.dom().map(to_edge) =~= self@.edges.dom());
        lemma_map_size(self.edges@.dom(), self@.edges.dom(), to_edge);
    }

    /// A sound graph has a sound model, and every live handle was handed out.
    pub proof fn lemma_view_wf(&self)
        requires
            self.wf(),
        ensures
            self@.wf(),
            self@.nodes.dom().subset_of(self.issued_nodes()),
            self@.edges.dom().subset_of(self.issued_edges()),
    {
        self.lemma_populations();
        self.nodes.lemma_finite();
        self.edges.lemma_finite();
    }

    /// Creates an empty graph.
    pub fn new() -> (graph: Graph<N, E>)
        ensures
            graph.wf(),
            graph@ == GraphView::<N, E>::empty(),
            graph.issued_nodes() == Set::<Node>::empty(),
            graph.issued_edges() == Set::<Edge>::empty(),
    {
        Graph { nodes: Arena::new(), edges: Arena::new() }
    }

    /// Creates an empty graph with room for the given numbers of nodes and
    /// edges.
    pub fn with_capacity(nb_nodes: usize, nb_edges: usize) -> (graph: Graph<N, E>)
        requires
            nb_nodes <= MAX_SLOTS,
            nb_edges <= MAX_SLOTS,
        ensures
            graph.wf(),
            graph@ == GraphView::<N, E>::empty(),
            graph.issued_nodes() == Set::<Node>::empty(),
            graph.issued_edges() == Set::<Edge>::empty(),
    {
        Graph { nodes: Arena::with_capacity(nb_nodes), edges: Arena::with_capacity(nb_edges) }
    }

    /// Removes every node and every edge. The graph then hands out handles
    /// as a new one does.
    pub fn clear(&mut self)
        ensures
            final(self).wf(),
            final(self)@ == GraphView::<N, E>::empty(),
            final(self).issued_nodes() == Set::<Node>::empty(),
            final(self).issued_edges() == Set::<Edge>::empty(),
    {
        self.nodes.clear();
        self.edges.clear();
    }

    /// Adds a node with no edge and returns its handle: one that no live node
    /// had. The handle of a removed node is handed out again before a new one
    /// is made.
    pub fn add_node(&mut self, node_weight: N) -> (node: Node)
        requires
            old(self).wf(),
            old(self)@.nodes.len() < MAX_SLOTS,
        ensures
            final(self).wf(),
            !old(self)@.nodes.contains_key(node),
            final(self)@ == old(self)@.add_node(node, node_weight),
            final(self).issued_nodes() == old(self).issued_nodes().insert(node),
            final(self).issued_edges() == old(self).issued_edges(),
            old(self).issued_nodes().contains(node) <==> exists|h: Node|
                old(self).issued_nodes().contains(h) && !old(self)@.nodes.contains_key(h),
    {
        proof {
            self.lemma_populations();
        }
        Node(self.nodes.put(NodeData { edges: HashSet::new(), weight: node_weight }))
    }

    /// Removes the node `node` and every edge that touches it. Each such
    /// edge leaves the record of its other endpoint too, so no surviving node
    /// is left pointing at an edge that is gone.
    pub fn remove_node(&mut self, node: Node)
        requires
            old(self).wf(),
            old(self)@.nodes.contains_key(node),
        ensures
            final(self).wf(),
            final(self)@ == old(self)@.remove_node(node),
            final(self).issued_nodes() == old(self).issued_nodes(),
            final(self).issued_edges() == old(self).issued_edges(),
    {
        let record = self.nodes.take(node.0).unwrap();
        let incident = snapshot(&record.edges);
        let mut i: usize = 0;
        while i < incident.len()
            invariant
                i <= incident@.len(),
                incident@.no_duplicates(),
                old(self).wf(),
                old(self).nodes@.contains_key(node.0),
                incident@.to_set() == old(self).nodes@[node.0].edges@,
                self.nodes.wf(),
                self.edges.wf(),
                self.nodes.span() == old(self).nodes.span(),
                self.edges.span() == old(self).edges.span(),
                // The edges taken so far are gone from the edge arena and from
                // the record of every surviving node; nothing else has changed.
                self.nodes@.dom() == old(self).nodes@.dom().remove(node.0),
                self.edges@ == old(self).edges@.remove_keys(incident@.take(i as int).to_set()),
                forall|m: usize| #[trigger]
                    self.nodes@.contains_key(m) ==> self.nodes@[m].weight == old(
                        self,
                    ).nodes@[m].weight && self.nodes@[m].edges@ == old(
                        self,
                    ).nodes@[m].edges@.difference(incident@.take(i as int).to_set()),
            decreases incident@.len() - i,
        {
            let e = incident[i];
            proof {
                incident@.take(i as int).lemma_push_to_set_commute(e);
                assert(incident@.take(i as int + 1) =~= incident@.take(i as int).push(e));
                assert(incident@.to_set().contains(e));
            }
            let edge = self.edges.take(e).unwrap();
            if edge.source != node.0 {
                self.nodes.get_mut(edge.source).unwrap().edges.remove(&e);
            }
            if edge.target != node.0 {
                self.nodes.get_mut(edge.target).unwrap().edges.remove(&e);
            }
            i += 1;
        }
        assert(incident@.take(i as int) =~= incident@);
    }

    /// Whether `node` refers to a live node.
    pub fn contains_node(&self, node: Node) -> (live: bool)
        ensures
            live == self@.nodes.contains_key(node),
    {
        self.nodes.contains(node.0)
    }

    /// Whether `edge` refers to a live edge.
    pub fn contains_edge(&self, edge: Edge) -> (live: bool)
        ensures
            live == self@.edges.contains_key(edge),
    {
        self.edges.contains(edge.0)
    }

    /// The number of live nodes.
    pub fn nb_nodes(&self) -> (count: usize)
        requires
            self.wf(),
        ensures
            count == self@.nodes.len(),
    {
        proof {
            self.lemma_populations();
        }
        self.nodes.len()
    }

    /// The number of live edges.
    pub fn nb_edges(&self) -> (count: usize)
        requires
            self.wf(),
        ensures
            count == self@.edges.len(),
    {
        proof {
            self.lemma_populations();
        }
        self.edges.len()
    }

    /// Adds an edge from `source_node` to `target_node` and returns its
    /// handle: one that no live edge had. Both endpoints record the edge; a
    /// self-loop is recorded once.
    pub fn add_edge(&mut self, source_node: Node, target_node: Node, edge_weight: E) -> (edge: Edge)
        requires
            old(self).wf(),
            old(self)@.nodes.contains_key(source_node),
            old(self)@.nodes.contains_key(target_node),
            old(self)@.edges.len() < MAX_SLOTS,
        ensures
            final(self).wf(),
            !old(self)@.edges.contains_key(edge),
            final(self)@ == old(self)@.add_edge(edge, source_node, target_node, edge_weight),
            final(self).issued_nodes() == old(self).issued_nodes(),
            final(self).issued_edges() == old(self).issued_edges().insert(edge),
            old(self).issued_edges().contains(edge) <==> exists|h: Edge|
                old(self).issued_edges().contains(h) && !old(self)@.edges.contains_key(h),
    {
        proof {
            self.lemma_populations();
        }
        let edge = Edge(
            self.edges.put(
                EdgeData { source: source_node.0, target: target_node.0, weight: edge_weight },
            ),
        );
        self.nodes.get_mut(source_node.0).unwrap().edges.insert(edge.0);
        self.nodes.get_mut(target_node.0).unwrap().edges.insert(edge.0);
        edge
    }

    /// Removes the edge `edge` from the graph and from the records of both
    /// its endpoints.
    pub fn remove_edge(&mut self, edge: Edge)
        requires
            old(self).wf(),
            old(self)@.edges.contains_key(edge),
        ensures
            final(self).wf(),
            final(self)@ == old(self)@.remove_edge(edge),
            final(self).issued_nodes() == old(self).issued_nodes(),
            final(self).issued_edges() == old(self).issued_edges(),
    {
        let record = self.edges.take(edge.0).unwrap();
        self.nodes.get_mut(record.source).unwrap().edges.remove(&edge.0);
        self.nodes.get_mut(record.target).unwrap().edges.remove(&edge.0);
    }

    /// Asks for room for `nb_nodes` more nodes and `nb_edges` more edges.
    /// Nothing that can be seen of the graph changes.
    pub fn reserve(&mut self, nb_nodes: usize, nb_edges: usize)
        requires
            old(self).wf(),
            old(self)@.nodes.len() + nb_nodes <= MAX_SLOTS,
            old(self)@.edges.len() + nb_edges <= MAX_SLOTS,
        ensures
            final(self).wf(),
            final(self)@ == old(self)@,
            final(self).issued_nodes() == old(self).issued_nodes(),
            final(self).issued_edges() == old(self).issued_edges(),
    {
        self.reserve_nodes(nb_nodes);
        self.reserve_edges(nb_edges);
    }

    /// Asks for room for `nb_nodes` more nodes. Nothing that can be seen of
    /// the graph changes.
    pub fn reserve_nodes(&mut self, nb_nodes: usize)
        requires
            old(self).wf(),
            old(self)@.nodes.len() + nb_nodes <= MAX_SLOTS,
        ensures
            final(self).wf(),
            final(self)@ == old(self)@,
            final(self).issued_nodes() == old(self).issued_nodes(),
            final(self).issued_edges() == old(self).issued_edges(),
    {
        proof {
            self.lemma_populations();
        }
        self.nodes.reserve(nb_nodes);
    }

    /// Asks for room for `nb_edges` more edges. Nothing that can be seen of
    /// the graph changes.
    pub fn reserve_edges(&mut self, nb_edges: usize)
        requires
            old(self).wf(),
            old(self)@.edges.len() + nb_edges <= MAX_SLOTS,
        ensures
            final(self).wf(),
            final(self)@ == old(self)@,
            final(self).issued_nodes() == old(self).issued_nodes(),
            final(self).issued_edges() == old(self).issued_edges(),
    {
        proof {
            self.lemma_populations();
        }
        self.edges.reserve(nb_edges);
    }

    /// A cursor over the handles of the live nodes: each once, in an order
    /// that is left open.
    pub fn nodes(&self) -> (cursor: NodeIter<'_, N>)
        ensures
            cursor.remaining().no_duplicates(),
            cursor.remaining().to_set() == self@.nodes.dom(),
    {
        let cursor = NodeIter::new(&self.nodes);
        cursor
    }

    /// A cursor over the handles of the live edges: each once, in an order
    /// that is left open.
    pub fn edges(&self) -> (cursor: EdgeIter<'_, E>)
        ensures
            cursor.remaining().no_duplicates(),
            cursor.remaining().to_set() == self@.edges.dom(),
    {
        let cursor = EdgeIter::new(&self.edges);
        cursor
    }

    /// The weight of `node`, or `None` where `node` is not live.
    pub fn node_weight(&self, node: Node) -> (weight: Option<&N>)
        requires
            self.wf(),
        ensures
            match weight {
                Some(w) => self@.nodes.contains_key(node) && *w == self@.nodes[node],
                None => !self@.nodes.contains_key(node),
            },
    {
        match self.nodes.get(node.0) {
            Some(record) => Some(&record.weight),
            None => None,
        }
    }

    /// The weight of `edge`, or `None` where `edge` is not live.
    pub fn edge_weight(&self, edge: Edge) -> (weight: Option<&E>)
        requires
            self.wf(),
        ensures
            match weight {
                Some(w) => self@.edges.contains_key(edge) && *w == self@.edges[edge].weight,
                None => !self@.edges.contains_key(edge),
            },
    {
        match self.edges.get(edge.0) {
            Some(record) => Some(&record.weight),
            None => None,
        }
    }

    /// The source and the target of `edge`.
    pub fn edge_nodes(&self, edge: Edge) -> (ends: (Node, Node))
        requires
            self.wf(),
            self@.edges.contains_key(edge),
        ensures
            ends == (self@.edges[edge].source, self@.edges[edge].target),
    {
        let record = self.edges.get(edge.0).unwrap();
        (Node(record.source), Node(record.target))
    }

    /// The source of `edge`.
    pub fn edge_source(&self, edge: Edge) -> (source: Node)
        requires
            self.wf(),
            self@.edges.contains_key(edge),
        ensures
            source == self@.edges[edge].source,
    {
        self.edge_nodes(edge).0
    }

    /// The target of `edge`.
    pub fn edge_target(&self, edge: Edge) -> (target: Node)
        requires
            self.wf(),
            self@.edges.contains_key(edge),
        ensures
            target == self@.edges[edge].target,
    {
        self.edge_nodes(edge).1
    }

    /// A cursor over the edges that touch `node`, each with the endpoint that
    /// lies in `direction`, but for the edges on which that endpoint is `node`
    /// itself.
    fn neighbors(&self, node: Node, direction: Direction) -> (cursor: Neighbors<'_, E>)
        requires
            self.wf(),
            self@.nodes.contains_key(node),
        ensures
            edges_of(cursor.remaining()).no_duplicates(),
            edges_of(cursor.remaining()).to_set() == self@.adjacent_edges(node, direction),
            forall|i: int|
                0 <= i < cursor.remaining().len() ==> (#[trigger] cursor.remaining()[i]).1
                    == self@.opposite(cursor.remaining()[i].0, direction),
    {
        let record = self.nodes.get(node.0).unwrap();
        let incident = snapshot(&record.edges);
        assert forall|i: int| 0 <= i < incident@.len() implies self.edges@.contains_key(
            #[trigger] incident@[i],
        ) by {
            assert(incident@.to_set().contains(incident@[i]));
            assert(joins(self.edges@, incident@[i], node.0));
        }
        proof {
            lemma_select(self.edges@, node.0, direction, incident@);
            let chosen = edges_of(select(self.edges@, node.0, direction, incident@));
            assert forall|e: Edge| chosen.to_set().contains(e) <==> self@.adjacent_edges(
                node,
                direction,
            ).contains(e) by {
                assert(incident@.contains(e.0) <==> incident@.to_set().contains(e.0));
                assert(record.edges@.contains(e.0) <==> joins(self.edges@, e.0, node.0));
            }
            let pairs = select(self.edges@, node.0, direction, incident@);
            assert forall|i: int| 0 <= i < pairs.len() implies (#[trigger] pairs[i]).1
                == self@.opposite(pairs[i].0, direction) by {
                assert(chosen[i] == pairs[i].0);
                assert(chosen.contains(pairs[i].0));
                assert(incident@.to_set().contains(pairs[i].0.0));
            }
        }
        Neighbors::new(&self.edges, incident, node, direction)
    }

    /// A cursor over the nodes next to `node` in `direction`: the far end of
    /// every edge that joins `node` to another node, once for each such edge.
    /// `node` itself never comes, whatever self-loops it has.
    pub fn adjacent_nodes(&self, node: Node, direction: Direction) -> (cursor: AdjacentNodes<'_, E>)
        requires
            self.wf(),
            self@.nodes.contains_key(node),
        ensures
            cursor.remaining_edges().no_duplicates(),
            cursor.remaining_edges().to_set() == self@.adjacent_edges(node, direction),
            cursor.remaining().len() == cursor.remaining_edges().len(),
            forall|i: int|
                0 <= i < cursor.remaining().len() ==> #[trigger] cursor.remaining()[i]
                    == self@.opposite(cursor.remaining_edges()[i], direction),
            !cursor.remaining().contains(node),
    {
        let neighbors = self.neighbors(node, direction);
        let cursor = AdjacentNodes::new(neighbors);
        assert forall|i: int| 0 <= i < cursor.remaining().len() implies {
            &&& #[trigger] cursor.remaining()[i] == self@.opposite(
                cursor.remaining_edges()[i],
                direction,
            )
            &&& cursor.remaining()[i] != node
        } by {
            assert(neighbors.remaining()[i].1 == cursor.remaining()[i]);
            assert(cursor.remaining_edges().to_set().contains(cursor.remaining_edges()[i]));
        }
        cursor
    }

    /// The nodes from which an edge arrives at `node`.
    pub fn incoming_nodes(&self, node: Node) -> (cursor: AdjacentNodes<'_, E>)
        requires
            self.wf(),
            self@.nodes.contains_key(node),
        ensures
            cursor.remaining_edges().no_duplicates(),
            cursor.remaining_edges().to_set() == self@.adjacent_edges(node, Direction::Incoming),
            cursor.remaining().len() == cursor.remaining_edges().len(),
            forall|i: int|
                0 <= i < cursor.remaining().len() ==> #[trigger] cursor.remaining()[i]
                    == self@.edges[cursor.remaining_edges()[i]].source,
            !cursor.remaining().contains(node),
    {
        self.adjacent_nodes(node, Direction::Incoming)
    }

    /// The nodes at which an edge from `node` arrives.
    pub fn outgoing_nodes(&self, node: Node) -> (cursor: AdjacentNodes<'_, E>)
        requires
            self.wf(),
            self@.nodes.contains_key(node),
        ensures
            cursor.remaining_edges().no_duplicates(),
            cursor.remaining_edges().to_set() == self@.adjacent_edges(node, Direction::Outgoing),
            cursor.remaining().len() == cursor.remaining_edges().len(),
            forall|i: int|
                0 <= i < cursor.remaining().len() ==> #[trigger] cursor.remaining()[i]
                    == self@.edges[cursor.remaining_edges()[i]].target,
            !cursor.remaining().contains(node),
    {
        self.adjacent_nodes(node, Direction::Outgoing)
    }

    /// A cursor over the edges that join `node` to another node in
    /// `direction`: each once, in an order that is left open. A self-loop
    /// never comes.
    pub fn adjacent_edges(&self, node: Node, direction: Direction) -> (cursor: AdjacentEdges<'_, E>)
        requires
            self.wf(),
            self@.nodes.contains_key(node),
        ensures
            cursor.remaining().no_duplicates(),
            cursor.remaining().to_set() == self@.adjacent_edges(node, direction),
    {
        AdjacentEdges::new(self.neighbors(node, direction))
    }

    /// The edges that arrive at `node` from another node.
    pub fn incoming_edges(&self, node: Node) -> (cursor: AdjacentEdges<'_, E>)
        requires
            self.wf(),
            self@.nodes.contains_key(node),
        ensures
            cursor.remaining().no_duplicates(),
            cursor.remaining().to_set() == self@.adjacent_edges(node, Direction::Incoming),
    {
        self.adjacent_edges(node, Direction::Incoming)
    }

    /// The edges that leave `node` for another node.
    pub fn outgoing_edges(&self, node: Node) -> (cursor: AdjacentEdges<'_, E>)
        requires
            self.wf(),
            self@.nodes.contains_key(node),
        ensures
            cursor.remaining().no_duplicates(),
            cursor.remaining().to_set() == self@.adjacent_edges(node, Direction::Outgoing),
    {
        self.adjacent_edges(node, Direction::Outgoing)
    }

    /// The weight of `node` for writing, or `None` where `node` is not live.
    /// Nothing but that weight can change through the reference.
    pub fn node_weight_mut(&mut self, node: Node) -> (weight: Option<&mut N>)
        requires
            old(self).wf(),
        ensures
            final(self).wf(),
            final(self).issued_nodes() == old(self).issued_nodes(),
            final(self).issued_edges() == old(self).issued_edges(),
            match weight {
                Some(w) => {
                    &&& old(self)@.nodes.contains_key(node)
                    &&& *w == old(self)@.nodes[node]
                    &&& final(self)@ == old(self)@.set_node_weight(node, *final(w))
                },
                None => !old(self)@.nodes.contains_key(node) && final(self)@ == old(self)@,
            },
    {
        match self.nodes.get_mut(node.0) {
            Some(record) => Some(&mut record.weight),
            None => None,
        }
    }

    /// The weight of `edge` for writing, or `None` where `edge` is not live.
    /// Nothing but that weight can change through the reference.
    pub fn edge_weight_mut(&mut self, edge: Edge) -> (weight: Option<&mut E>)
        requires
            old(self).wf(),
        ensures
            final(self).wf(),
            final(self).issued_nodes() == old(self).issued_nodes(),
            final(self).issued_edges() == old(self).issued_edges(),
            match weight {
                Some(w) => {
                    &&& old(self)@.edges.contains_key(edge)
                    &&& *w == old(self)@.edges[edge].weight
                    &&& final(self)@ == old(self)@.set_edge_weight(edge, *final(w))
                },
                None => !old(self)@.edges.contains_key(edge) && final(self)@ == old(self)@,
            },
    {
        match self.edges.get_mut(edge.0) {
            Some(record) => Some(&mut record.weight),
            None => None,
        }
    }
}

impl<N, E> Index<Node> for Graph<N, E> {
    type Output = N;

    /// The weight of the live node `node`.
    fn index(&self, node: Node) -> (weight: &N)
        ensures
            *weight == self@.nodes[node],
    {
        self.node_weight(node).unwrap()
    }
}

impl<N, E> vstd::std_specs::core::IndexSpecImpl<Node> for Graph<N, E> {
    open spec fn index_req(&self, index: &Node) -> bool {
        self.wf() && self@.nodes.contains_key(*index)
    }
}

impl<N, E> Index<Edge> for Graph<N, E> {
    type Output = E;

    /// The weight of the live edge `edge`.
    fn index(&self, edge: Edge) -> (weight: &E)
        ensures
            *weight == self@.edges[edge].weight,
    {
        self.edge_weight(edge).unwrap()
    }
}

impl<N, E> vstd::std_specs::core::IndexSpecImpl<Edge> for Graph<N, E> {
    open spec fn index_req(&self, index: &Edge) -> bool {
        self.wf() && self@.edges.contains_key(*index)
    }
}

impl<N: Clone, E: Clone> Clone for Graph<N, E> {
    /// The copy has the same handles live, joined in the same way, each with
    /// a clone of its weight. It shares nothing with the graph it was made
    /// from.
    fn clone(&self) -> (copy: Self)
        ensures
            self.wf() ==> {
                &&& copy.wf()
                &&& copy.issued_nodes() == self.issued_nodes()
                &&& copy.issued_edges() == self.issued_edges()
                &&& copy@.nodes.dom() == self@.nodes.dom()
                &&& copy@.edges.dom() == self@.edges.dom()
                &&& forall|n: Node| #[trigger]
                    copy@.nodes.contains_key(n) ==> cloned::<N>(self@.nodes[n], copy@.nodes[n])
                &&& forall|e: Edge| #[trigger]
                    copy@.edges.contains_key(e) ==> {
                        &&& copy@.edges[e].source == self@.edges[e].source
                        &&& copy@.edges[e].target == self@.edges[e].target
                        &&& cloned::<E>(self@.edges[e].weight, copy@.edges[e].weight)
                    }
            },
    {
        Graph { nodes: self.nodes.clone(), edges: self.edges.clone() }
    }
}

} // verus!
