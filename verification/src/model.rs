//! The mathematical model of a graph: what its contracts speak of.

use crate::handle::{Direction, Edge, Node};
use vstd::prelude::*;

verus! {

/// What the model knows of one edge.
#[verifier::ext_equal]
pub struct EdgeView<E> {
    pub source: Node,
    pub target: Node,
    pub weight: E,
}

/// A directed multigraph as two maps: live nodes to their weights, live edges
/// to their endpoints and weights.
#[verifier::ext_equal]
pub struct GraphView<N, E> {
    pub nodes: Map<Node, N>,
    pub edges: Map<Edge, EdgeView<E>>,
}

impl<N, E> GraphView<N, E> {
    /// The graph with no node and no edge.
    pub open spec fn empty() -> Self {
        GraphView { nodes: Map::empty(), edges: Map::empty() }
    }

    /// Both populations are finite and every live edge joins live nodes.
    pub open spec fn wf(self) -> bool {
        &&& self.nodes.dom().finite()
        &&& self.edges.dom().finite()
        &&& forall|e: Edge| #[trigger]
            self.edges.contains_key(e) ==> self.nodes.contains_key(self.edges[e].source)
                && self.nodes.contains_key(self.edges[e].target)
    }

    /// `e` is live and has `n` as its source or as its target.
    pub open spec fn touches(self, e: Edge, n: Node) -> bool {
        self.edges.contains_key(e) && (self.edges[e].source == n || self.edges[e].target == n)
    }

    /// The edges that touch `n`, self-loops included.
    pub open spec fn incident_edges(self, n: Node) -> Set<Edge> {
        Set::new(|e: Edge| self.touches(e, n))
    }

    /// The endpoint of `e` that a node looking in `direction` sees as its
    /// neighbour: the source of an incoming edge, the target of an outgoing one.
    pub open spec fn opposite(self, e: Edge, direction: Direction) -> Node {
        match direction {
            Direction::Incoming => self.edges[e].source,
            Direction::Outgoing => self.edges[e].target,
        }
    }

    /// The edges that `n` reports in `direction`: those that touch `n` and
    /// whose opposite endpoint is another node. A self-loop is in neither
    /// direction's result.
    pub open spec fn adjacent_edges(self, n: Node, direction: Direction) -> Set<Edge> {
        Set::new(|e: Edge| self.touches(e, n) && self.opposite(e, direction) != n)
    }

    /// The graph after a node with weight `weight` appeared under handle `n`.
    pub open spec fn add_node(self, n: Node, weight: N) -> Self {
        GraphView { nodes: self.nodes.insert(n, weight), edges: self.edges }
    }

    /// The graph after one node after another appeared: the node under
    /// `handles[i]` with weight `weights[i]`, in the order of the sequences.
    pub open spec fn add_nodes(self, handles: Seq<Node>, weights: Seq<N>) -> Self
        recommends
            handles.len() == weights.len(),
        decreases handles.len(),
    {
        if handles.len() == 0 {
            self
        } else {
            self.add_nodes(handles.drop_last(), weights.drop_last()).add_node(
                handles.last(),
                weights.last(),
            )
        }
    }

    /// The graph after an edge from `source` to `target` appeared under
    /// handle `e`.
    pub open spec fn add_edge(self, e: Edge, source: Node, target: Node, weight: E) -> Self {
        GraphView {
            nodes: self.nodes,
            edges: self.edges.insert(e, EdgeView { source, target, weight }),
        }
    }

    /// The graph without the edge `e`.
    pub open spec fn remove_edge(self, e: Edge) -> Self {
        GraphView { nodes: self.nodes, edges: self.edges.remove(e) }
    }

    /// The graph without the node `n` and without every edge that touched it.
    pub open spec fn remove_node(self, n: Node) -> Self {
        GraphView {
            nodes: self.nodes.remove(n),
            edges: self.edges.remove_keys(self.incident_edges(n)),
        }
    }

    /// The graph with the weight of the live node `n` replaced.
    pub open spec fn set_node_weight(self, n: Node, weight: N) -> Self {
        GraphView { nodes: self.nodes.insert(n, weight), edges: self.edges }
    }

    /// The graph with the weight of the live edge `e` replaced.
    pub open spec fn set_edge_weight(self, e: Edge, weight: E) -> Self {
        GraphView {
            nodes: self.nodes,
            edges: self.edges.insert(
                e,
                EdgeView { source: self.edges[e].source, target: self.edges[e].target, weight },
            ),
        }
    }
}

} // verus!
