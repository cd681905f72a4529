//! What holds of every graph: statements over the model, each proved once.
//!
//! The contracts of [`crate::graph::Graph`] say how each operation changes the
//! model. The lemmas here say what those changes mean for the populations,
//! the weights and the neighbour queries.

use crate::handle::{Direction, Edge, Node};
use crate::model::{EdgeView, GraphView};
use vstd::prelude::*;

verus! {

/// Adding a node keeps a sound graph sound.
pub proof fn add_node_preserves_wf<N, E>(v: GraphView<N, E>, n: Node, weight: N)
    requires
        v.wf(),
    ensures
        v.add_node(n, weight).wf(),
{
}

/// Adding an edge between live nodes keeps a sound graph sound.
pub proof fn add_edge_preserves_wf<N, E>(
    v: GraphView<N, E>,
    e: Edge,
    source: Node,
    target: Node,
    weight: E,
)
    requires
        v.wf(),
        v.nodes.contains_key(source),
        v.nodes.contains_key(target),
    ensures
        v.add_edge(e, source, target, weight).wf(),
{
}

/// Removing an edge keeps a sound graph sound.
pub proof fn remove_edge_preserves_wf<N, E>(v: GraphView<N, E>, e: Edge)
    requires
        v.wf(),
    ensures
        v.remove_edge(e).wf(),
{
}

/// Removing a node keeps a sound graph sound: the edges that touched it go
/// with it, so no edge is left without an endpoint.
pub proof fn remove_node_preserves_wf<N, E>(v: GraphView<N, E>, n: Node)
    requires
        v.wf(),
    ensures
        v.remove_node(n).wf(),
{
    let after = v.remove_node(n);
    vstd::set_lib::lemma_len_subset(after.edges.dom(), v.edges.dom());
}

/// A node added under a handle that was not live is counted once; the edges
/// are as they were.
pub proof fn add_node_counts_one<N, E>(v: GraphView<N, E>, n: Node, weight: N)
    requires
        v.wf(),
        !v.nodes.contains_key(n),
    ensures
        v.add_node(n, weight).nodes.len() == v.nodes.len() + 1,
        v.add_node(n, weight).edges == v.edges,
{
}

/// However many nodes are added, each under a handle that was not live, each
/// is counted once, is found under its handle with its weight, and no node
/// that was there is lost.
pub proof fn add_nodes_counts_each<N, E>(v: GraphView<N, E>, handles: Seq<Node>, weights: Seq<N>)
    requires
        v.wf(),
        handles.len() == weights.len(),
        handles.no_duplicates(),
        forall|i: int| 0 <= i < handles.len() ==> !v.nodes.contains_key(#[trigger] handles[i]),
    ensures
        v.add_nodes(handles, weights).wf(),
        v.add_nodes(handles, weights).nodes.len() == v.nodes.len() + handles.len(),
        v.add_nodes(handles, weights).nodes.dom() == v.nodes.dom().union(handles.to_set()),
        v.add_nodes(handles, weights).edges == v.edges,
        forall|i: int|
            0 <= i < handles.len() ==> v.add_nodes(handles, weights).nodes[#[trigger] handles[i]]
                == weights[i],
        forall|n: Node| #[trigger]
            v.nodes.contains_key(n) ==> v.add_nodes(handles, weights).nodes[n] == v.nodes[n],
    decreases handles.len(),
{
    if handles.len() > 0 {
        let before = v.add_nodes(handles.drop_last(), weights.drop_last());
        add_nodes_counts_each(v, handles.drop_last(), weights.drop_last());
        assert(!before.nodes.contains_key(handles.last())) by {
            if handles.drop_last().to_set().contains(handles.last()) {
                let j = choose|j: int|
                    0 <= j < handles.drop_last().len() && handles.drop_last()[j] == handles.last();
                assert(handles[j] == handles[handles.len() - 1]);
            }
        }
        assert(handles.to_set() =~= handles.drop_last().to_set().insert(handles.last())) by {
            assert(handles =~= handles.drop_last().push(handles.last()));
            handles.drop_last().lemma_push_to_set_commute(handles.last());
        }
        assert forall|i: int| 0 <= i < handles.len() implies v.add_nodes(
            handles,
            weights,
        ).nodes[#[trigger] handles[i]] == weights[i] by {
            if i < handles.len() - 1 {
                assert(handles.drop_last()[i] == handles[i]);
                assert(weights.drop_last()[i] == weights[i]);
            }
        }
    } else {
        assert(handles.to_set() =~= Set::<Node>::empty());
    }
}

/// A node added to a sound graph under a handle that was not live has no
/// edge: nothing touches it, so it has no neighbour in either direction.
pub proof fn new_node_has_no_edges<N, E>(
    v: GraphView<N, E>,
    n: Node,
    weight: N,
    direction: Direction,
)
    requires
        v.wf(),
        !v.nodes.contains_key(n),
    ensures
        v.add_node(n, weight).incident_edges(n) == Set::<Edge>::empty(),
        v.add_node(n, weight).adjacent_edges(n, direction) == Set::<Edge>::empty(),
{
}

/// A removed node is no longer counted, and no other node leaves with it.
pub proof fn remove_node_counts_one<N, E>(v: GraphView<N, E>, n: Node)
    requires
        v.wf(),
        v.nodes.contains_key(n),
    ensures
        v.remove_node(n).nodes.len() == v.nodes.len() - 1,
        forall|m: Node|
            m != n ==> (v.remove_node(n).nodes.contains_key(m) <==> v.nodes.contains_key(m)),
{
}

/// The weight given to a new node is the weight found under its handle.
pub proof fn add_node_stores_weight<N, E>(v: GraphView<N, E>, n: Node, weight: N)
    ensures
        v.add_node(n, weight).nodes.contains_key(n),
        v.add_node(n, weight).nodes[n] == weight,
{
}

/// A live node keeps its weight while other nodes come and go and while edges
/// come and go: only its own removal, or a write to its own weight, ends that.
pub proof fn node_weight_is_stable<N, E>(
    v: GraphView<N, E>,
    h: Node,
    n: Node,
    node_weight: N,
    e: Edge,
    source: Node,
    target: Node,
    edge_weight: E,
)
    requires
        v.nodes.contains_key(h),
        n != h,
    ensures
        v.add_node(n, node_weight).nodes.contains_key(h),
        v.add_node(n, node_weight).nodes[h] == v.nodes[h],
        v.remove_node(n).nodes.contains_key(h),
        v.remove_node(n).nodes[h] == v.nodes[h],
        v.add_edge(e, source, target, edge_weight).nodes == v.nodes,
        v.remove_edge(e).nodes == v.nodes,
        v.set_node_weight(n, node_weight).nodes.contains_key(h),
        v.set_node_weight(n, node_weight).nodes[h] == v.nodes[h],
        v.set_edge_weight(e, edge_weight).nodes == v.nodes,
{
}

/// Once a node is removed its handle is not live, and neither is the handle
/// of any edge that touched it.
pub proof fn removed_node_is_gone<N, E>(v: GraphView<N, E>, n: Node)
    ensures
        !v.remove_node(n).nodes.contains_key(n),
        forall|e: Edge| v.touches(e, n) ==> !(#[trigger] v.remove_node(n).edges.contains_key(e)),
{
}

/// A new edge is found under its handle with the endpoints and the weight it
/// was given, and is counted once.
pub proof fn add_edge_stores_edge<N, E>(
    v: GraphView<N, E>,
    e: Edge,
    source: Node,
    target: Node,
    weight: E,
)
    requires
        v.wf(),
        !v.edges.contains_key(e),
    ensures
        v.add_edge(e, source, target, weight).edges.contains_key(e),
        v.add_edge(e, source, target, weight).edges[e] == (EdgeView { source, target, weight }),
        v.add_edge(e, source, target, weight).edges.len() == v.edges.len() + 1,
{
}

/// A new edge between two different nodes leaves its source and arrives at
/// its target, and is reported in no other way.
pub proof fn add_edge_is_adjacent<N, E>(
    v: GraphView<N, E>,
    e: Edge,
    source: Node,
    target: Node,
    weight: E,
    n: Node,
    direction: Direction,
)
    requires
        !v.edges.contains_key(e),
        source != target,
    ensures
        v.add_edge(e, source, target, weight).adjacent_edges(n, direction).contains(e) <==> (
        match direction {
            Direction::Outgoing => n == source,
            Direction::Incoming => n == target,
        }),
        forall|other: Edge|
            other != e ==> (#[trigger] v.add_edge(e, source, target, weight).adjacent_edges(
                n,
                direction,
            ).contains(other) <==> v.adjacent_edges(n, direction).contains(other)),
{
}

/// Removing a live edge lowers the edge count by exactly one and takes the
/// edge out of every neighbour query; every other edge is reported as before.
pub proof fn remove_edge_removes_one<N, E>(
    v: GraphView<N, E>,
    e: Edge,
    n: Node,
    direction: Direction,
)
    requires
        v.wf(),
        v.edges.contains_key(e),
    ensures
        v.remove_edge(e).edges.len() == v.edges.len() - 1,
        !v.remove_edge(e).edges.contains_key(e),
        v.remove_edge(e).adjacent_edges(n, direction) == v.adjacent_edges(n, direction).remove(e),
{
}

/// Removing a live node removes exactly the edges that touched it: the edge
/// count drops by their number, and every other node stops reporting them
/// while it reports its remaining edges as before.
pub proof fn remove_node_removes_incident_edges<N, E>(
    v: GraphView<N, E>,
    n: Node,
    m: Node,
    direction: Direction,
)
    requires
        v.wf(),
        v.nodes.contains_key(n),
    ensures
        v.incident_edges(n).finite(),
        v.remove_node(n).edges.len() == v.edges.len() - v.incident_edges(n).len(),
        v.remove_node(n).adjacent_edges(m, direction) == v.adjacent_edges(m, direction).difference(
            v.incident_edges(n),
        ),
        forall|e: Edge|
            v.touches(e, n) ==> !(#[trigger] v.remove_node(n).adjacent_edges(m, direction).contains(
                e,
            )),
{
    let gone = v.incident_edges(n);
    vstd::set_lib::lemma_len_subset(gone, v.edges.dom());
    v.edges.lemma_remove_keys_len(gone);
}

/// No node is its own neighbour: the far end of an edge that a node reports
/// is another node, in either direction.
pub proof fn no_node_is_its_own_neighbor<N, E>(
    v: GraphView<N, E>,
    n: Node,
    direction: Direction,
    e: Edge,
)
    requires
        v.adjacent_edges(n, direction).contains(e),
    ensures
        v.opposite(e, direction) != n,
        v.edges.contains_key(e),
        match direction {
            Direction::Outgoing => v.edges[e].source == n,
            Direction::Incoming => v.edges[e].target == n,
        },
{
}

/// A self-loop is counted and is found under its handle, yet no neighbour
/// query reports it, on its own node or on any other.
pub proof fn self_loop_is_stored_but_not_adjacent<N, E>(
    v: GraphView<N, E>,
    e: Edge,
    a: Node,
    weight: E,
    n: Node,
    direction: Direction,
)
    requires
        v.wf(),
        v.nodes.contains_key(a),
        !v.edges.contains_key(e),
    ensures
        v.add_edge(e, a, a, weight).edges.len() == v.edges.len() + 1,
        v.add_edge(e, a, a, weight).edges[e] == (EdgeView { source: a, target: a, weight }),
        v.add_edge(e, a, a, weight).incident_edges(a).contains(e),
        v.add_edge(e, a, a, weight).adjacent_edges(n, direction) == v.adjacent_edges(n, direction),
        !v.add_edge(e, a, a, weight).adjacent_edges(n, direction).contains(e),
{
}

/// An edge between two nodes is reported by exactly one direction at each of
/// them: as outgoing at its source and as incoming at its target.
pub proof fn edge_has_one_direction_per_endpoint<N, E>(v: GraphView<N, E>, e: Edge)
    requires
        v.edges.contains_key(e),
        v.edges[e].source != v.edges[e].target,
    ensures
        v.adjacent_edges(v.edges[e].source, Direction::Outgoing).contains(e),
        !v.adjacent_edges(v.edges[e].source, Direction::Incoming).contains(e),
        v.adjacent_edges(v.edges[e].target, Direction::Incoming).contains(e),
        !v.adjacent_edges(v.edges[e].target, Direction::Outgoing).contains(e),
{
}

/// Two graphs in which the same handles are live and every edge has the same
/// endpoints have the same populations and answer every neighbour query
/// alike, whatever their weights. A graph and its clone are two such graphs.
pub proof fn same_shape_same_neighbors<N, E>(
    v: GraphView<N, E>,
    w: GraphView<N, E>,
    n: Node,
    direction: Direction,
)
    requires
        v.nodes.dom() == w.nodes.dom(),
        v.edges.dom() == w.edges.dom(),
        forall|e: Edge| #[trigger]
            v.edges.contains_key(e) ==> v.edges[e].source == w.edges[e].source
                && v.edges[e].target == w.edges[e].target,
    ensures
        v.nodes.len() == w.nodes.len(),
        v.edges.len() == w.edges.len(),
        v.wf() ==> w.wf(),
        v.incident_edges(n) == w.incident_edges(n),
        v.adjacent_edges(n, direction) == w.adjacent_edges(n, direction),
        forall|e: Edge|
            v.edges.contains_key(e) ==> #[trigger] v.opposite(e, direction) == w.opposite(
                e,
                direction,
            ),
{
    assert(v.incident_edges(n) =~= w.incident_edges(n));
    assert(v.adjacent_edges(n, direction) =~= w.adjacent_edges(n, direction));
}

} // verus!
