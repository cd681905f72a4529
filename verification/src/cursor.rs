//! Cursors over the populations of a graph and over the neighbours of a node.
//!
//! A cursor borrows the graph it was made from, so the graph cannot change
//! while the cursor is in use. Each offers `next`, which yields one item, and
//! `collect`, which yields all that are left.

use crate::arena::Arena;
use crate::graph::{EdgeData, NodeData};
use crate::handle::{Direction, Edge, Node};
use std::marker::PhantomData;
use vstd::prelude::*;

verus! {

/// A cursor over the handles of the live nodes.
pub struct NodeIter<'a, N> {
    borrow: PhantomData<&'a N>,
    keys: Vec<usize>,
    pos: usize,
}

impl<'a, N> NodeIter<'a, N> {
    #[verifier::type_invariant]
    spec fn inv(self) -> bool {
        self.pos <= self.keys@.len()
    }

    /// The handles that are still to come, in the order in which they come.
    pub closed spec fn remaining(&self) -> Seq<Node> {
        self.keys@.skip(self.pos as int).map_values(|i: usize| Node(i))
    }

    pub(crate) fn new(arena: &'a Arena<NodeData<N>>) -> (cursor: Self)
        ensures
            cursor.remaining().no_duplicates(),
            forall|n: Node| cursor.remaining().contains(n) <==> arena@.contains_key(n.0),
    {
        let keys = arena.keys();
        let cursor = NodeIter { borrow: PhantomData, keys, pos: 0 };
        assert forall|n: Node| cursor.remaining().contains(n) <==> arena@.contains_key(n.0) by {
            if cursor.remaining().contains(n) {
                let i = choose|i: int|
                    0 <= i < cursor.remaining().len() && cursor.remaining()[i] == n;
                assert(keys@.to_set().contains(keys@[i]));
            }
            if arena@.contains_key(n.0) {
                assert(keys@.to_set().contains(n.0));
                let i = choose|i: int| 0 <= i < keys@.len() && keys@[i] == n.0;
                assert(cursor.remaining()[i] == n);
            }
        }
        cursor
    }

    /// Yields the next handle, or `None` once every live node was yielded.
    pub fn next(&mut self) -> (item: Option<Node>)
        ensures
            match item {
                Some(n) => old(self).remaining().len() > 0 && n == old(self).remaining()[0]
                    && final(self).remaining() == old(self).remaining().drop_first(),
                None => old(self).remaining().len() == 0 && final(self).remaining() == old(
                    self,
                ).remaining(),
            },
    {
        proof {
            use_type_invariant(&*self);
        }
        if self.pos < self.keys.len() {
            let node = Node(self.keys[self.pos]);
            self.pos += 1;
            Some(node)
        } else {
            None
        }
    }

    /// Yields every handle that is left.
    pub fn collect(self) -> (items: Vec<Node>)
        ensures
            items@ == self.remaining(),
    {
        let mut cursor = self;
        let mut items: Vec<Node> = Vec::new();
        loop
            invariant
                items@ + cursor.remaining() == self.remaining(),
            ensures
                items@ == self.remaining(),
            decreases cursor.remaining().len(),
        {
            match cursor.next() {
                Some(node) => {
                    items.push(node);
                },
                None => {
                    break ;
                },
            }
        }
        items
    }
}

/// A cursor over the handles of the live edges.
pub struct EdgeIter<'a, E> {
    borrow: PhantomData<&'a E>,
    keys: Vec<usize>,
    pos: usize,
}

impl<'a, E> EdgeIter<'a, E> {
    #[verifier::type_invariant]
    spec fn inv(self) -> bool {
        self.pos <= self.keys@.len()
    }

    /// The handles that are still to come, in the order in which they come.
    pub closed spec fn remaining(&self) -> Seq<Edge> {
        self.keys@.skip(self.pos as int).map_values(|i: usize| Edge(i))
    }

    pub(crate) fn new(arena: &'a Arena<EdgeData<E>>) -> (cursor: Self)
        ensures
            cursor.remaining().no_duplicates(),
            forall|e: Edge| cursor.remaining().contains(e) <==> arena@.contains_key(e.0),
    {
        let keys = arena.keys();
        let cursor = EdgeIter { borrow: PhantomData, keys, pos: 0 };
        assert forall|e: Edge| cursor.remaining().contains(e) <==> arena@.contains_key(e.0) by {
            if cursor.remaining().contains(e) {
                let i = choose|i: int|
                    0 <= i < cursor.remaining().len() && cursor.remaining()[i] == e;
                assert(keys@.to_set().contains(keys@[i]));
            }
            if arena@.contains_key(e.0) {
                assert(keys@.to_set().contains(e.0));
                let i = choose|i: int| 0 <= i < keys@.len() && keys@[i] == e.0;
                assert(cursor.remaining()[i] == e);
            }
        }
        cursor
    }

    /// Yields the next handle, or `None` once every live edge was yielded.
    pub fn next(&mut self) -> (item: Option<Edge>)
        ensures
            match item {
                Some(e) => old(self).remaining().len() > 0 && e == old(self).remaining()[0]
                    && final(self).remaining() == old(self).remaining().drop_first(),
                None => old(self).remaining().len() == 0 && final(self).remaining() == old(
                    self,
                ).remaining(),
            },
    {
        proof {
            use_type_invariant(&*self);
        }
        if self.pos < self.keys.len() {
            let edge = Edge(self.keys[self.pos]);
            self.pos += 1;
            Some(edge)
        } else {
            None
        }
    }

    /// Yields every handle that is left.
    pub fn collect(self) -> (items: Vec<Edge>)
        ensures
            items@ == self.remaining(),
    {
        let mut cursor = self;
        let mut items: Vec<Edge> = Vec::new();
        loop
            invariant
                items@ + cursor.remaining() == self.remaining(),
            ensures
                items@ == self.remaining(),
            decreases cursor.remaining().len(),
        {
            match cursor.next() {
                Some(edge) => {
                    items.push(edge);
                },
                None => {
                    break ;
                },
            }
        }
        items
    }
}

/// The endpoint of the edge record under `e` that lies in `direction`.
pub(crate) open spec fn far_end<E>(
    edges: Map<usize, EdgeData<E>>,
    e: usize,
    direction: Direction,
) -> usize {
    match direction {
        Direction::Incoming => edges[e].source,
        Direction::Outgoing => edges[e].target,
    }
}

/// The neighbours that `node` sees in `direction` along the edges of
/// `candidates`, in their order: each edge with its far end, but for the
/// edges whose far end is `node` itself.
pub(crate) open spec fn select<E>(
    edges: Map<usize, EdgeData<E>>,
    node: usize,
    direction: Direction,
    candidates: Seq<usize>,
) -> Seq<(Edge, Node)>
    decreases candidates.len(),
{
    if candidates.len() == 0 {
        Seq::empty()
    } else {
        let e = candidates.first();
        let rest = select(edges, node, direction, candidates.drop_first());
        let other = far_end(edges, e, direction);
        if other != node {
            seq![(Edge(e), Node(other))] + rest
        } else {
            rest
        }
    }
}

/// The edges of a sequence of neighbour pairs.
pub(crate) open spec fn edges_of(pairs: Seq<(Edge, Node)>) -> Seq<Edge> {
    pairs.map_values(|p: (Edge, Node)| p.0)
}

/// The nodes of a sequence of neighbour pairs.
pub(crate) open spec fn nodes_of(pairs: Seq<(Edge, Node)>) -> Seq<Node> {
    pairs.map_values(|p: (Edge, Node)| p.1)
}

/// What `select` keeps of candidates that occur once each: every edge whose
/// far end is another node, once, paired with that far end.
pub(crate) proof fn lemma_select<E>(
    edges: Map<usize, EdgeData<E>>,
    node: usize,
    direction: Direction,
    candidates: Seq<usize>,
)
    requires
        candidates.no_duplicates(),
    ensures
        edges_of(select(edges, node, direction, candidates)).no_duplicates(),
        forall|e: Edge| #[trigger]
            edges_of(select(edges, node, direction, candidates)).contains(e)
                <==> candidates.contains(e.0) && far_end(edges, e.0, direction) != node,
        forall|i: int|
            0 <= i < select(edges, node, direction, candidates).len() ==> (#[trigger] select(
                edges,
                node,
                direction,
                candidates,
            )[i]).1 == Node(
                far_end(edges, select(edges, node, direction, candidates)[i].0.0, direction),
            ),
    decreases candidates.len(),
{
    let all = select(edges, node, direction, candidates);
    if candidates.len() == 0 {
    } else {
        let e = candidates.first();
        let tail = candidates.drop_first();
        let rest = select(edges, node, direction, tail);
        lemma_select(edges, node, direction, tail);
        let other = far_end(edges, e, direction);
        assert forall|x: Edge| #[trigger] edges_of(all).contains(x) <==> candidates.contains(x.0)
            && far_end(edges, x.0, direction) != node by {
            if edges_of(all).contains(x) {
                let i = choose|i: int| 0 <= i < edges_of(all).len() && edges_of(all)[i] == x;
                if other != node && i == 0 {
                    assert(candidates[0] == x.0);
                } else {
                    if other != node {
                        assert(edges_of(rest)[i - 1] == x);
                    } else {
                        assert(edges_of(rest)[i] == x);
                    }
                    assert(edges_of(rest).contains(x));
                    let j = choose|j: int| 0 <= j < tail.len() && tail[j] == x.0;
                    assert(candidates[j + 1] == x.0);
                }
            }
            if candidates.contains(x.0) && far_end(edges, x.0, direction) != node {
                let j = choose|j: int| 0 <= j < candidates.len() && candidates[j] == x.0;
                if j == 0 {
                    assert(edges_of(all)[0] == x);
                } else {
                    assert(tail[j - 1] == x.0);
                    assert(tail.contains(x.0));
                    assert(edges_of(rest).contains(x));
                    let i = choose|i: int| 0 <= i < edges_of(rest).len() && edges_of(rest)[i] == x;
                    if other != node {
                        assert(edges_of(all)[i + 1] == x);
                    } else {
                        assert(edges_of(all)[i] == x);
                    }
                }
            }
        }
        if other != node {
            assert forall|i: int, j: int|
                0 <= i < edges_of(all).len() && 0 <= j < edges_of(all).len() && i
                    != j implies edges_of(all)[i] != edges_of(all)[j] by {
                if i > 0 && j > 0 {
                    assert(edges_of(rest)[i - 1] != edges_of(rest)[j - 1]);
                } else if i == 0 {
                    assert(edges_of(rest)[j - 1] == edges_of(all)[j]);
                    assert(edges_of(rest).contains(edges_of(all)[j]));
                } else {
                    assert(edges_of(rest)[i - 1] == edges_of(all)[i]);
                    assert(edges_of(rest).contains(edges_of(all)[i]));
                }
            }
        }
    }
}

/// A cursor over the neighbours of one node in one direction: each edge that
/// touches the node and leads elsewhere, with the node at its far end.
pub(crate) struct Neighbors<'a, E> {
    direction: Direction,
    edges: &'a Arena<EdgeData<E>>,
    incident: Vec<usize>,
    pos: usize,
    node: Node,
}

impl<'a, E> Neighbors<'a, E> {
    #[verifier::type_invariant]
    spec fn inv(self) -> bool {
        &&& self.edges.wf()
        &&& self.pos <= self.incident@.len()
        &&& forall|i: int|
            0 <= i < self.incident@.len() ==> self.edges@.contains_key(#[trigger] self.incident@[i])
    }

    /// The pairs that are still to come, in the order in which they come.
    pub(crate) closed spec fn remaining(&self) -> Seq<(Edge, Node)> {
        select(self.edges@, self.node.0, self.direction, self.incident@.skip(self.pos as int))
    }

    pub(crate) fn new(
        edges: &'a Arena<EdgeData<E>>,
        incident: Vec<usize>,
        node: Node,
        direction: Direction,
    ) -> (cursor: Self)
        requires
            edges.wf(),
            forall|i: int|
                0 <= i < incident@.len() ==> edges@.contains_key(#[trigger] incident@[i]),
        ensures
            cursor.remaining() == select(edges@, node.0, direction, incident@),
    {
        let cursor = Neighbors { direction, edges, incident, pos: 0, node };
        assert(cursor.incident@.skip(0) =~= cursor.incident@);
        cursor
    }

    /// Yields the next pair, or `None` once every neighbour was yielded.
    /// Edges whose far end is the node itself are passed over.
    pub(crate) fn next(&mut self) -> (item: Option<(Edge, Node)>)
        ensures
            match item {
                Some(pair) => old(self).remaining().len() > 0 && pair == old(self).remaining()[0]
                    && final(self).remaining() == old(self).remaining().drop_first(),
                None => old(self).remaining().len() == 0 && final(self).remaining() == old(
                    self,
                ).remaining(),
            },
    {
        while self.pos < self.incident.len()
            invariant
                self.remaining() == old(self).remaining(),
            decreases self.incident@.len() - self.pos,
        {
            proof {
                use_type_invariant(&*self);
            }
            let ghost before = self.incident@.skip(self.pos as int);
            let e = self.incident[self.pos];
            self.pos += 1;
            assert(before.drop_first() =~= self.incident@.skip(self.pos as int));
            let record = self.edges.get(e).unwrap();
            let other_node = match self.direction {
                Direction::Incoming => record.source,
                Direction::Outgoing => record.target,
            };
            if self.node.0 != other_node {
                return Some((Edge(e), Node(other_node)));
            }
        }
        proof {
            use_type_invariant(&*self);
        }
        None
    }
}

/// A cursor over the nodes next to one node in one direction. A node comes
/// once for each edge that leads to it.
pub struct AdjacentNodes<'a, E> {
    neighbors: Neighbors<'a, E>,
}

impl<'a, E> AdjacentNodes<'a, E> {
    /// The nodes that are still to come, in the order in which they come.
    pub closed spec fn remaining(&self) -> Seq<Node> {
        nodes_of(self.neighbors.remaining())
    }

    /// The edges along which the remaining nodes are reached, in step with
    /// `remaining`.
    pub closed spec fn remaining_edges(&self) -> Seq<Edge> {
        edges_of(self.neighbors.remaining())
    }

    pub(crate) fn new(neighbors: Neighbors<'a, E>) -> (cursor: Self)
        ensures
            cursor.remaining() == nodes_of(neighbors.remaining()),
            cursor.remaining_edges() == edges_of(neighbors.remaining()),
    {
        AdjacentNodes { neighbors }
    }

    /// Yields the next node, or `None` once every neighbour was yielded.
    pub fn next(&mut self) -> (item: Option<Node>)
        ensures
            final(self).remaining().len() == final(self).remaining_edges().len(),
            match item {
                Some(n) => {
                    &&& old(self).remaining().len() > 0
                    &&& n == old(self).remaining()[0]
                    &&& final(self).remaining() == old(self).remaining().drop_first()
                    &&& final(self).remaining_edges() == old(self).remaining_edges().drop_first()
                },
                None => {
                    &&& old(self).remaining().len() == 0
                    &&& final(self).remaining() == old(self).remaining()
                    &&& final(self).remaining_edges() == old(self).remaining_edges()
                },
            },
    {
        match self.neighbors.next() {
            Some(pair) => Some(pair.1),
            None => None,
        }
    }

    /// Yields every node that is left.
    pub fn collect(self) -> (items: Vec<Node>)
        ensures
            items@ == self.remaining(),
    {
        let mut cursor = self;
        let mut items: Vec<Node> = Vec::new();
        loop
            invariant
                items@ + cursor.remaining() == self.remaining(),
            ensures
                items@ == self.remaining(),
            decreases cursor.remaining().len(),
        {
            match cursor.next() {
                Some(node) => {
                    items.push(node);
                },
                None => {
                    break ;
                },
            }
        }
        items
    }
}

/// A cursor over the edges that join one node to other nodes in one
/// direction.
pub struct AdjacentEdges<'a, E> {
    neighbors: Neighbors<'a, E>,
}

impl<'a, E> AdjacentEdges<'a, E> {
    /// The edges that are still to come, in the order in which they come.
    pub closed spec fn remaining(&self) -> Seq<Edge> {
        edges_of(self.neighbors.remaining())
    }

    pub(crate) fn new(neighbors: Neighbors<'a, E>) -> (cursor: Self)
        ensures
            cursor.remaining() == edges_of(neighbors.remaining()),
    {
        AdjacentEdges { neighbors }
    }

    /// Yields the next edge, or `None` once every adjacent edge was yielded.
    pub fn next(&mut self) -> (item: Option<Edge>)
        ensures
            match item {
                Some(e) => old(self).remaining().len() > 0 && e == old(self).remaining()[0]
                    && final(self).remaining() == old(self).remaining().drop_first(),
                None => old(self).remaining().len() == 0 && final(self).remaining() == old(
                    self,
                ).remaining(),
            },
    {
        match self.neighbors.next() {
            Some(pair) => Some(pair.0),
            None => None,
        }
    }

    /// Yields every edge that is left.
    pub fn collect(self) -> (items: Vec<Edge>)
        ensures
            items@ == self.remaining(),
    {
        let mut cursor = self;
        let mut items: Vec<Edge> = Vec::new();
        loop
            invariant
                items@ + cursor.remaining() == self.remaining(),
            ensures
                items@ == self.remaining(),
            decreases cursor.remaining().len(),
        {
            match cursor.next() {
                Some(edge) => {
                    items.push(edge);
                },
                None => {
                    break ;
                },
            }
        }
        items
    }
}

} // verus!
