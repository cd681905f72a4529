//! Handles by which callers refer to nodes and edges.

use vstd::prelude::*;

verus! {

/// A node handle: an opaque key into the node arena.
#[derive(Copy, Clone, Hash, Ord, PartialOrd, Eq, PartialEq, Debug, Structural)]
pub struct Node(pub(crate) usize);

/// An edge handle: an opaque key into the edge arena.
#[derive(Copy, Clone, Hash, Ord, PartialOrd, Eq, PartialEq, Debug, Structural)]
pub struct Edge(pub(crate) usize);

/// The side from which a node looks at its edges.
#[derive(Copy, Clone)]
pub enum Direction {
    /// Edges that arrive at the node; the neighbour is the edge's source.
    Incoming,
    /// Edges that leave the node; the neighbour is the edge's target.
    Outgoing,
}

} // verus!
