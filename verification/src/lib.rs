//! A directed multigraph with stable, reusable handles, verified with Verus.
//!
//! Nodes and edges live in two slot arenas. A [`Node`] or an [`Edge`] is a
//! key into one of them; removing a node or an edge frees its key, which is
//! then handed out again to a later one. Every node keeps the set of the
//! edges that touch it, and the graph keeps those sets in step with the live
//! edges, so that a neighbour query never meets an edge that is gone.
//!
//! - [`handle`]: the handles and the direction of a neighbour query.
//! - [`model`]: the mathematical graph that the contracts speak of.
//! - [`graph`]: the graph and its operations.
//! - [`cursor`]: cursors over nodes, edges and neighbours.
//! - [`laws`]: what holds of every graph, stated over the model and proved.
//! - [`arena`]: the typed slot arena under the graph.
//! - [`slots`]: the boundary to the `stash` crate, which allocates the keys.

pub mod arena;
pub mod cursor;
pub mod graph;
pub mod handle;
pub mod laws;
pub mod model;
pub mod slots;

pub use cursor::{AdjacentEdges, AdjacentNodes, EdgeIter, NodeIter};
pub use graph::Graph;
pub use handle::{Direction, Edge, Node};
pub use model::{EdgeView, GraphView};
pub use slots::MAX_SLOTS;
