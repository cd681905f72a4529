use stash_graph::graph::Graph;
use stash_graph::handle::{Direction, Edge, Node};

fn sorted_nodes(mut nodes: Vec<Node>) -> Vec<Node> {
    nodes.sort();
    nodes
}

fn sorted_edges(mut edges: Vec<Edge>) -> Vec<Edge> {
    edges.sort();
    edges
}

#[test]
fn it_can_add_nodes() {
    let mut g = Graph::<(), ()>::new();

    let _ = g.add_node(());
    let _ = g.add_node(());

    assert_eq!(g.nb_nodes(), 2);
}

#[test]
fn it_can_get_nodes() {
    let mut g = Graph::<&str, ()>::new();

    let a = g.add_node("a");
    let b = g.add_node("b");

    assert_eq!(g[a], "a");
    assert_eq!(g[b], "b");
}

#[test]
fn it_can_remove_nodes() {
    let mut g = Graph::<&str, ()>::new();

    let a = g.add_node("a");
    let b = g.add_node("b");

    g.remove_node(a);

    assert_eq!(g[b], "b");
    assert_eq!(g.nb_nodes(), 1);
}

#[test]
fn it_can_add_edges() {
    let mut g = Graph::<(), ()>::new();

    let a = g.add_node(());
    let b = g.add_node(());

    let _ = g.add_edge(a, b, ());

    assert_eq!(g.nb_edges(), 1);
}

#[test]
fn it_can_get_edges() {
    let mut g = Graph::<&str, &str>::new();

    let a = g.add_node("a");
    let b = g.add_node("b");

    let ab = g.add_edge(a, b, "ab");

    assert_eq!(g[ab], "ab");
}

#[test]
fn it_can_remove_edges() {
    let mut g = Graph::<(), ()>::new();

    let a = g.add_node(());
    let b = g.add_node(());

    let ab = g.add_edge(a, b, ());
    let _ = g.add_edge(b, a, ());

    g.remove_edge(ab);

    assert_eq!(g.nb_edges(), 1);
}

#[test]
fn it_removes_edges_when_removing_nodes() {
    let mut g = Graph::<&str, ()>::new();

    let a = g.add_node("a");
    let b = g.add_node("b");

    let _ = g.add_edge(a, b, ());

    g.remove_node(a);

    assert_eq!(g.nb_edges(), 0);
}

#[test]
fn it_can_iterate_on_nodes() {
    let mut g = Graph::<&str, &str>::new();

    let b = g.add_node("b");
    let d = g.add_node("d");
    let a = g.add_node("a");
    let c = g.add_node("c");

    let nodes = {
        let mut nodes: Vec<_> = g.nodes().collect();
        nodes.sort();
        nodes
    };

    let expected_nodes = {
        let mut nodes = vec![a, b, c, d];
        nodes.sort();
        nodes
    };

    assert_eq!(nodes, expected_nodes);
}

#[test]
fn it_can_iterate_on_edges() {
    let mut g = Graph::<&str, &str>::new();

    let b = g.add_node("b");
    let d = g.add_node("d");
    let c = g.add_node("c");
    let a = g.add_node("a");

    let cd = g.add_edge(c, d, "cd");
    let ab = g.add_edge(a, b, "ab");
    let ca = g.add_edge(c, a, "ca");
    let ad = g.add_edge(a, d, "ad");
    let bc = g.add_edge(b, c, "bc");

    let edges = {
        let mut edges: Vec<_> = g.edges().collect();
        edges.sort();
        edges
    };

    let expected_edges = {
        let mut edges = vec![cd, ab, ca, ad, bc];
        edges.sort();
        edges
    };

    assert_eq!(edges, expected_edges);
}

#[test]
fn it_can_get_neighbors() {
    let mut g = Graph::<&str, &str>::new();

    let a = g.add_node("a");
    let b = g.add_node("b");
    let c = g.add_node("c");
    let d = g.add_node("d");

    let ab = g.add_edge(a, b, "ab");
    let bc = g.add_edge(b, c, "bc");
    let cd = g.add_edge(c, d, "cd");
    let ad = g.add_edge(a, d, "ad");
    let ca = g.add_edge(c, a, "ca");

    let g = g; // freeze for safety

    assert_eq!(
        sorted_edges(g.adjacent_edges(a, Direction::Outgoing).collect()),
        sorted_edges(vec![ab, ad])
    );
    assert_eq!(
        sorted_edges(g.adjacent_edges(a, Direction::Incoming).collect()),
        sorted_edges(vec![ca])
    );
    assert_eq!(
        sorted_edges(g.adjacent_edges(b, Direction::Outgoing).collect()),
        sorted_edges(vec![bc])
    );
    assert_eq!(
        sorted_edges(g.adjacent_edges(b, Direction::Incoming).collect()),
        sorted_edges(vec![ab])
    );
    assert_eq!(
        sorted_edges(g.adjacent_edges(c, Direction::Outgoing).collect()),
        sorted_edges(vec![ca, cd])
    );
    assert_eq!(
        sorted_edges(g.adjacent_edges(c, Direction::Incoming).collect()),
        sorted_edges(vec![bc])
    );
    assert_eq!(
        sorted_edges(g.adjacent_edges(d, Direction::Outgoing).collect()),
        sorted_edges(vec![])
    );
    assert_eq!(
        sorted_edges(g.adjacent_edges(d, Direction::Incoming).collect()),
        sorted_edges(vec![ad, cd])
    );
}

#[test]
fn neighbor_nodes_follow_direction() {
    let mut g = Graph::<&str, &str>::new();

    let a = g.add_node("a");
    let b = g.add_node("b");
    let c = g.add_node("c");
    let d = g.add_node("d");

    g.add_edge(a, b, "ab");
    g.add_edge(b, c, "bc");
    g.add_edge(c, d, "cd");
    g.add_edge(a, d, "ad");
    g.add_edge(c, a, "ca");

    assert_eq!(sorted_nodes(g.outgoing_nodes(a).collect()), sorted_nodes(vec![b, d]));
    assert_eq!(sorted_nodes(g.incoming_nodes(a).collect()), sorted_nodes(vec![c]));
    assert_eq!(sorted_nodes(g.outgoing_nodes(c).collect()), sorted_nodes(vec![a, d]));
    assert_eq!(sorted_nodes(g.incoming_nodes(c).collect()), sorted_nodes(vec![b]));
    assert_eq!(sorted_nodes(g.outgoing_nodes(d).collect()), sorted_nodes(vec![]));
    assert_eq!(sorted_nodes(g.incoming_nodes(d).collect()), sorted_nodes(vec![a, c]));
}
