use stash_graph::arena::Arena;
use stash_graph::{Direction, Edge, Graph, Node};

fn sorted_nodes(mut nodes: Vec<Node>) -> Vec<Node> {
    nodes.sort();
    nodes
}

fn sorted_edges(mut edges: Vec<Edge>) -> Vec<Edge> {
    edges.sort();
    edges
}

#[test]
fn node_count_follows_additions_and_removals() {
    let mut g = Graph::<u32, ()>::new();
    assert_eq!(g.nb_nodes(), 0);

    let mut handles = Vec::new();
    for i in 0..5u32 {
        handles.push(g.add_node(i));
        assert_eq!(g.nb_nodes(), i as usize + 1);
    }

    g.remove_node(handles[1]);
    assert_eq!(g.nb_nodes(), 4);
    g.remove_node(handles[3]);
    assert_eq!(g.nb_nodes(), 3);

    let live = sorted_nodes(g.nodes().collect());
    assert_eq!(live, sorted_nodes(vec![handles[0], handles[2], handles[4]]));
}

#[test]
fn node_weight_is_kept_until_removal() {
    let mut g = Graph::<u32, u32>::new();

    let a = g.add_node(10);
    let b = g.add_node(20);
    let c = g.add_node(30);
    let ab = g.add_edge(a, b, 1);
    g.add_edge(b, c, 2);
    g.remove_edge(ab);
    g.remove_node(c);

    assert_eq!(g[a], 10);
    assert_eq!(g[b], 20);
    assert_eq!(g.node_weight(a), Some(&10));
}

#[test]
fn removed_node_is_not_found() {
    let mut g = Graph::<u32, u32>::new();

    let a = g.add_node(1);
    let b = g.add_node(2);
    let ab = g.add_edge(a, b, 12);
    assert!(g.contains_node(a));
    assert!(g.contains_edge(ab));

    g.remove_node(a);

    assert!(!g.contains_node(a));
    assert_eq!(g.node_weight(a), None);
    assert!(g.node_weight_mut(a).is_none());
    assert!(!g.contains_edge(ab));
    assert_eq!(g.edge_weight(ab), None);
    assert!(g.contains_node(b));
}

#[test]
fn edge_keeps_endpoints_and_weight() {
    let mut g = Graph::<&str, u32>::new();

    let a = g.add_node("a");
    let b = g.add_node("b");
    let e = g.add_edge(a, b, 42);

    assert_eq!(g[e], 42);
    assert_eq!(g.edge_weight(e), Some(&42));
    assert_eq!(g.edge_nodes(e), (a, b));
    assert_eq!(g.edge_source(e), a);
    assert_eq!(g.edge_target(e), b);
}

#[test]
fn removed_edge_leaves_both_endpoints() {
    let mut g = Graph::<(), ()>::new();

    let a = g.add_node(());
    let b = g.add_node(());
    let first = g.add_edge(a, b, ());
    let second = g.add_edge(a, b, ());
    assert_eq!(g.nb_edges(), 2);

    g.remove_edge(first);

    assert_eq!(g.nb_edges(), 1);
    assert_eq!(g.outgoing_edges(a).collect(), vec![second]);
    assert_eq!(g.incoming_edges(b).collect(), vec![second]);
    assert_eq!(g.outgoing_nodes(a).collect(), vec![b]);
    assert_eq!(g.incoming_nodes(b).collect(), vec![a]);
    assert_eq!(g.edges().collect(), vec![second]);
}

#[test]
fn removing_a_node_cleans_its_neighbors() {
    let mut g = Graph::<&str, &str>::new();

    let a = g.add_node("a");
    let b = g.add_node("b");
    let c = g.add_node("c");

    let ab = g.add_edge(a, b, "ab");
    let ca = g.add_edge(c, a, "ca");
    let bc = g.add_edge(b, c, "bc");

    g.remove_node(a);

    assert_eq!(g.nb_nodes(), 2);
    assert_eq!(g.nb_edges(), 1);
    assert!(!g.contains_edge(ab));
    assert!(!g.contains_edge(ca));
    assert_eq!(g.edges().collect(), vec![bc]);

    assert_eq!(g.incoming_edges(b).collect(), Vec::<Edge>::new());
    assert_eq!(g.outgoing_edges(b).collect(), vec![bc]);
    assert_eq!(g.outgoing_edges(c).collect(), Vec::<Edge>::new());
    assert_eq!(g.incoming_edges(c).collect(), vec![bc]);
    assert_eq!(g.incoming_nodes(b).collect(), Vec::<Node>::new());
    assert_eq!(g.outgoing_nodes(c).collect(), Vec::<Node>::new());
    assert_eq!(g.outgoing_nodes(b).collect(), vec![c]);
}

#[test]
fn self_loop_is_counted_but_not_adjacent() {
    let mut g = Graph::<&str, &str>::new();

    let a = g.add_node("a");
    let b = g.add_node("b");
    let ab = g.add_edge(a, b, "ab");
    assert_eq!(g.nb_edges(), 1);

    let aa = g.add_edge(a, a, "aa");

    assert_eq!(g.nb_edges(), 2);
    assert_eq!(g[aa], "aa");
    assert_eq!(g.edge_nodes(aa), (a, a));
    assert_eq!(g.adjacent_nodes(a, Direction::Outgoing).collect(), vec![b]);
    assert_eq!(g.adjacent_nodes(a, Direction::Incoming).collect(), Vec::<Node>::new());
    assert_eq!(g.adjacent_edges(a, Direction::Outgoing).collect(), vec![ab]);
    assert_eq!(g.adjacent_edges(a, Direction::Incoming).collect(), Vec::<Edge>::new());

    g.remove_edge(aa);
    assert_eq!(g.nb_edges(), 1);
    assert_eq!(g.outgoing_edges(a).collect(), vec![ab]);

    let again = g.add_edge(a, a, "again");
    g.remove_node(a);
    assert!(!g.contains_edge(again));
    assert_eq!(g.nb_edges(), 0);
    assert_eq!(g.incoming_nodes(b).collect(), Vec::<Node>::new());
}

#[test]
fn parallel_edges_yield_the_neighbor_once_each() {
    let mut g = Graph::<(), u32>::new();

    let a = g.add_node(());
    let b = g.add_node(());
    let first = g.add_edge(a, b, 1);
    let second = g.add_edge(a, b, 2);
    let back = g.add_edge(b, a, 3);

    assert_eq!(g.outgoing_nodes(a).collect(), vec![b, b]);
    assert_eq!(sorted_edges(g.outgoing_edges(a).collect()), sorted_edges(vec![first, second]));
    assert_eq!(g.incoming_edges(a).collect(), vec![back]);
    assert_eq!(g.incoming_nodes(a).collect(), vec![b]);
    assert_eq!(g.incoming_nodes(b).collect(), vec![a, a]);
}

#[test]
fn freed_handles_are_handed_out_again() {
    let mut g = Graph::<u32, u32>::new();

    let a = g.add_node(1);
    let b = g.add_node(2);
    let c = g.add_node(3);

    g.remove_node(b);
    let again = g.add_node(20);
    assert_eq!(again, b);
    assert_eq!(g[b], 20);

    g.remove_node(a);
    g.remove_node(c);
    let first = g.add_node(4);
    let second = g.add_node(5);
    assert_eq!(sorted_nodes(vec![first, second]), sorted_nodes(vec![a, c]));

    let fresh = g.add_node(6);
    assert!(fresh != a && fresh != b && fresh != c);
    assert_eq!(g.nb_nodes(), 4);

    let ab = g.add_edge(a, b, 7);
    g.remove_edge(ab);
    let reused = g.add_edge(b, a, 8);
    assert_eq!(reused, ab);
    assert_eq!(g.edge_nodes(ab), (b, a));
}

#[test]
fn clone_is_independent() {
    let mut g = Graph::<String, u32>::new();

    let a = g.add_node("a".to_string());
    let b = g.add_node("b".to_string());
    let ab = g.add_edge(a, b, 1);

    let mut copy = g.clone();
    assert_eq!(copy.nb_nodes(), 2);
    assert_eq!(copy.nb_edges(), 1);
    assert_eq!(copy[a], "a");
    assert_eq!(copy[ab], 1);
    assert_eq!(copy.edge_nodes(ab), (a, b));
    assert_eq!(copy.outgoing_nodes(a).collect(), vec![b]);

    *copy.node_weight_mut(a).unwrap() = "changed".to_string();
    *copy.edge_weight_mut(ab).unwrap() = 2;
    let c = copy.add_node("c".to_string());
    copy.add_edge(c, a, 3);
    copy.remove_node(b);

    assert_eq!(g.nb_nodes(), 2);
    assert_eq!(g.nb_edges(), 1);
    assert_eq!(g[a], "a");
    assert_eq!(g[b], "b");
    assert_eq!(g[ab], 1);
    assert_eq!(g.outgoing_nodes(a).collect(), vec![b]);
    assert_eq!(g.incoming_nodes(a).collect(), Vec::<Node>::new());
    assert_eq!(g.incoming_edges(b).collect(), vec![ab]);

    assert_eq!(copy.nb_nodes(), 2);
    assert_eq!(copy.nb_edges(), 1);
    assert_eq!(copy[a], "changed");
    assert_eq!(copy.incoming_nodes(a).collect(), vec![c]);
}

#[test]
fn clear_starts_over() {
    let mut g = Graph::<u32, u32>::new();

    let a = g.add_node(1);
    let b = g.add_node(2);
    let ab = g.add_edge(a, b, 3);

    g.clear();

    assert_eq!(g.nb_nodes(), 0);
    assert_eq!(g.nb_edges(), 0);
    assert!(!g.contains_node(a));
    assert!(!g.contains_node(b));
    assert!(!g.contains_edge(ab));
    assert_eq!(g.nodes().collect(), Vec::<Node>::new());
    assert_eq!(g.edges().collect(), Vec::<Edge>::new());

    let first = g.add_node(4);
    let second = g.add_node(5);
    assert!(first != second);
    assert_eq!(g.nb_nodes(), 2);
    assert_eq!(g.outgoing_edges(first).collect(), Vec::<Edge>::new());
    assert_eq!(g.incoming_edges(first).collect(), Vec::<Edge>::new());
    let e = g.add_edge(first, second, 6);
    assert_eq!(g.nb_edges(), 1);
    assert_eq!(g.edge_nodes(e), (first, second));
    assert_eq!(g.edges().collect(), vec![e]);
}

#[test]
fn capacity_changes_nothing_that_is_seen() {
    let mut g = Graph::<u32, u32>::with_capacity(16, 32);
    assert_eq!(g.nb_nodes(), 0);
    assert_eq!(g.nb_edges(), 0);

    let a = g.add_node(1);
    let b = g.add_node(2);
    let ab = g.add_edge(a, b, 3);

    g.reserve(100, 200);
    g.reserve_nodes(10);
    g.reserve_edges(10);

    assert_eq!(g.nb_nodes(), 2);
    assert_eq!(g.nb_edges(), 1);
    assert_eq!(g[a], 1);
    assert_eq!(g[ab], 3);
    assert_eq!(g.edge_nodes(ab), (a, b));
    assert_eq!(g.outgoing_nodes(a).collect(), vec![b]);
}

#[test]
fn cursors_yield_each_item_once() {
    let mut g = Graph::<u32, u32>::new();

    let a = g.add_node(1);
    let b = g.add_node(2);
    let c = g.add_node(3);
    let ab = g.add_edge(a, b, 1);
    let ac = g.add_edge(a, c, 2);

    let mut nodes = g.nodes();
    let mut seen = Vec::new();
    while let Some(node) = nodes.next() {
        seen.push(node);
    }
    assert_eq!(nodes.next(), None);
    assert_eq!(sorted_nodes(seen), sorted_nodes(vec![a, b, c]));

    let mut edges = g.edges();
    let first = edges.next().unwrap();
    let rest = edges.collect();
    assert_eq!(rest.len(), 1);
    assert_eq!(sorted_edges(vec![first, rest[0]]), sorted_edges(vec![ab, ac]));

    let mut out = g.outgoing_nodes(a);
    let x = out.next().unwrap();
    let y = out.next().unwrap();
    assert_eq!(out.next(), None);
    assert_eq!(out.next(), None);
    assert_eq!(sorted_nodes(vec![x, y]), sorted_nodes(vec![b, c]));

    let mut into = g.incoming_edges(c);
    assert_eq!(into.next(), Some(ac));
    assert_eq!(into.next(), None);
}

#[test]
fn weights_can_be_rewritten() {
    let mut g = Graph::<u32, u32>::new();

    let a = g.add_node(1);
    let b = g.add_node(2);
    let ab = g.add_edge(a, b, 3);

    *g.node_weight_mut(a).unwrap() = 10;
    *g.edge_weight_mut(ab).unwrap() += 4;

    assert_eq!(g[a], 10);
    assert_eq!(g[b], 2);
    assert_eq!(g[ab], 7);
    assert_eq!(g.edge_nodes(ab), (a, b));
    assert_eq!(g.outgoing_edges(a).collect(), vec![ab]);
}

#[test]
fn arena_reuses_the_key_it_freed() {
    let mut arena = Arena::<&str>::new();
    assert_eq!(arena.len(), 0);

    let a = arena.put("a");
    let b = arena.put("b");
    assert!(a != b);
    assert_eq!(arena.len(), 2);
    assert_eq!(arena.get(a), Some(&"a"));
    assert_eq!(arena.get(b), Some(&"b"));
    assert!(arena.contains(a));

    assert_eq!(arena.take(a), Some("a"));
    assert_eq!(arena.take(a), None);
    assert_eq!(arena.get(a), None);
    assert!(!arena.contains(a));
    assert_eq!(arena.len(), 1);
    assert_eq!(arena.keys(), vec![b]);

    let c = arena.put("c");
    assert_eq!(c, a);
    assert_eq!(arena.get(a), Some(&"c"));

    *arena.get_mut(b).unwrap() = "changed";
    assert_eq!(arena.get(b), Some(&"changed"));
    assert!(arena.get_mut(b + 40).is_none());
    assert_eq!(arena.take(b + 40), None);

    let mut keys = arena.keys();
    keys.sort();
    let mut expected = vec![a, b];
    expected.sort();
    assert_eq!(keys, expected);

    let copy = arena.clone();
    arena.clear();
    assert_eq!(arena.len(), 0);
    assert_eq!(arena.keys(), Vec::<usize>::new());
    assert_eq!(copy.len(), 2);
    assert_eq!(copy.get(a), Some(&"c"));

    let mut sized = Arena::<u8>::with_capacity(8);
    sized.reserve(8);
    assert_eq!(sized.put(1), 0);
    assert_eq!(sized.put(2), 1);
    assert_eq!(sized.put(3), 2);
    assert_eq!(sized.take(1), Some(2));
    assert_eq!(sized.put(4), 1);
    assert_eq!(sized.put(5), 3);

    assert_eq!(arena.put("again"), 0);
}
