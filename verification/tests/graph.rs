use blast::graph::{DependencyGraph, WatchEventKind};
use blast::package::GraphChange;

fn names(nodes: &[&blast::graph::DependencyNode]) -> Vec<String> {
    nodes.iter().map(|n| n.name.clone()).collect()
}

fn chain_graph() -> DependencyGraph {
    // a depends on b and c
    let mut g = DependencyGraph::new();
    g.add_package("a", "1.0".to_string());
    g.add_package("b", "2.0".to_string());
    g.add_package("c", "3.0".to_string());
    g.add_dependency("a", "b");
    g.add_dependency("a", "c");
    g
}

#[test]
fn graph_add_package_indices_and_updates() {
    let mut g = DependencyGraph::new();
    assert_eq!(g.add_package("a", "1.0".to_string()), 0);
    assert_eq!(g.add_package("b", "1.0".to_string()), 1);
    assert_eq!(g.add_package("a", "1.0".to_string()), 0);
    assert_eq!(g.add_package("a", "2.0".to_string()), 0);
    assert_eq!(g.get_node("a").unwrap().version, "2.0");
    assert!(g.get_node("zzz").is_none());
    let sent = g.take_sent_changes();
    assert_eq!(sent.len(), 3);
    assert!(matches!(&sent[0], GraphChange::NodeAdded { name, version } if name == "a" && version == "1.0"));
    assert!(matches!(&sent[1], GraphChange::NodeAdded { name, .. } if name == "b"));
    assert!(matches!(&sent[2], GraphChange::NodeUpdated { name, old_version, new_version }
        if name == "a" && old_version == "1.0" && new_version == "2.0"));
    assert!(g.take_sent_changes().is_empty());
}

#[test]
fn graph_dependencies_follow_depth_first_order() {
    let g = chain_graph();
    // petgraph lists the most recently added edge first, so the walk
    // pushes c then b and visits b first.
    assert_eq!(names(&g.get_dependencies("a")), vec!["b", "c"]);
    assert!(g.get_dependencies("b").is_empty());
    assert!(g.get_dependencies("missing").is_empty());
}

#[test]
fn graph_reverse_dependencies_include_the_package() {
    let g = chain_graph();
    assert_eq!(names(&g.get_reverse_dependencies("b")), vec!["a", "b"]);
    assert_eq!(names(&g.get_reverse_dependencies("a")), vec!["a"]);
    assert!(g.get_reverse_dependencies("missing").is_empty());
}

#[test]
fn graph_installation_order_and_cycles() {
    let mut g = chain_graph();
    assert!(!g.has_cycles());
    assert_eq!(names(&g.installation_order()), vec!["a", "c", "b"]);
    g.add_dependency("c", "a");
    assert!(g.has_cycles());
    assert!(g.installation_order().is_empty());
}

#[test]
fn graph_self_loop_is_a_cycle() {
    let mut g = DependencyGraph::new();
    g.add_package("a", "1".to_string());
    g.add_dependency("a", "a");
    assert!(g.has_cycles());
}

#[test]
fn graph_unknown_names_add_no_edge() {
    let mut g = chain_graph();
    g.take_sent_changes();
    g.add_dependency("a", "nope");
    assert!(g.take_sent_changes().is_empty());
    assert_eq!(names(&g.get_dependencies("a")), vec!["b", "c"]);
}

#[test]
fn graph_remove_moves_last_node_into_place() {
    let mut g = chain_graph();
    g.remove_package("a");
    // c took a's index; b is still found
    assert_eq!(names(&g.nodes()), vec!["c", "b"]);
    assert_eq!(g.get_node("b").unwrap().version, "2.0");
    assert!(g.get_node("a").is_none());
    assert!(!g.has_cycles());
    let sent = g.take_sent_changes();
    assert!(matches!(sent.last().unwrap(), GraphChange::NodeRemoved { name } if name == "a"));
}

#[test]
fn graph_remove_keeps_edges_between_other_nodes() {
    let mut g = DependencyGraph::new();
    g.add_package("x", "1".to_string());
    g.add_package("y", "1".to_string());
    g.add_package("z", "1".to_string());
    g.add_dependency("y", "z");
    g.remove_package("x");
    // z moved to index 0; the edge y -> z now points at index 0
    assert_eq!(names(&g.nodes()), vec!["z", "y"]);
    assert_eq!(names(&g.get_dependencies("y")), vec!["z"]);
}

#[test]
fn graph_direct_dependencies_and_prune() {
    let mut g = DependencyGraph::new();
    g.add_package("u0", "1".to_string());
    g.add_package("used", "1".to_string());
    g.add_package("dep", "1".to_string());
    g.add_dependency("used", "dep");
    g.get_node_mut("used").unwrap().direct = true;
    assert_eq!(names(&g.direct_dependencies()), vec!["used"]);
    g.prune_unused();
    // u0 is removed and dep (the last node) moves into index 0
    assert_eq!(names(&g.nodes()), vec!["dep", "used"]);
    assert!(g.get_node("u0").is_none());
    assert_eq!(g.get_node("used").unwrap().name, "used");
}

#[test]
fn graph_prune_leaves_a_node_moved_into_a_passed_index() {
    let mut g = DependencyGraph::new();
    g.add_package("a", "1".to_string());
    g.add_package("b", "1".to_string());
    g.add_package("c", "1".to_string());
    g.get_node_mut("b").unwrap().direct = true;
    g.prune_unused();
    // a and c are unused: removing index 0 moves c there, and index 2 is
    // then past the end, so c stays in the graph though its name is gone
    assert_eq!(names(&g.nodes()), vec!["c", "b"]);
    assert!(g.get_node("c").is_none());
    assert!(g.get_node("a").is_none());
    assert_eq!(g.get_node("b").unwrap().name, "b");
}

#[test]
fn graph_merge_copies_nodes_and_edges() {
    let mut other = DependencyGraph::new();
    other.add_package("x", "1".to_string());
    other.add_package("y", "2".to_string());
    other.add_dependency("x", "y");
    {
        let n = other.get_node_mut("y").unwrap();
        n.size = 42;
        n.source = "pypi".to_string();
        n.direct = true;
    }
    let mut g = DependencyGraph::new();
    g.add_package("y", "1".to_string());
    g.merge(&other);
    assert_eq!(names(&g.nodes()), vec!["y", "x"]);
    let y = g.get_node("y").unwrap();
    assert_eq!(y.version, "2");
    assert_eq!(y.size, 42);
    assert_eq!(y.source, "pypi");
    assert!(y.direct);
    assert_eq!(names(&g.get_dependencies("x")), vec!["y"]);
}

#[test]
fn graph_clone_subgraph_from_a_node() {
    let mut g = chain_graph();
    g.add_package("d", "4".to_string());
    g.add_dependency("d", "a");
    let sub = g.clone_subgraph("a").unwrap();
    assert_eq!(names(&sub.nodes()), vec!["a", "b", "c"]);
    assert_eq!(names(&sub.get_dependencies("a")), vec!["b", "c"]);
    assert!(sub.get_node("d").is_none());
    assert!(g.clone_subgraph("missing").is_none());
}

#[test]
fn graph_watch_events_become_pending_changes() {
    let mut g = DependencyGraph::new();
    g.record_watch_event(WatchEventKind::Create, "/env/pkg");
    g.record_watch_event(WatchEventKind::Modify, "/env/pkg");
    g.record_watch_event(WatchEventKind::Remove, "/env/old");
    let pending = g.get_pending_changes();
    assert_eq!(pending.len(), 2);
    assert!(matches!(&pending[0], GraphChange::NodeAdded { name, version } if name == "/env/pkg" && version == "0.0.0"));
    assert!(matches!(&pending[1], GraphChange::NodeRemoved { name } if name == "/env/old"));
    assert_eq!(g.take_sent_changes().len(), 2);
    g.clear_pending_changes();
    assert!(g.get_pending_changes().is_empty());
}
