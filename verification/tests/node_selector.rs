use aegis::node_selector::{NodeCapacity, NodeSelector, SelectionError};

fn create_capacity(total: usize, free: usize) -> NodeCapacity {
    NodeCapacity { total_blocks: total, free_blocks: free, allocated_blocks: total - free }
}

/// Ranking by the score the scheduler uses (capacity 50%, latency 30%, load 20%),
/// best first, for nodes with the given latency and load.
fn rank(selector: &NodeSelector, latency_load: &[(&str, f32, f32)]) -> Vec<String> {
    let mut scored: Vec<(String, f32)> = selector
        .get_nodes()
        .into_iter()
        .map(|id| {
            let cap = selector.get_capacity(&id).unwrap();
            let ratio = if cap.total_blocks == 0 { 0.0 } else { cap.free_blocks as f32 / cap.total_blocks as f32 };
            let (lat, load) = latency_load
                .iter()
                .find(|(n, _, _)| *n == id)
                .map(|(_, l, d)| (*l, *d))
                .unwrap_or((0.0, 0.0));
            let score = ratio * 0.5 + (1.0 - lat.min(100.0) / 100.0) * 0.3 + (1.0 - load.min(100.0) / 100.0) * 0.2;
            (id, score)
        })
        .collect();
    scored.sort_by(|a, b| b.1.partial_cmp(&a.1).unwrap_or(std::cmp::Ordering::Equal));
    scored.into_iter().map(|(id, _)| id).collect()
}

#[test]
fn test_register_node() {
    let mut selector = NodeSelector::new();
    let capacity = create_capacity(1000, 500);
    assert!(selector.register_node("node-1".to_string(), capacity).is_ok());
    assert_eq!(selector.get_nodes().len(), 1);
}

#[test]
fn test_select_node_basic() {
    let mut selector = NodeSelector::new();
    selector.register_node("node-1".to_string(), create_capacity(1000, 500)).unwrap();
    selector.register_node("node-2".to_string(), create_capacity(1000, 300)).unwrap();

    let ranked = rank(&selector, &[]);
    let selected = selector.select_node(100, &ranked).unwrap();
    assert_eq!(selected, "node-1"); // node-1 has more free blocks
}

#[test]
fn test_select_node_insufficient_capacity() {
    let mut selector = NodeSelector::new();
    selector.register_node("node-1".to_string(), create_capacity(1000, 50)).unwrap();

    let ranked = rank(&selector, &[]);
    let result = selector.select_node(100, &ranked);
    assert!(result.is_err());
}

#[test]
fn test_select_node_no_nodes() {
    let selector = NodeSelector::new();
    let result = selector.select_node(100, &vec![]);
    assert!(result.is_err());
}

#[test]
fn test_update_metrics() {
    let mut selector = NodeSelector::new();
    selector.register_node("node-1".to_string(), create_capacity(1000, 500)).unwrap();

    let result = selector.update_capacity("node-1", create_capacity(1000, 400));
    assert!(result.is_ok());

    let cap = selector.get_capacity("node-1").unwrap();
    assert_eq!(cap.free_blocks, 400);
    assert_eq!(selector.update_capacity("node-9", create_capacity(1, 1)), Err(SelectionError::NotRegistered));
}

#[test]
fn test_best_node() {
    let mut selector = NodeSelector::new();
    selector.register_node("node-1".to_string(), create_capacity(1000, 300)).unwrap();
    selector.register_node("node-2".to_string(), create_capacity(1000, 700)).unwrap();

    let ranked = rank(&selector, &[]);
    let best = selector.best_node(100, &ranked).unwrap();
    assert_eq!(best, "node-2");
}

#[test]
fn test_round_robin() {
    let mut selector = NodeSelector::new();
    selector.register_node("node-1".to_string(), create_capacity(1000, 500)).unwrap();
    selector.register_node("node-2".to_string(), create_capacity(1000, 500)).unwrap();
    selector.register_node("node-3".to_string(), create_capacity(1000, 500)).unwrap();

    let ranked = rank(&selector, &[]);
    let first = selector.select_node_round_robin(100, &ranked).unwrap();
    let second = selector.select_node_round_robin(100, &ranked).unwrap();
    let third = selector.select_node_round_robin(100, &ranked).unwrap();

    assert_ne!(first, second);
    assert_ne!(second, third);
}

#[test]
fn test_get_available_nodes() {
    let mut selector = NodeSelector::new();
    selector.register_node("node-1".to_string(), create_capacity(1000, 500)).unwrap();
    selector.register_node("node-2".to_string(), create_capacity(1000, 50)).unwrap();

    let available = selector.get_available_nodes(100);
    assert_eq!(available.len(), 1);
    assert!(available.contains(&"node-1".to_string()));
}

#[test]
fn test_round_robin_cycles_through_top_three_in_rank_order() {
    let mut selector = NodeSelector::new();
    for i in 1..=4 {
        selector.register_node(format!("node-{}", i), create_capacity(1000, 500)).unwrap();
    }
    let ranked: Vec<String> = (1..=4).map(|i| format!("node-{}", i)).collect();
    let picks: Vec<String> = (0..5).map(|_| selector.select_node_round_robin(1, &ranked).unwrap()).collect();
    assert_eq!(picks, vec!["node-1", "node-2", "node-3", "node-1", "node-2"]);
    assert_eq!(selector.last_selection(), Some("node-2".to_string()));
}

#[test]
fn test_register_replaces_and_remove_forgets() {
    let mut selector = NodeSelector::new();
    selector.register_node("node-1".to_string(), create_capacity(10, 1)).unwrap();
    selector.register_node("node-1".to_string(), create_capacity(10, 9)).unwrap();
    assert_eq!(selector.get_nodes().len(), 1);
    assert_eq!(selector.get_capacity("node-1").unwrap().free_blocks, 9);
    selector.remove_node("node-1").unwrap();
    assert!(selector.get_nodes().is_empty());
    assert_eq!(selector.get_capacity("node-1"), Err(SelectionError::NotRegistered));
}

#[test]
fn test_selection_errors() {
    let mut selector = NodeSelector::new();
    assert_eq!(selector.select_node(1, &vec![]), Err(SelectionError::NoNodes));
    selector.register_node("node-1".to_string(), create_capacity(10, 1)).unwrap();
    let ranked = vec!["node-1".to_string()];
    assert_eq!(selector.select_node(5, &ranked), Err(SelectionError::NoCapacity { required_blocks: 5 }));
    assert_eq!(selector.best_node(5, &ranked), Err(SelectionError::NoCapacity { required_blocks: 5 }));
    assert!(create_capacity(10, 5).is_available(5));
    assert!(!create_capacity(10, 5).is_available(6));
}
