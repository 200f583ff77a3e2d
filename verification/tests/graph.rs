use oxurack::graph::{cycle_members, greedy_order};
use oxurack::names::sort_names;

#[test]
fn cycle_members_finds_only_nodes_on_cycles() {
    // 0 -> 1 -> 2 -> 0, 2 -> 3, 4 -> 4 (self loop, ignored), 5 isolated.
    let edges = vec![(0, 1), (1, 2), (2, 0), (2, 3), (4, 4)];
    assert_eq!(cycle_members(6, &edges), vec![0, 1, 2]);
}

#[test]
fn cycle_members_two_separate_cycles() {
    let edges = vec![(3, 4), (4, 3), (0, 1), (1, 0), (1, 2)];
    assert_eq!(cycle_members(5, &edges), vec![0, 1, 3, 4]);
}

#[test]
fn greedy_order_breaks_ties_by_key_then_index() {
    let keys = vec![7, 3, 3, 1];
    let (order, complete) = greedy_order(&keys, &vec![]);
    assert!(complete);
    assert_eq!(order, vec![3, 1, 2, 0]);
}

#[test]
fn greedy_order_respects_edges() {
    let keys = vec![1, 2, 3];
    let (order, complete) = greedy_order(&keys, &vec![(2, 0), (1, 2)]);
    assert!(complete);
    assert_eq!(order, vec![1, 2, 0]);
}

#[test]
fn greedy_order_stops_at_a_cycle() {
    let keys = vec![1, 2, 3, 4];
    let (order, complete) = greedy_order(&keys, &vec![(1, 2), (2, 1), (2, 3)]);
    assert!(!complete);
    assert_eq!(order, vec![0]);
}

#[test]
fn sort_names_is_byte_order_and_keeps_duplicates() {
    let names = vec!["vco".to_string(), "Vco".to_string(), "a".to_string(), "vco".to_string(), "".to_string()];
    assert_eq!(sort_names(&names), vec!["", "Vco", "a", "vco", "vco"]);
}
