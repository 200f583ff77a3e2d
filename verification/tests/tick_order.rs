use oxurack::error::PatchError;
use oxurack::module::ModuleId;
use oxurack::tick::{compute_tick_order, TickNode, TickNow, TickPhase};
use std::collections::HashSet;

fn node(name: &str) -> TickNode {
    TickNode { id: ModuleId::from_instance_name(name), instance_name: name.to_string() }
}

fn pos(order: &[usize], i: usize) -> usize {
    order.iter().position(|&x| x == i).unwrap()
}

#[test]
fn test_tick_phase_eq() {
    assert_eq!(TickPhase::Produce, TickPhase::Produce);
    assert_ne!(TickPhase::Produce, TickPhase::Propagate);
    assert_ne!(TickPhase::Propagate, TickPhase::Consume);
}

#[test]
fn test_tick_phase_hash() {
    let mut set = HashSet::new();
    set.insert(TickPhase::Produce);
    set.insert(TickPhase::Propagate);
    set.insert(TickPhase::Consume);
    set.insert(TickPhase::Produce);
    assert_eq!(set.len(), 3);
}

#[test]
fn test_tick_phase_clone() {
    let phase = TickPhase::Propagate;
    assert_eq!(phase, phase.clone());
}

#[test]
fn test_tick_now_clone_copy() {
    let tick = TickNow { frame: 100 };
    let copied = tick;
    assert_eq!(tick.frame, copied.frame);
}

#[test]
fn test_topo_linear_chain() {
    let nodes = vec![node("a"), node("b"), node("c")];
    let order = compute_tick_order(&nodes, &vec![(0, 1), (1, 2)]).unwrap();
    assert!(pos(&order, 0) < pos(&order, 1), "A should come before B");
    assert!(pos(&order, 1) < pos(&order, 2), "B should come before C");
}

#[test]
fn test_topo_diamond() {
    let nodes = vec![node("a"), node("b"), node("c"), node("d")];
    let order = compute_tick_order(&nodes, &vec![(0, 1), (0, 2), (1, 3), (2, 3)]).unwrap();
    assert_eq!(pos(&order, 0), 0, "A should be first");
    assert_eq!(pos(&order, 3), 3, "D should be last");
    assert!(pos(&order, 1) < pos(&order, 3), "B before D");
    assert!(pos(&order, 2) < pos(&order, 3), "C before D");
}

#[test]
fn test_topo_no_cables() {
    let nodes = vec![node("a"), node("b"), node("c")];
    let order = compute_tick_order(&nodes, &vec![]).unwrap();
    assert_eq!(order.len(), 3);
    let ids: Vec<ModuleId> = order.iter().map(|&i| nodes[i].id).collect();
    let mut sorted_ids = ids.clone();
    sorted_ids.sort();
    assert_eq!(ids, sorted_ids, "modules should be in ModuleId order");
}

#[test]
fn test_topo_cycle_detected() {
    let nodes = vec![node("a"), node("b")];
    let err = compute_tick_order(&nodes, &vec![(0, 1), (1, 0)]).unwrap_err();
    assert!(matches!(err, PatchError::FeedbackCycle(_)), "expected FeedbackCycle, got: {err:?}");
}

#[test]
fn test_topo_deterministic() {
    let nodes = vec![node("a"), node("b"), node("c")];
    let links = vec![(0, 1), (1, 2)];
    let order1 = compute_tick_order(&nodes, &links).unwrap();
    let order2 = compute_tick_order(&nodes, &links).unwrap();
    assert_eq!(order1, order2, "topo sort should be deterministic");
}

#[test]
fn ready_modules_go_by_smallest_id() {
    let nodes = vec![
        TickNode { id: ModuleId(30), instance_name: "x".into() },
        TickNode { id: ModuleId(10), instance_name: "y".into() },
        TickNode { id: ModuleId(20), instance_name: "z".into() },
        TickNode { id: ModuleId(5), instance_name: "w".into() },
    ];
    // w (5) waits for x (30).
    let order = compute_tick_order(&nodes, &vec![(0, 3)]).unwrap();
    assert_eq!(order, vec![1, 2, 0, 3]);
}

#[test]
fn self_links_do_not_block_and_cycle_reports_only_members() {
    let nodes = vec![
        TickNode { id: ModuleId(1), instance_name: "b".into() },
        TickNode { id: ModuleId(2), instance_name: "a".into() },
        TickNode { id: ModuleId(3), instance_name: "down".into() },
    ];
    assert_eq!(compute_tick_order(&nodes, &vec![(0, 0), (1, 1)]).unwrap().len(), 3);
    match compute_tick_order(&nodes, &vec![(0, 1), (1, 0), (1, 2)]) {
        Err(PatchError::FeedbackCycle(names)) => assert_eq!(names, vec!["a", "b"]),
        other => panic!("expected FeedbackCycle, got: {other:?}"),
    }
}
