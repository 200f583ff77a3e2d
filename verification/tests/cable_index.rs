use bevy_ecs::world::World;
use oxurack::cable_index::CableIndex;

fn entity(world: &mut World) -> u64 {
    world.spawn_empty().id().to_bits()
}

#[test]
fn test_cable_index_add_and_lookup() {
    let mut world = World::new();
    let src_a = entity(&mut world);
    let tgt_a = entity(&mut world);
    let src_b = entity(&mut world);
    let cable_1 = entity(&mut world);
    let cable_2 = entity(&mut world);
    let cable_3 = entity(&mut world);
    let tgt_c = entity(&mut world);

    let mut index = CableIndex::default();
    index.add_cable(cable_1, src_a, tgt_a);
    index.add_cable(cable_2, src_b, tgt_a);
    index.add_cable(cable_3, src_a, tgt_c);

    let targeting = index.cables_targeting(tgt_a);
    assert_eq!(targeting.len(), 2);
    assert!(targeting.contains(&cable_1));
    assert!(targeting.contains(&cable_2));

    let from_a = index.cables_from(src_a);
    assert_eq!(from_a.len(), 2);
    assert!(from_a.contains(&cable_1));
    assert!(from_a.contains(&cable_3));

    let from_b = index.cables_from(src_b);
    assert_eq!(from_b.len(), 1);
    assert!(from_b.contains(&cable_2));
}

#[test]
fn test_cable_index_remove() {
    let mut world = World::new();
    let src = entity(&mut world);
    let tgt = entity(&mut world);
    let cable_entity = entity(&mut world);

    let mut index = CableIndex::default();
    index.add_cable(cable_entity, src, tgt);
    assert_eq!(index.cables_targeting(tgt).len(), 1);
    assert_eq!(index.cables_from(src).len(), 1);

    index.remove_cable(cable_entity, src, tgt);
    assert!(index.cables_targeting(tgt).is_empty());
    assert!(index.cables_from(src).is_empty());
}

#[test]
fn test_cable_index_unknown_port_returns_empty() {
    let mut world = World::new();
    let unknown = entity(&mut world);
    let index = CableIndex::default();
    assert!(index.cables_targeting(unknown).is_empty());
    assert!(index.cables_from(unknown).is_empty());
}

#[test]
fn test_cable_index_clear() {
    let mut world = World::new();
    let src = entity(&mut world);
    let tgt = entity(&mut world);
    let cable_entity = entity(&mut world);

    let mut index = CableIndex::default();
    index.add_cable(cable_entity, src, tgt);
    assert!(!index.cables_targeting(tgt).is_empty());
    index.clear();
    assert!(index.cables_targeting(tgt).is_empty());
    assert!(index.cables_from(src).is_empty());
}

#[test]
fn test_cable_index_target_ports() {
    let mut world = World::new();
    let src_a = entity(&mut world);
    let tgt_a = entity(&mut world);
    let tgt_b = entity(&mut world);
    let cable_1 = entity(&mut world);
    let cable_2 = entity(&mut world);

    let mut index = CableIndex::default();
    index.add_cable(cable_1, src_a, tgt_a);
    index.add_cable(cable_2, src_a, tgt_b);

    let mut targets = index.target_ports();
    targets.sort();
    assert_eq!(targets.len(), 2);
    assert!(targets.contains(&tgt_a));
    assert!(targets.contains(&tgt_b));
}

#[test]
fn test_cable_index_target_ports_empty() {
    let index = CableIndex::default();
    assert_eq!(index.target_ports().len(), 0);
}

#[test]
fn cable_index_keeps_insertion_order_and_spills_past_four() {
    let mut index = CableIndex::new();
    for c in 1..=6u64 {
        index.add_cable(c, 100, 200);
    }
    assert_eq!(index.cables_targeting(200), &[1, 2, 3, 4, 5, 6]);
    index.remove_cable(3, 100, 200);
    assert_eq!(index.cables_targeting(200), &[1, 2, 4, 5, 6]);
    assert_eq!(index.cables_from(100), &[1, 2, 4, 5, 6]);
    // A removed port keeps its (possibly empty) entry among the targets.
    index.add_cable(9, 101, 201);
    index.remove_cable(9, 101, 201);
    let mut targets = index.target_ports();
    targets.sort();
    assert_eq!(targets, vec![200, 201]);
}

#[test]
fn cable_index_remove_undoes_add() {
    let mut index = CableIndex::new();
    index.add_cable(1, 10, 20);
    index.add_cable(2, 11, 20);
    index.add_cable(3, 10, 21);
    index.remove_cable(3, 10, 21);
    assert_eq!(index.cables_targeting(20), &[1, 2]);
    assert_eq!(index.cables_from(10), &[1]);
    assert!(index.cables_targeting(21).is_empty());
}
