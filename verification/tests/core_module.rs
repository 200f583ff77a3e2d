use std::hash::{BuildHasher, Hash, Hasher};
use oxurack::module::{derive_seed, SEED_KEY_0, SEED_KEY_1, SEED_KEY_2, SEED_KEY_3, Module, ModuleId, ModuleKind, ParameterName, PortSchema};
use oxurack::port::{MergePolicy, PortDirection, ValueKind};
use std::collections::HashSet;

#[test]
fn test_module_kind_from_str() {
    assert_eq!(ModuleKind::from("vco").as_str(), "vco");
}

#[test]
fn test_module_kind_from_string() {
    assert_eq!(ModuleKind::from(String::from("filter")).as_str(), "filter");
}

#[test]
fn test_module_kind_display() {
    assert_eq!(ModuleKind::from("lfo").to_display_string(), "lfo");
}

#[test]
fn test_module_kind_equality() {
    let a = ModuleKind::from("vco");
    let b = ModuleKind::from("vco");
    let c = ModuleKind::from("lfo");
    assert_eq!(a, b);
    assert_ne!(a, c);
}

#[test]
fn test_module_kind_hash() {
    let mut set = HashSet::new();
    set.insert(ModuleKind::from("vco"));
    set.insert(ModuleKind::from("lfo"));
    set.insert(ModuleKind::from("vco"));
    assert_eq!(set.len(), 2);
}

#[test]
fn test_module_kind_debug() {
    let debug = format!("{:?}", ModuleKind::from("adsr"));
    assert!(debug.contains("adsr"), "expected 'adsr' in debug output, got: {debug}");
}

#[test]
fn test_module_kind_clone() {
    let kind = ModuleKind::from("mixer");
    assert_eq!(kind, kind.clone());
}

#[test]
fn test_module_id_equality() {
    assert_eq!(ModuleId(1), ModuleId(1));
    assert_ne!(ModuleId(1), ModuleId(2));
}

#[test]
fn test_module_id_ordering() {
    assert!(ModuleId(1) < ModuleId(2));
    assert!(ModuleId(100) > ModuleId(50));
    assert!(ModuleId(0) <= ModuleId(0));
}

#[test]
fn test_module_id_sorting() {
    let mut ids = vec![ModuleId(5), ModuleId(1), ModuleId(3), ModuleId(2)];
    ids.sort();
    assert_eq!(ids, vec![ModuleId(1), ModuleId(2), ModuleId(3), ModuleId(5)]);
}

#[test]
fn test_module_id_debug() {
    let debug = format!("{:?}", ModuleId(7));
    assert!(debug.contains('7'), "expected '7' in debug output, got: {debug}");
}

#[test]
fn test_module_id_hash() {
    let mut set = HashSet::new();
    set.insert(ModuleId(1));
    set.insert(ModuleId(2));
    set.insert(ModuleId(1));
    assert_eq!(set.len(), 2);
}

#[test]
fn test_module_id_copy() {
    let id = ModuleId(99);
    let copied = id;
    assert_eq!(id, copied);
}

#[test]
fn test_module_id_from_instance_name_deterministic() {
    assert_eq!(ModuleId::from_instance_name("vco_1"), ModuleId::from_instance_name("vco_1"));
}

#[test]
fn test_module_id_from_instance_name_differs_for_different_names() {
    assert_ne!(ModuleId::from_instance_name("vco_1"), ModuleId::from_instance_name("vco_2"));
}

#[test]
fn test_port_schema_debug() {
    let schema = PortSchema {
        name: "pitch",
        direction: PortDirection::Input,
        value_kind: ValueKind::Float,
        merge_policy: MergePolicy::LastWins,
        description: "Pitch CV input",
    };
    let debug = format!("{schema:?}");
    assert!(debug.contains("pitch"), "expected 'pitch' in: {debug}");
}

#[test]
fn test_port_schema_clone() {
    let schema = PortSchema {
        name: "out",
        direction: PortDirection::Output,
        value_kind: ValueKind::Bipolar,
        merge_policy: MergePolicy::Reject,
        description: "Audio output",
    };
    let cloned = schema.clone();
    assert_eq!(cloned.name, "out");
    assert_eq!(cloned.direction, PortDirection::Output);
}

#[test]
fn derive_seed_is_stable_within_a_process_and_depends_on_both_inputs() {
    assert_eq!(derive_seed(42, "lfo_1"), derive_seed(42, "lfo_1"));
    assert_ne!(derive_seed(42, "lfo_1"), derive_seed(43, "lfo_1"));
    assert_ne!(derive_seed(42, "lfo_1"), derive_seed(42, "lfo_2"));
    assert_eq!(ModuleId::from_instance_name("x"), ModuleId(derive_seed(0, "x")));
}

#[test]
fn parameter_name_conversions() {
    let p = ParameterName::from("cutoff");
    assert_eq!(p.as_str(), "cutoff");
    assert_eq!(p.to_display_string(), "cutoff");
    assert_eq!(p, ParameterName::from(String::from("cutoff")));
}

#[test]
fn module_holds_kind_and_name() {
    let m = Module { kind: ModuleKind::from("vco"), instance_name: "vco_1".into() };
    let c = m.clone();
    assert_eq!(c.kind, ModuleKind::from("vco"));
    assert_eq!(c.instance_name, "vco_1");
}

#[test]
fn test_derive_seed_deterministic() {
    assert_eq!(derive_seed(42, "vco_1"), derive_seed(42, "vco_1"));
}

#[test]
fn test_derive_seed_differs_for_different_names() {
    assert_ne!(derive_seed(42, "vco_1"), derive_seed(42, "vco_2"));
}

#[test]
fn test_derive_seed_differs_for_different_master_seeds() {
    assert_ne!(derive_seed(0, "lfo_1"), derive_seed(1, "lfo_1"));
}

#[test]
fn test_derive_seed_empty_name() {
    let seed = derive_seed(0, "");
    assert_eq!(seed, derive_seed(0, ""));
}

#[test]
fn test_module_id_display() {
    assert_eq!(ModuleId(42).to_display_string(), "ModuleId(42)");
}

#[test]
fn module_id_display_prints_every_digit() {
    assert_eq!(ModuleId(0).to_display_string(), "ModuleId(0)");
    assert_eq!(ModuleId(u64::MAX).to_display_string(), "ModuleId(18446744073709551615)");
}

#[test]
fn derive_seed_uses_the_fixed_keys() {
    let state = ahash::RandomState::with_seeds(SEED_KEY_0, SEED_KEY_1, SEED_KEY_2, SEED_KEY_3);
    for (master, name) in [(42u64, "vco_1"), (0, ""), (7, "lfo_2")] {
        let mut hasher = state.build_hasher();
        master.hash(&mut hasher);
        name.hash(&mut hasher);
        assert_eq!(derive_seed(master, name), hasher.finish());
    }
    // A hasher with other keys gives another seed.
    let other = ahash::RandomState::with_seeds(1, 2, 3, 4);
    let mut hasher = other.build_hasher();
    42u64.hash(&mut hasher);
    "vco_1".hash(&mut hasher);
    assert_ne!(derive_seed(42, "vco_1"), hasher.finish());
}
