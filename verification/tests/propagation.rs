use oxurack::module::ModuleId;
use oxurack::propagation::{propagation_order, CableKey};

fn key(tm: u64, tp: &str, sm: u64, sp: &str) -> CableKey {
    CableKey {
        target_module: ModuleId(tm),
        target_port: tp.to_string(),
        source_module: ModuleId(sm),
        source_port: sp.to_string(),
    }
}

#[test]
fn orders_by_target_then_source() {
    let keys = vec![
        key(2, "in", 1, "out"),
        key(1, "pitch", 5, "out"),
        key(1, "in", 9, "out"),
        key(1, "in", 3, "zz"),
        key(1, "in", 3, "aa"),
    ];
    assert_eq!(propagation_order(&keys), vec![4, 3, 2, 1, 0]);
}

#[test]
fn equal_keys_keep_listing_order() {
    let keys = vec![key(1, "in", 1, "out"), key(0, "x", 0, "y"), key(1, "in", 1, "out"), key(1, "in", 1, "out")];
    assert_eq!(propagation_order(&keys), vec![1, 0, 2, 3]);
}

#[test]
fn port_names_compare_by_bytes() {
    let keys = vec![key(1, "b", 1, "o"), key(1, "B", 1, "o"), key(1, "ab", 1, "o"), key(1, "", 1, "o")];
    assert_eq!(propagation_order(&keys), vec![3, 1, 2, 0]);
}

#[test]
fn empty_order() {
    assert!(propagation_order(&vec![]).is_empty());
}
