use oxurack::port::{MergePolicy, PortDirection, PortName, ValueKind};
use std::collections::HashSet;

#[test]
fn test_port_name_from_str() {
    assert_eq!(PortName::from("pitch").as_str(), "pitch");
}

#[test]
fn test_port_name_from_string() {
    assert_eq!(PortName::from(String::from("gate_in")).as_str(), "gate_in");
}

#[test]
fn test_port_name_display() {
    assert_eq!(PortName::from("audio_out").to_display_string(), "audio_out");
}

#[test]
fn test_port_name_equality() {
    let a = PortName::from("cv");
    let b = PortName::from("cv");
    let c = PortName::from("gate");
    assert_eq!(a, b);
    assert_ne!(a, c);
}

#[test]
fn test_port_name_hash() {
    let mut set = HashSet::new();
    set.insert(PortName::from("a"));
    set.insert(PortName::from("b"));
    set.insert(PortName::from("a"));
    assert_eq!(set.len(), 2);
}

#[test]
fn test_port_name_debug() {
    let debug = format!("{:?}", PortName::from("test"));
    assert!(debug.contains("test"), "expected 'test' in debug output, got: {debug}");
}

#[test]
fn test_port_name_clone() {
    let name = PortName::from("original");
    let cloned = name.clone();
    assert_eq!(name, cloned);
}

#[test]
fn test_port_direction_debug() {
    assert_eq!(format!("{:?}", PortDirection::Input), "Input");
    assert_eq!(format!("{:?}", PortDirection::Output), "Output");
}

#[test]
fn test_port_direction_equality() {
    assert_eq!(PortDirection::Input, PortDirection::Input);
    assert_eq!(PortDirection::Output, PortDirection::Output);
    assert_ne!(PortDirection::Input, PortDirection::Output);
}

#[test]
fn test_port_direction_hash() {
    let mut set = HashSet::new();
    set.insert(PortDirection::Input);
    set.insert(PortDirection::Output);
    set.insert(PortDirection::Input);
    assert_eq!(set.len(), 2);
}

#[test]
fn test_merge_reject_float() {
    assert!(MergePolicy::Reject.is_valid_for(ValueKind::Float));
}

#[test]
fn test_merge_reject_gate() {
    assert!(MergePolicy::Reject.is_valid_for(ValueKind::Gate));
}

#[test]
fn test_merge_reject_bipolar() {
    assert!(MergePolicy::Reject.is_valid_for(ValueKind::Bipolar));
}

#[test]
fn test_merge_reject_midi() {
    assert!(MergePolicy::Reject.is_valid_for(ValueKind::Midi));
}

#[test]
fn test_merge_reject_raw() {
    assert!(MergePolicy::Reject.is_valid_for(ValueKind::Raw));
}

#[test]
fn test_merge_average_float() {
    assert!(MergePolicy::Average.is_valid_for(ValueKind::Float));
}

#[test]
fn test_merge_average_gate() {
    assert!(!MergePolicy::Average.is_valid_for(ValueKind::Gate));
}

#[test]
fn test_merge_average_bipolar() {
    assert!(MergePolicy::Average.is_valid_for(ValueKind::Bipolar));
}

#[test]
fn test_merge_average_midi() {
    assert!(!MergePolicy::Average.is_valid_for(ValueKind::Midi));
}

#[test]
fn test_merge_average_raw() {
    assert!(!MergePolicy::Average.is_valid_for(ValueKind::Raw));
}

#[test]
fn test_merge_sum_float() {
    assert!(MergePolicy::Sum.is_valid_for(ValueKind::Float));
}

#[test]
fn test_merge_sum_gate() {
    assert!(MergePolicy::Sum.is_valid_for(ValueKind::Gate));
}

#[test]
fn test_merge_sum_bipolar() {
    assert!(MergePolicy::Sum.is_valid_for(ValueKind::Bipolar));
}

#[test]
fn test_merge_sum_midi() {
    assert!(!MergePolicy::Sum.is_valid_for(ValueKind::Midi));
}

#[test]
fn test_merge_sum_raw() {
    assert!(!MergePolicy::Sum.is_valid_for(ValueKind::Raw));
}

#[test]
fn test_merge_max_float() {
    assert!(MergePolicy::Max.is_valid_for(ValueKind::Float));
}

#[test]
fn test_merge_max_gate() {
    assert!(MergePolicy::Max.is_valid_for(ValueKind::Gate));
}

#[test]
fn test_merge_max_bipolar() {
    assert!(MergePolicy::Max.is_valid_for(ValueKind::Bipolar));
}

#[test]
fn test_merge_max_midi() {
    assert!(!MergePolicy::Max.is_valid_for(ValueKind::Midi));
}

#[test]
fn test_merge_max_raw() {
    assert!(!MergePolicy::Max.is_valid_for(ValueKind::Raw));
}

#[test]
fn test_merge_interleave_float() {
    assert!(!MergePolicy::Interleave.is_valid_for(ValueKind::Float));
}

#[test]
fn test_merge_interleave_gate() {
    assert!(!MergePolicy::Interleave.is_valid_for(ValueKind::Gate));
}

#[test]
fn test_merge_interleave_bipolar() {
    assert!(!MergePolicy::Interleave.is_valid_for(ValueKind::Bipolar));
}

#[test]
fn test_merge_interleave_midi() {
    assert!(MergePolicy::Interleave.is_valid_for(ValueKind::Midi));
}

#[test]
fn test_merge_interleave_raw() {
    assert!(!MergePolicy::Interleave.is_valid_for(ValueKind::Raw));
}

#[test]
fn test_merge_last_wins_float() {
    assert!(MergePolicy::LastWins.is_valid_for(ValueKind::Float));
}

#[test]
fn test_merge_last_wins_gate() {
    assert!(MergePolicy::LastWins.is_valid_for(ValueKind::Gate));
}

#[test]
fn test_merge_last_wins_bipolar() {
    assert!(MergePolicy::LastWins.is_valid_for(ValueKind::Bipolar));
}

#[test]
fn test_merge_last_wins_midi() {
    assert!(MergePolicy::LastWins.is_valid_for(ValueKind::Midi));
}

#[test]
fn test_merge_last_wins_raw() {
    assert!(MergePolicy::LastWins.is_valid_for(ValueKind::Raw));
}

#[test]
fn test_merge_policy_debug() {
    assert_eq!(format!("{:?}", MergePolicy::Reject), "Reject");
    assert_eq!(format!("{:?}", MergePolicy::Average), "Average");
    assert_eq!(format!("{:?}", MergePolicy::Sum), "Sum");
    assert_eq!(format!("{:?}", MergePolicy::Max), "Max");
    assert_eq!(format!("{:?}", MergePolicy::Interleave), "Interleave");
    assert_eq!(format!("{:?}", MergePolicy::LastWins), "LastWins");
}

#[test]
fn test_merge_policy_clone_and_eq() {
    let policy = MergePolicy::Average;
    let cloned = policy;
    assert_eq!(policy, cloned);
}

#[test]
fn test_merge_policy_hash() {
    let mut set = HashSet::new();
    set.insert(MergePolicy::Reject);
    set.insert(MergePolicy::Average);
    set.insert(MergePolicy::Sum);
    set.insert(MergePolicy::Max);
    set.insert(MergePolicy::Interleave);
    set.insert(MergePolicy::LastWins);
    assert_eq!(set.len(), 6);
}

#[test]
fn port_name_from_string_and_str_agree() {
    assert_eq!(PortName::from("x"), PortName::from(String::from("x")));
    assert_eq!(PortName::from("").as_str(), "");
}
