//! Module identity: kinds, instance ids, and static port metadata.
//!
//! A [`ModuleKind`] names a class of module (`"vco"`, `"lfo"`); a
//! [`ModuleId`] identifies one instance, derived from its instance name.

use std::hash::{Hash, Hasher};

use vstd::prelude::*;
use vstd::string::StringExecFns;

use crate::port::{MergePolicy, PortDirection, ValueKind};
use crate::text::{decimal, push_decimal};

verus! {

#[verifier::external_type_specification]
#[verifier::external_body]
pub struct ExAHasher(ahash::AHasher);

#[verifier::external_type_specification]
#[verifier::external_body]
pub struct ExRandomState(ahash::RandomState);

/// The fixed keys of the seed hasher, so that a seed is the same from run
/// to run.
pub const SEED_KEY_0: u64 = 0x6f78_7572_6163_6b31;
/// The second fixed key of the seed hasher.
pub const SEED_KEY_1: u64 = 0x7365_6564_2d6b_6579;
/// The third fixed key of the seed hasher.
pub const SEED_KEY_2: u64 = 0x6d6f_6475_6c65_2d69;
/// The fourth fixed key of the seed hasher.
pub const SEED_KEY_3: u64 = 0x6e73_7461_6e63_6573;

/// `ahash::RandomState::with_seeds`: a hasher factory keyed by the four
/// given keys alone (no random source). Nothing is stated of it: ahash
/// does not specify its hash values, which differ between its builds
/// (the AES and the portable variant) and versions.
#[verifier::external_body]
fn random_state_with_seeds(k0: u64, k1: u64, k2: u64, k3: u64) -> ahash::RandomState {
    ahash::RandomState::with_seeds(k0, k1, k2, k3)
}

/// A fresh hasher from `<ahash::RandomState as BuildHasher>::build_hasher`,
/// keyed by the factory's keys; nothing is stated of it.
#[verifier::external_body]
fn ahasher_from_state(state: &ahash::RandomState) -> ahash::AHasher {
    std::hash::BuildHasher::build_hasher(state)
}

/// Feeds a `u64` to the hasher through `<u64 as Hash>::hash`; nothing is
/// stated of the hasher's new state.
#[verifier::external_body]
fn ahasher_write_u64(hasher: &mut ahash::AHasher, value: u64) {
    value.hash(hasher)
}

/// Feeds a string to the hasher through `<str as Hash>::hash`; nothing is
/// stated of the hasher's new state.
#[verifier::external_body]
fn ahasher_write_str(hasher: &mut ahash::AHasher, value: &str) {
    value.hash(hasher)
}

/// The hash value from `<AHasher as Hasher>::finish`; nothing is stated
/// of it, as ahash does not specify its hash values.
#[verifier::external_body]
fn ahasher_finish(hasher: &ahash::AHasher) -> u64 {
    hasher.finish()
}

/// Derives a seed by hashing `master_seed` and `instance_name` together
/// with ahash under fixed keys.
///
/// The same pair always gives the same seed, in every run of the same
/// build; ahash's hash values themselves are not specified, so no clause
/// states the value.
pub fn derive_seed(master_seed: u64, instance_name: &str) -> u64 {
    let state = random_state_with_seeds(SEED_KEY_0, SEED_KEY_1, SEED_KEY_2, SEED_KEY_3);
    let mut hasher = ahasher_from_state(&state);
    ahasher_write_u64(&mut hasher, master_seed);
    ahasher_write_str(&mut hasher, instance_name);
    ahasher_finish(&hasher)
}

/// The class name of a module (e.g. `"vco"`, `"adsr"`, `"mixer"`).
#[derive(Debug, Clone, PartialEq, Eq, Hash)]
pub struct ModuleKind(String);

impl View for ModuleKind {
    type V = Seq<char>;

    closed spec fn view(&self) -> Seq<char> {
        self.0@
    }
}

impl ModuleKind {
    /// The kind as a string slice.
    pub fn as_str(&self) -> (s: &str)
        ensures
            s@ == self@,
    {
        self.0.as_str()
    }

    /// The kind as an owned string, as it is displayed.
    pub fn to_display_string(&self) -> (s: String)
        ensures
            s@ == self@,
    {
        self.0.clone()
    }
}

impl From<&str> for ModuleKind {
    fn from(s: &str) -> (k: Self)
        ensures
            k@ == s@,
    {
        ModuleKind(s.to_owned())
    }
}

impl From<String> for ModuleKind {
    fn from(s: String) -> (k: Self)
        ensures
            k@ == s@,
    {
        ModuleKind(s)
    }
}

impl vstd::std_specs::convert::FromSpecImpl<&str> for ModuleKind {
    open spec fn obeys_from_spec() -> bool {
        false
    }

    open spec fn from_spec(v: &str) -> ModuleKind {
        arbitrary()
    }
}

impl vstd::std_specs::convert::FromSpecImpl<String> for ModuleKind {
    open spec fn obeys_from_spec() -> bool {
        false
    }

    open spec fn from_spec(v: String) -> ModuleKind {
        arbitrary()
    }
}

/// Name of a module parameter (e.g. `"write_probability"`, `"scale"`).
#[derive(Debug, Clone, PartialEq, Eq, Hash)]
pub struct ParameterName(String);

impl View for ParameterName {
    type V = Seq<char>;

    closed spec fn view(&self) -> Seq<char> {
        self.0@
    }
}

impl ParameterName {
    /// The name as a string slice.
    pub fn as_str(&self) -> (s: &str)
        ensures
            s@ == self@,
    {
        self.0.as_str()
    }

    /// The name as an owned string, as it is displayed.
    pub fn to_display_string(&self) -> (s: String)
        ensures
            s@ == self@,
    {
        self.0.clone()
    }
}

impl From<&str> for ParameterName {
    fn from(s: &str) -> (p: Self)
        ensures
            p@ == s@,
    {
        ParameterName(s.to_owned())
    }
}

impl From<String> for ParameterName {
    fn from(s: String) -> (p: Self)
        ensures
            p@ == s@,
    {
        ParameterName(s)
    }
}

impl vstd::std_specs::convert::FromSpecImpl<&str> for ParameterName {
    open spec fn obeys_from_spec() -> bool {
        false
    }

    open spec fn from_spec(v: &str) -> ParameterName {
        arbitrary()
    }
}

impl vstd::std_specs::convert::FromSpecImpl<String> for ParameterName {
    open spec fn obeys_from_spec() -> bool {
        false
    }

    open spec fn from_spec(v: String) -> ParameterName {
        arbitrary()
    }
}

/// Unique identifier for a module instance within a patch; ordered, so
/// it serves as a deterministic sort key.
#[derive(Debug, Clone, Copy, PartialEq, Eq, Hash, PartialOrd, Ord, Structural)]
pub struct ModuleId(pub u64);

impl ModuleId {
    /// Derives a [`ModuleId`] from an instance name, as the seed of the
    /// name under master seed 0.
    pub fn from_instance_name(instance_name: &str) -> ModuleId {
        ModuleId(derive_seed(0, instance_name))
    }

    /// The id as it is displayed: `ModuleId(` and the number in decimal, then `)`.
    pub fn to_display_string(&self) -> (s: String)
        ensures
            s@ == "ModuleId("@ + decimal(self.0 as nat) + ")"@,
    {
        let mut s = String::from_str("ModuleId(");
        push_decimal(&mut s, self.0);
        s.append(")");
        s
    }
}

/// Identifies a module entity: its class and its instance name.
#[derive(Debug, Clone)]
pub struct Module {
    /// The class of module (e.g. `"vco"`, `"filter"`).
    pub kind: ModuleKind,
    /// The unique instance name within the patch.
    pub instance_name: String,
}

/// Static metadata describing a port that a module type exposes.
#[derive(Debug, Clone, Copy)]
pub struct PortSchema {
    /// Machine-readable port name.
    pub name: &'static str,
    /// Whether this port is an input or output.
    pub direction: PortDirection,
    /// The kind of signal this port carries.
    pub value_kind: ValueKind,
    /// How multiple incoming cables are merged (inputs only).
    pub merge_policy: MergePolicy,
    /// Human-readable description.
    pub description: &'static str,
}

} // verus!
