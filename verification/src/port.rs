//! Port names, directions, value kinds and merge policies.
//!
//! Every module exposes named ports, each carrying signals of one
//! [`ValueKind`]. Input ports declare a [`MergePolicy`] that governs how
//! several incoming cables are combined.

use vstd::prelude::*;

verus! {

/// The kind of signal a port carries, without payload.
#[non_exhaustive]
#[derive(Debug, Clone, Copy, PartialEq, Eq, Hash, Structural)]
pub enum ValueKind {
    /// Unipolar float (0.0..=1.0 by convention).
    Float,
    /// Boolean gate.
    Gate,
    /// Bipolar float (-1.0..=1.0 by convention).
    Bipolar,
    /// A MIDI message.
    Midi,
    /// Raw 16-bit value.
    Raw,
}

/// Whether a port is an input or an output.
#[non_exhaustive]
#[derive(Debug, Clone, Copy, PartialEq, Eq, Hash, Structural)]
pub enum PortDirection {
    /// The port receives signals.
    Input,
    /// The port emits signals.
    Output,
}

/// Policy for merging several incoming cables on one input port.
#[non_exhaustive]
#[derive(Debug, Clone, Copy, PartialEq, Eq, Hash, Structural)]
pub enum MergePolicy {
    /// Reject a second connection: only one cable allowed.
    Reject,
    /// Arithmetic mean of all incoming values.
    Average,
    /// Sum of all incoming values.
    Sum,
    /// Maximum of all incoming values.
    Max,
    /// Round-robin interleave (for MIDI streams).
    Interleave,
    /// Last write wins.
    LastWins,
}

/// The validity table of merge policies against value kinds.
///
/// | Policy       | Float | Gate | Bipolar | Midi  | Raw   |
/// |--------------|-------|------|---------|-------|-------|
/// | Reject       | yes   | yes  | yes     | yes   | yes   |
/// | Average      | yes   | no   | yes     | no    | no    |
/// | Sum          | yes   | yes  | yes     | no    | no    |
/// | Max          | yes   | yes  | yes     | no    | no    |
/// | Interleave   | no    | no   | no      | yes   | no    |
/// | LastWins     | yes   | yes  | yes     | yes   | yes   |
pub open spec fn merge_policy_allows(policy: MergePolicy, kind: ValueKind) -> bool {
    match policy {
        MergePolicy::Reject | MergePolicy::LastWins => true,
        MergePolicy::Average => kind == ValueKind::Float || kind == ValueKind::Bipolar,
        MergePolicy::Sum | MergePolicy::Max => kind == ValueKind::Float || kind == ValueKind::Gate
            || kind == ValueKind::Bipolar,
        MergePolicy::Interleave => kind == ValueKind::Midi,
    }
}

impl MergePolicy {
    /// Returns `true` if this merge policy is valid for the given kind.
    pub fn is_valid_for(&self, kind: ValueKind) -> (b: bool)
        ensures
            b == merge_policy_allows(*self, kind),
    {
        match self {
            MergePolicy::Reject | MergePolicy::LastWins => true,
            MergePolicy::Average => matches!(kind, ValueKind::Float | ValueKind::Bipolar),
            MergePolicy::Sum | MergePolicy::Max => matches!(
                kind,
                ValueKind::Float | ValueKind::Gate | ValueKind::Bipolar
            ),
            MergePolicy::Interleave => matches!(kind, ValueKind::Midi),
        }
    }
}

/// Port name: a case-sensitive identifier like `"pitch"` or `"gate_in"`.
#[derive(Debug, Clone, PartialEq, Eq, Hash)]
pub struct PortName(String);

impl View for PortName {
    type V = Seq<char>;

    closed spec fn view(&self) -> Seq<char> {
        self.0@
    }
}

impl PortName {
    /// The name as a string slice.
    pub fn as_str(&self) -> (s: &str)
        ensures
            s@ == self@,
    {
        self.0.as_str()
    }

    /// The name as an owned string, as it is displayed.
    pub fn to_display_string(&self) -> (s: String)
        ensures
            s@ == self@,
    {
        self.0.clone()
    }
}

impl From<&str> for PortName {
    fn from(s: &str) -> (p: Self)
        ensures
            p@ == s@,
    {
        PortName(s.to_owned())
    }
}

impl From<String> for PortName {
    fn from(s: String) -> (p: Self)
        ensures
            p@ == s@,
    {
        PortName(s)
    }
}

impl vstd::std_specs::convert::FromSpecImpl<&str> for PortName {
    open spec fn obeys_from_spec() -> bool {
        false
    }

    open spec fn from_spec(v: &str) -> PortName {
        arbitrary()
    }
}

impl vstd::std_specs::convert::FromSpecImpl<String> for PortName {
    open spec fn obeys_from_spec() -> bool {
        false
    }

    open spec fn from_spec(v: String) -> PortName {
        arbitrary()
    }
}

} // verus!
