//! Error types of the rack core.
//!
//! [`CoreError`] wraps the domain errors [`PatchError`] (building or
//! validating a patch) and [`TickError`] (processing a frame).

use vstd::prelude::*;
use vstd::string::StringExecFns;

use crate::port::{MergePolicy, ValueKind};
use crate::text::{decimal, push_decimal};

verus! {

#[verifier::external_type_specification]
#[verifier::external_body]
pub struct ExIoError(std::io::Error);

/// Top-level error type for the core.
#[non_exhaustive]
#[derive(Debug)]
pub enum CoreError {
    /// An error occurred while building or modifying a patch.
    Patch(PatchError),
    /// An error occurred during a tick (frame processing).
    Tick(TickError),
    /// A named parameter was not found on the given module.
    UnknownParameter {
        /// Module instance name.
        module: String,
        /// Parameter name that was looked up.
        param: String,
    },
    /// A parameter rejected the supplied value.
    InvalidParameterValue {
        /// Module instance name.
        module: String,
        /// Parameter name.
        param: String,
        /// Why the value was rejected.
        reason: String,
    },
    /// The command is not implemented yet.
    NotImplemented(&'static str),
}

/// Errors related to patch construction and cable routing.
#[non_exhaustive]
#[derive(Debug)]
pub enum PatchError {
    /// The requested module kind is not registered.
    UnknownModuleKind(String),
    /// A module instance name was used more than once.
    DuplicateInstanceName(String),
    /// The named port does not exist on the given module.
    UnknownPort {
        /// Module instance name.
        module: String,
        /// Port name that was looked up.
        port: String,
    },
    /// The merge policy is not valid for the port's value kind.
    IllegalMerge {
        /// Module instance name.
        module: String,
        /// Port name.
        port: String,
        /// The value kind of the port.
        kind: ValueKind,
        /// The merge policy that was rejected.
        policy: MergePolicy,
    },
    /// A feedback cycle runs through these modules (sorted names).
    FeedbackCycle(Vec<String>),
    /// Source and target ports have incompatible value kinds.
    KindMismatch {
        /// Value kind of the cable source port.
        source_kind: ValueKind,
        /// Value kind of the cable target port.
        target_kind: ValueKind,
    },
    /// Failed to deserialize a patch description.
    Deserialize(String),
    /// An I/O error occurred reading or writing a patch file.
    Io(std::io::Error),
    /// Failed to serialise a patch.
    Serialize(String),
}

/// Errors that can occur during frame processing (tick).
#[non_exhaustive]
#[derive(Debug)]
pub enum TickError {
    /// A module panicked during its tick callback.
    ModulePanic(String),
    /// The real-time MIDI queue overflowed; this many events were dropped.
    MidiQueueOverflow(usize),
}

impl From<PatchError> for CoreError {
    fn from(e: PatchError) -> (r: Self)
        ensures
            r == CoreError::Patch(e),
    {
        CoreError::Patch(e)
    }
}

impl vstd::std_specs::convert::FromSpecImpl<PatchError> for CoreError {
    open spec fn obeys_from_spec() -> bool {
        true
    }

    open spec fn from_spec(v: PatchError) -> CoreError {
        CoreError::Patch(v)
    }
}

impl From<TickError> for CoreError {
    fn from(e: TickError) -> (r: Self)
        ensures
            r == CoreError::Tick(e),
    {
        CoreError::Tick(e)
    }
}

impl vstd::std_specs::convert::FromSpecImpl<TickError> for CoreError {
    open spec fn obeys_from_spec() -> bool {
        true
    }

    open spec fn from_spec(v: TickError) -> CoreError {
        CoreError::Tick(v)
    }
}

impl From<std::io::Error> for PatchError {
    fn from(e: std::io::Error) -> (r: Self)
        ensures
            r == PatchError::Io(e),
    {
        PatchError::Io(e)
    }
}

impl vstd::std_specs::convert::FromSpecImpl<std::io::Error> for PatchError {
    open spec fn obeys_from_spec() -> bool {
        true
    }

    open spec fn from_spec(v: std::io::Error) -> PatchError {
        PatchError::Io(v)
    }
}

/// How a value kind is printed in messages (its variant name).
pub open spec fn kind_name(k: ValueKind) -> Seq<char> {
    match k {
        ValueKind::Float => "Float"@,
        ValueKind::Gate => "Gate"@,
        ValueKind::Bipolar => "Bipolar"@,
        ValueKind::Midi => "Midi"@,
        ValueKind::Raw => "Raw"@,
    }
}

/// How a merge policy is printed in messages (its variant name).
pub open spec fn policy_name(p: MergePolicy) -> Seq<char> {
    match p {
        MergePolicy::Reject => "Reject"@,
        MergePolicy::Average => "Average"@,
        MergePolicy::Sum => "Sum"@,
        MergePolicy::Max => "Max"@,
        MergePolicy::Interleave => "Interleave"@,
        MergePolicy::LastWins => "LastWins"@,
    }
}

/// The text of a list of names as std's `Debug` prints a `Vec<String>`
/// (brackets, each name quoted and escaped, separated by `", "`).
pub uninterp spec fn debug_list(names: Seq<Seq<char>>) -> Seq<char>;

/// The message of a tick error.
pub open spec fn tick_message(e: TickError) -> Seq<char> {
    match e {
        TickError::ModulePanic(m) => "module '"@ + m@ + "' panicked during tick"@,
        TickError::MidiQueueOverflow(n) => "RT queue full; dropped "@ + decimal(n as nat)
            + " MIDI events this frame"@,
    }
}

/// The message of a patch error, where `io` is the text of the I/O error
/// that an `Io` error carries.
pub open spec fn patch_message(e: PatchError, io: Seq<char>) -> Seq<char> {
    match e {
        PatchError::UnknownModuleKind(k) => "unknown module kind: '"@ + k@ + "'"@,
        PatchError::DuplicateInstanceName(n) => "duplicate instance name: '"@ + n@ + "'"@,
        PatchError::UnknownPort { module, port } => "unknown port '"@ + port@ + "' on module '"@
            + module@ + "'"@,
        PatchError::IllegalMerge { module, port, kind, policy } => "merge policy "@
            + policy_name(policy) + " is not legal for value kind "@ + kind_name(kind)
            + " on port '"@ + module@ + "::"@ + port@ + "'"@,
        PatchError::FeedbackCycle(names) => "feedback cycle detected through modules: "@
            + debug_list(names.deep_view()),
        PatchError::KindMismatch { source_kind, target_kind } =>
            "cable source and target value kinds are incompatible: "@ + kind_name(source_kind)
            + " -> "@ + kind_name(target_kind),
        PatchError::Deserialize(d) => "RON parse error: "@ + d@,
        PatchError::Io(_) => "I/O error: "@ + io,
        PatchError::Serialize(d) => "RON serialization error: "@ + d@,
    }
}

/// The message of a core error, where `io` is the text of the I/O error
/// that a wrapped `Io` patch error carries.
pub open spec fn core_message(e: CoreError, io: Seq<char>) -> Seq<char> {
    match e {
        CoreError::Patch(p) => "patch error: "@ + patch_message(p, io),
        CoreError::Tick(t) => "tick error: "@ + tick_message(t),
        CoreError::UnknownParameter { module, param } => "parameter '"@ + param@
            + "' not found on module '"@ + module@ + "'"@,
        CoreError::InvalidParameterValue { module, param, reason } => "parameter '"@ + param@
            + "' on module '"@ + module@ + "' rejected value: "@ + reason@,
        CoreError::NotImplemented(what) => "not implemented: "@ + what@,
    }
}

fn kind_text(k: ValueKind) -> (s: &'static str)
    ensures
        s@ == kind_name(k),
{
    match k {
        ValueKind::Float => "Float",
        ValueKind::Gate => "Gate",
        ValueKind::Bipolar => "Bipolar",
        ValueKind::Midi => "Midi",
        ValueKind::Raw => "Raw",
    }
}

fn policy_text(p: MergePolicy) -> (s: &'static str)
    ensures
        s@ == policy_name(p),
{
    match p {
        MergePolicy::Reject => "Reject",
        MergePolicy::Average => "Average",
        MergePolicy::Sum => "Sum",
        MergePolicy::Max => "Max",
        MergePolicy::Interleave => "Interleave",
        MergePolicy::LastWins => "LastWins",
    }
}

/// Formats a list of names with std's `Debug` for `Vec<String>`.
#[verifier::external_body]
fn debug_list_text(names: &Vec<String>) -> (s: String)
    ensures
        s@ == debug_list(names.deep_view()),
{
    format!("{:?}", names)
}

/// Formats an I/O error with its `Display`; the text comes from the
/// error (and, for an error of the operating system, from the system),
/// so nothing is stated of it.
#[verifier::external_body]
fn io_error_text(e: &std::io::Error) -> (s: String) {
    format!("{}", e)
}

impl TickError {
    /// The error's message, as it is displayed.
    pub fn to_display_string(&self) -> (s: String)
        ensures
            s@ == tick_message(*self),
    {
        match self {
            TickError::ModulePanic(m) => {
                let mut s = String::from_str("module '");
                s.append(m.as_str());
                s.append("' panicked during tick");
                s
            },
            TickError::MidiQueueOverflow(n) => {
                let mut s = String::from_str("RT queue full; dropped ");
                push_decimal(&mut s, *n as u64);
                s.append(" MIDI events this frame");
                s
            },
        }
    }
}

impl PatchError {
    /// The error's message, as it is displayed. For an `Io` error the
    /// text after the prefix is the I/O error's own.
    pub fn to_display_string(&self) -> (s: String)
        ensures
            exists|io: Seq<char>| s@ == patch_message(*self, io),
    {
        match self {
            PatchError::UnknownModuleKind(k) => {
                let mut s = String::from_str("unknown module kind: '");
                s.append(k.as_str());
                s.append("'");
                proof {
                    assert(s@ == patch_message(*self, Seq::empty()));
                }
                s
            },
            PatchError::DuplicateInstanceName(n) => {
                let mut s = String::from_str("duplicate instance name: '");
                s.append(n.as_str());
                s.append("'");
                proof {
                    assert(s@ == patch_message(*self, Seq::empty()));
                }
                s
            },
            PatchError::UnknownPort { module, port } => {
                let mut s = String::from_str("unknown port '");
                s.append(port.as_str());
                s.append("' on module '");
                s.append(module.as_str());
                s.append("'");
                proof {
                    assert(s@ == patch_message(*self, Seq::empty()));
                }
                s
            },
            PatchError::IllegalMerge { module, port, kind, policy } => {
                let mut s = String::from_str("merge policy ");
                s.append(policy_text(*policy));
                s.append(" is not legal for value kind ");
                s.append(kind_text(*kind));
                s.append(" on port '");
                s.append(module.as_str());
                s.append("::");
                s.append(port.as_str());
                s.append("'");
                proof {
                    assert(s@ == patch_message(*self, Seq::empty()));
                }
                s
            },
            PatchError::FeedbackCycle(names) => {
                let mut s = String::from_str("feedback cycle detected through modules: ");
                let list = debug_list_text(names);
                s.append(list.as_str());
                proof {
                    assert(s@ == patch_message(*self, Seq::empty()));
                }
                s
            },
            PatchError::KindMismatch { source_kind, target_kind } => {
                let mut s = String::from_str(
                    "cable source and target value kinds are incompatible: ",
                );
                s.append(kind_text(*source_kind));
                s.append(" -> ");
                s.append(kind_text(*target_kind));
                proof {
                    assert(s@ == patch_message(*self, Seq::empty()));
                }
                s
            },
            PatchError::Deserialize(d) => {
                let mut s = String::from_str("RON parse error: ");
                s.append(d.as_str());
                proof {
                    assert(s@ == patch_message(*self, Seq::empty()));
                }
                s
            },
            PatchError::Io(e) => {
                let mut s = String::from_str("I/O error: ");
                let detail = io_error_text(e);
                s.append(detail.as_str());
                proof {
                    assert(s@ == patch_message(*self, detail@));
                }
                s
            },
            PatchError::Serialize(d) => {
                let mut s = String::from_str("RON serialization error: ");
                s.append(d.as_str());
                proof {
                    assert(s@ == patch_message(*self, Seq::empty()));
                }
                s
            },
        }
    }
}

impl CoreError {
    /// The error's message, as it is displayed. For a wrapped `Io` patch
    /// error the text after its prefix is the I/O error's own.
    pub fn to_display_string(&self) -> (s: String)
        ensures
            exists|io: Seq<char>| s@ == core_message(*self, io),
    {
        match self {
            CoreError::Patch(p) => {
                let mut s = String::from_str("patch error: ");
                let inner = p.to_display_string();
                s.append(inner.as_str());
                proof {
                    let io = choose|io: Seq<char>| inner@ == patch_message(*p, io);
                    assert(s@ == core_message(*self, io));
                }
                s
            },
            CoreError::Tick(t) => {
                let mut s = String::from_str("tick error: ");
                let inner = t.to_display_string();
                s.append(inner.as_str());
                proof {
                    assert(s@ == core_message(*self, Seq::empty()));
                }
                s
            },
            CoreError::UnknownParameter { module, param } => {
                let mut s = String::from_str("parameter '");
                s.append(param.as_str());
                s.append("' not found on module '");
                s.append(module.as_str());
                s.append("'");
                proof {
                    assert(s@ == core_message(*self, Seq::empty()));
                }
                s
            },
            CoreError::InvalidParameterValue { module, param, reason } => {
                let mut s = String::from_str("parameter '");
                s.append(param.as_str());
                s.append("' on module '");
                s.append(module.as_str());
                s.append("' rejected value: ");
                s.append(reason.as_str());
                proof {
                    assert(s@ == core_message(*self, Seq::empty()));
                }
                s
            },
            CoreError::NotImplemented(what) => {
                let mut s = String::from_str("not implemented: ");
                s.append(what);
                proof {
                    assert(s@ == core_message(*self, Seq::empty()));
                }
                s
            },
        }
    }
}

} // verus!
