//! Messages between the real-time thread and the rack: transport
//! changes, MIDI input, warnings, and the conversions at the bridge.

use vstd::prelude::*;

use crate::error::CoreError;
use crate::midi::{message_from_wire, to_wire_defined, wire_from_message, MidiMessage, MidiWire};
use crate::rt::{RtErrorCode, TransportEvent};
use crate::tick::TickNow;

verus! {

/// Possible transport states.
#[non_exhaustive]
#[derive(Debug, Clone, Copy, PartialEq, Eq, Structural)]
pub enum TransportState {
    /// Playback has started from the beginning.
    Started,
    /// Playback has stopped.
    Stopped,
    /// Playback has resumed from the current position.
    Continued,
}

/// Transport state change reported by the real-time thread.
#[derive(Debug, Clone, Copy, PartialEq, Eq, Structural)]
pub struct TransportChanged(pub TransportState);

/// A MIDI message received from an external input port.
#[derive(Debug, Clone, Copy, PartialEq, Eq, Structural)]
pub struct MidiInReceived {
    /// Index of the physical input port (0-based).
    pub port_index: u8,
    /// Timestamp in nanoseconds.
    pub timestamp_ns: u64,
    /// The parsed MIDI message.
    pub message: MidiMessage,
}

/// Emitted after a patch has been loaded.
#[derive(Debug, Clone)]
pub struct PatchLoaded {
    /// The name of the patch that was loaded.
    pub patch_name: String,
}

/// Classification of non-fatal warnings from the RT thread.
#[derive(Debug, Clone, Copy, PartialEq, Eq, Structural)]
pub enum RtWarningCode {
    /// RT priority elevation failed; timing jitter may be higher.
    PriorityElevationFailed,
    /// The slave clock detected a dropout in the external clock signal.
    ClockDropout,
    /// The slave clock has not yet locked to an external clock source.
    ClockNotLocked,
    /// The RT-to-ECS queue overflowed; some events were dropped.
    QueueOverflow,
    /// A MIDI output port was disconnected or became unavailable.
    OutputPortLost,
    /// A MIDI input port was disconnected or became unavailable.
    InputPortLost,
    /// The ECS-to-RT output command queue was full; commands were dropped.
    OutputQueueFull,
}

/// Non-fatal warning reported by the real-time thread.
#[derive(Debug, Clone, Copy, PartialEq, Eq, Structural)]
pub struct RtWarning {
    /// The classification of this warning.
    pub code: RtWarningCode,
}

/// Emitted when the RT thread reports a Song Position Pointer update.
#[derive(Debug, Clone, Copy, PartialEq, Eq, Structural)]
pub struct SongPositionChanged {
    /// 14-bit song position in MIDI beats (6 clocks per beat).
    pub position: u16,
}

/// The warning code for an RT error code: the variant of the same name.
pub open spec fn warning_for(code: RtErrorCode) -> RtWarningCode {
    match code {
        RtErrorCode::PriorityElevationFailed => RtWarningCode::PriorityElevationFailed,
        RtErrorCode::ClockDropout => RtWarningCode::ClockDropout,
        RtErrorCode::ClockNotLocked => RtWarningCode::ClockNotLocked,
        RtErrorCode::QueueOverflow => RtWarningCode::QueueOverflow,
        RtErrorCode::OutputPortLost => RtWarningCode::OutputPortLost,
        RtErrorCode::InputPortLost => RtWarningCode::InputPortLost,
    }
}

impl From<RtErrorCode> for RtWarningCode {
    fn from(code: RtErrorCode) -> (w: Self)
        ensures
            w == warning_for(code),
    {
        match code {
            RtErrorCode::PriorityElevationFailed => RtWarningCode::PriorityElevationFailed,
            RtErrorCode::ClockDropout => RtWarningCode::ClockDropout,
            RtErrorCode::ClockNotLocked => RtWarningCode::ClockNotLocked,
            RtErrorCode::QueueOverflow => RtWarningCode::QueueOverflow,
            RtErrorCode::OutputPortLost => RtWarningCode::OutputPortLost,
            RtErrorCode::InputPortLost => RtWarningCode::InputPortLost,
        }
    }
}

impl vstd::std_specs::convert::FromSpecImpl<RtErrorCode> for RtWarningCode {
    open spec fn obeys_from_spec() -> bool {
        true
    }

    open spec fn from_spec(v: RtErrorCode) -> RtWarningCode {
        warning_for(v)
    }
}

/// Converts the RT thread's compact MIDI message to the structured form;
/// `None` for unrecognised status bytes.
pub fn convert_rt_midi(rt_msg: &MidiWire) -> (m: Option<MidiMessage>)
    ensures
        m == message_from_wire(*rt_msg),
{
    rt_msg.to_message()
}

/// Converts a structured MIDI message to the RT thread's compact form;
/// `None` for system messages.
pub fn convert_core_midi(msg: &MidiMessage) -> (w: Option<MidiWire>)
    requires
        to_wire_defined(*msg),
    ensures
        w == wire_from_message(*msg),
{
    msg.to_wire()
}

/// An event of the RT thread as the bridge reads it: the tempo and the
/// timestamp of a clock tick play no part in what it becomes.
#[derive(Debug, Clone, Copy, PartialEq, Eq, Structural)]
pub enum RtEventData {
    /// A clock tick at `subdivision` (0--23) of beat `beat`.
    ClockTick { beat: u64, subdivision: u8 },
    /// A transport state change.
    Transport(TransportEvent),
    /// A MIDI message received on an input port.
    MidiInput { input_port_index: u8, timestamp_ns: u64, message: MidiWire },
    /// A Song Position Pointer update, in MIDI beats.
    SongPosition { position: u16 },
    /// A non-fatal error of the RT thread.
    NonFatalError(RtErrorCode),
}

/// A message the bridge emits into the rack.
#[derive(Debug, Clone, Copy, PartialEq, Eq, Structural)]
pub enum CoreMessage {
    /// A tick to execute.
    Tick(TickNow),
    /// A transport change.
    Transport(TransportChanged),
    /// A MIDI message from an input port.
    MidiIn(MidiInReceived),
    /// A warning from the RT thread.
    Warning(RtWarning),
    /// A song position change.
    SongPosition(SongPositionChanged),
}

/// The frame number of a clock tick: `beat * 24 + subdivision`, wrapping
/// at 2^64.
pub open spec fn tick_frame(beat: u64, subdivision: u8) -> u64 {
    ((beat * 24 + subdivision) % 0x1_0000_0000_0000_0000) as u64
}

/// The transport state for a transport event.
pub open spec fn transport_state_for(t: TransportEvent) -> TransportState {
    match t {
        TransportEvent::Start => TransportState::Started,
        TransportEvent::Stop => TransportState::Stopped,
        TransportEvent::Continue => TransportState::Continued,
    }
}

/// What the bridge makes of an RT event: ticks become frames, transport
/// events transport changes, MIDI input the structured message (nothing
/// when its status byte is not recognised), errors warnings, and song
/// positions song-position changes.
pub open spec fn bridged(e: RtEventData) -> Option<CoreMessage> {
    match e {
        RtEventData::ClockTick { beat, subdivision } => Some(
            CoreMessage::Tick(TickNow { frame: tick_frame(beat, subdivision) }),
        ),
        RtEventData::Transport(t) => Some(
            CoreMessage::Transport(TransportChanged(transport_state_for(t))),
        ),
        RtEventData::MidiInput { input_port_index, timestamp_ns, message } => match message_from_wire(
            message,
        ) {
            Some(m) => Some(
                CoreMessage::MidiIn(
                    MidiInReceived { port_index: input_port_index, timestamp_ns, message: m },
                ),
            ),
            None => None,
        },
        RtEventData::SongPosition { position } => Some(
            CoreMessage::SongPosition(SongPositionChanged { position }),
        ),
        RtEventData::NonFatalError(code) => Some(
            CoreMessage::Warning(RtWarning { code: warning_for(code) }),
        ),
    }
}

/// Converts one RT event into the message it becomes in the rack, if any.
pub fn bridge_rt_event(e: &RtEventData) -> (m: Option<CoreMessage>)
    ensures
        m == bridged(*e),
{
    match e {
        RtEventData::ClockTick { beat, subdivision } => {
            let frame = beat.wrapping_mul(24).wrapping_add(*subdivision as u64);
            proof {
                let b = *beat as int;
                let s = *subdivision as int;
                let m = 0x1_0000_0000_0000_0000int;
                assert((((b * 24) % m) + s) % m == (b * 24 + s) % m) by {
                    vstd::arithmetic::div_mod::lemma_add_mod_noop(b * 24, s, m);
                    vstd::arithmetic::div_mod::lemma_small_mod(s as nat, m as nat);
                    vstd::arithmetic::div_mod::lemma_mod_twice(b * 24, m);
                }
            }
            Some(CoreMessage::Tick(TickNow { frame }))
        },
        RtEventData::Transport(t) => {
            let state = match t {
                TransportEvent::Start => TransportState::Started,
                TransportEvent::Stop => TransportState::Stopped,
                TransportEvent::Continue => TransportState::Continued,
            };
            Some(CoreMessage::Transport(TransportChanged(state)))
        },
        RtEventData::MidiInput { input_port_index, timestamp_ns, message } => {
            match convert_rt_midi(message) {
                Some(m) => Some(
                    CoreMessage::MidiIn(
                        MidiInReceived {
                            port_index: *input_port_index,
                            timestamp_ns: *timestamp_ns,
                            message: m,
                        },
                    ),
                ),
                None => None,
            }
        },
        RtEventData::SongPosition { position } => Some(
            CoreMessage::SongPosition(SongPositionChanged { position: *position }),
        ),
        RtEventData::NonFatalError(code) => Some(
            CoreMessage::Warning(RtWarning { code: RtWarningCode::from(*code) }),
        ),
    }
}

/// The kind of a command to the rack, as dispatch tells them apart.
#[derive(Debug, Clone, Copy, PartialEq, Eq, Structural)]
pub enum CoreCommandKind {
    /// Load a patch from a file.
    LoadPatch,
    /// Save the current patch to a file.
    SavePatch,
    /// Set a module parameter.
    SetParameter,
    /// Add a cable.
    AddCable,
    /// Remove a cable.
    RemoveCable,
    /// Change the tempo.
    SetBpm,
    /// Silence all output.
    Panic,
}

/// The outcome of dispatching a command: `Panic` and `SetBpm` succeed,
/// the others are not implemented yet and name themselves.
pub open spec fn dispatch_outcome_of(kind: CoreCommandKind) -> Option<&'static str> {
    match kind {
        CoreCommandKind::Panic | CoreCommandKind::SetBpm => None,
        CoreCommandKind::LoadPatch => Some("LoadPatch"),
        CoreCommandKind::SetParameter => Some("SetParameter"),
        CoreCommandKind::SavePatch => Some("SavePatch"),
        CoreCommandKind::AddCable => Some("AddCable"),
        CoreCommandKind::RemoveCable => Some("RemoveCable"),
    }
}

/// Dispatches a command by its kind: `Ok` for `Panic` and `SetBpm`, and
/// `NotImplemented` with the command's name for the others.
pub fn dispatch_outcome(kind: CoreCommandKind) -> (r: Result<(), CoreError>)
    ensures
        match dispatch_outcome_of(kind) {
            None => r is Ok,
            Some(name) => r matches Err(CoreError::NotImplemented(n)) && n == name,
        },
{
    match kind {
        CoreCommandKind::Panic | CoreCommandKind::SetBpm => Ok(()),
        CoreCommandKind::LoadPatch => Err(CoreError::NotImplemented("LoadPatch")),
        CoreCommandKind::SetParameter => Err(CoreError::NotImplemented("SetParameter")),
        CoreCommandKind::SavePatch => Err(CoreError::NotImplemented("SavePatch")),
        CoreCommandKind::AddCable => Err(CoreError::NotImplemented("AddCable")),
        CoreCommandKind::RemoveCable => Err(CoreError::NotImplemented("RemoveCable")),
    }
}

} // verus!
