//! The two MIDI representations of the rack.
//!
//! - [`MidiMessage`]: a structured enum with named fields per message type.
//! - [`MidiWire`]: a compact 4-byte form used on lock-free queues.
//!
//! [`MidiMessage::to_wire`] and [`MidiWire::to_message`] convert between
//! them; [`MidiWire::from_bytes`] and [`MidiWire::to_bytes`] convert the
//! compact form to and from raw bytes.

use vstd::prelude::*;

verus! {

/// Compact 4-byte MIDI message for lock-free queues.
#[derive(Debug, Clone, Copy, PartialEq, Eq, Structural)]
pub struct MidiWire {
    /// MIDI status byte.
    pub status: u8,
    /// First data byte (0 if unused).
    pub data1: u8,
    /// Second data byte (0 if unused).
    pub data2: u8,
    /// Number of valid bytes (1, 2, or 3).
    pub length: u8,
}

/// Structured MIDI message with named fields per message type.
#[non_exhaustive]
#[allow(inconsistent_fields)]
#[derive(Debug, Clone, Copy, PartialEq, Eq, Structural)]
pub enum MidiMessage {
    /// Note-on event.
    NoteOn { channel: u8, note: u8, velocity: u8 },
    /// Note-off event.
    NoteOff { channel: u8, note: u8, velocity: u8 },
    /// Control change (CC) event.
    ControlChange { channel: u8, controller: u8, value: u8 },
    /// Pitch bend event; 14-bit signed value (-8192..=8191).
    PitchBend { channel: u8, value: i16 },
    /// Program change event.
    ProgramChange { channel: u8, program: u8 },
    /// Channel (aftertouch) pressure event.
    ChannelPressure { channel: u8, pressure: u8 },
    /// Polyphonic key pressure event.
    PolyKeyPressure { channel: u8, note: u8, pressure: u8 },
    /// MIDI timing clock (24 PPQN).
    Clock,
    /// MIDI start.
    Start,
    /// MIDI stop.
    Stop,
    /// MIDI continue.
    Continue,
    /// Song position pointer, in MIDI beats (1 beat = 6 clock ticks).
    SongPosition { position: u16 },
    /// System exclusive (data is not carried inline).
    SystemExclusive,
}

// ── Specifications ────────────────────────────────────────────────

/// The wire form of a channel message: `kind` is the high status nibble.
pub open spec fn channel_wire(kind: u8, channel: u8, data1: u8, data2: u8, length: u8) -> MidiWire {
    MidiWire { status: kind | channel, data1, data2, length }
}

/// Number of bytes of a channel message with the given status byte.
pub open spec fn channel_message_length(status: u8) -> u8 {
    if 0xC0 <= status <= 0xDF { 2 } else { 3 }
}

/// What [`MidiWire::from_bytes`] makes of a byte sequence.
pub open spec fn wire_from_bytes(bytes: Seq<u8>) -> Option<MidiWire> {
    if bytes.len() == 0 || bytes[0] < 0x80 || bytes[0] >= 0xF0 {
        None
    } else {
        let status = bytes[0];
        let length = channel_message_length(status);
        Some(MidiWire {
            status,
            data1: if bytes.len() >= 2 { bytes[1] } else { 0 },
            data2: if length == 3 && bytes.len() >= 3 { bytes[2] } else { 0 },
            length,
        })
    }
}

/// The signed 14-bit pitch-bend value carried by two data bytes.
pub open spec fn pitch_bend_from_bytes(lsb: u8, msb: u8) -> i16 {
    ((((msb as i16) << 7u16) | (lsb as i16)) - 8192) as i16
}

/// The structured message carried by a wire status and its data bytes.
pub open spec fn message_from_wire(w: MidiWire) -> Option<MidiMessage> {
    let channel = w.status & 0x0F;
    let kind = w.status & 0xF0;
    if kind == 0x90 && w.data2 > 0 {
        Some(MidiMessage::NoteOn { channel, note: w.data1, velocity: w.data2 })
    } else if kind == 0x90 {
        Some(MidiMessage::NoteOff { channel, note: w.data1, velocity: 0 })
    } else if kind == 0x80 {
        Some(MidiMessage::NoteOff { channel, note: w.data1, velocity: w.data2 })
    } else if kind == 0xB0 {
        Some(MidiMessage::ControlChange { channel, controller: w.data1, value: w.data2 })
    } else if kind == 0xE0 {
        Some(MidiMessage::PitchBend { channel, value: pitch_bend_from_bytes(w.data1, w.data2) })
    } else if kind == 0xC0 {
        Some(MidiMessage::ProgramChange { channel, program: w.data1 })
    } else if kind == 0xD0 {
        Some(MidiMessage::ChannelPressure { channel, pressure: w.data1 })
    } else if kind == 0xA0 {
        Some(MidiMessage::PolyKeyPressure { channel, note: w.data1, pressure: w.data2 })
    } else {
        None
    }
}

/// The pitch-bend value offset into the unsigned 14-bit range.
pub open spec fn pitch_bend_biased(value: i16) -> u16 {
    (value + 8192) as u16
}

/// The wire form of a structured message; `None` for system messages.
pub open spec fn wire_from_message(m: MidiMessage) -> Option<MidiWire> {
    match m {
        MidiMessage::NoteOn { channel, note, velocity } => Some(
            channel_wire(0x90, channel, note, velocity, 3),
        ),
        MidiMessage::NoteOff { channel, note, velocity } => Some(
            channel_wire(0x80, channel, note, velocity, 3),
        ),
        MidiMessage::ControlChange { channel, controller, value } => Some(
            channel_wire(0xB0, channel, controller, value, 3),
        ),
        MidiMessage::ProgramChange { channel, program } => Some(
            channel_wire(0xC0, channel, program, 0, 2),
        ),
        MidiMessage::PitchBend { channel, value } => {
            let biased = pitch_bend_biased(value);
            Some(
                channel_wire(
                    0xE0,
                    channel,
                    (biased & 0x7F) as u8,
                    ((biased >> 7u16) & 0x7F) as u8,
                    3,
                ),
            )
        },
        MidiMessage::ChannelPressure { channel, pressure } => Some(
            channel_wire(0xD0, channel, pressure, 0, 2),
        ),
        MidiMessage::PolyKeyPressure { channel, note, pressure } => Some(
            channel_wire(0xA0, channel, note, pressure, 3),
        ),
        _ => None,
    }
}

/// Inputs on which [`MidiMessage::to_wire`] runs: the pitch-bend bias
/// `value + 8192` must fit in an `i16`.
pub open spec fn to_wire_defined(m: MidiMessage) -> bool {
    m matches MidiMessage::PitchBend { value, .. } ==> value <= 24575
}

/// A channel-voice message whose fields are all in their MIDI ranges:
/// channel 0--15, 7-bit data, pitch bend in -8192..=8191, and a Note On
/// velocity above zero (a zero-velocity Note On means Note Off).
pub open spec fn is_well_formed_channel_message(m: MidiMessage) -> bool {
    match m {
        MidiMessage::NoteOn { channel, note, velocity } => channel < 16 && note < 128 && 0
            < velocity < 128,
        MidiMessage::NoteOff { channel, note, velocity } => channel < 16 && note < 128
            && velocity < 128,
        MidiMessage::ControlChange { channel, controller, value } => channel < 16 && controller
            < 128 && value < 128,
        MidiMessage::PitchBend { channel, value } => channel < 16 && -8192 <= value <= 8191,
        MidiMessage::ProgramChange { channel, program } => channel < 16 && program < 128,
        MidiMessage::ChannelPressure { channel, pressure } => channel < 16 && pressure < 128,
        MidiMessage::PolyKeyPressure { channel, note, pressure } => channel < 16 && note < 128
            && pressure < 128,
        _ => false,
    }
}

/// A wire message that [`MidiWire::from_bytes`] reproduces from its own
/// bytes: a channel status byte, the length that status implies, and an
/// unused second data byte left at zero.
pub open spec fn is_canonical_channel_wire(w: MidiWire) -> bool {
    &&& 0x80 <= w.status < 0xF0
    &&& w.length == channel_message_length(w.status)
    &&& w.length == 2 ==> w.data2 == 0
}

impl MidiWire {
    /// Creates a Note On message on the given channel.
    pub fn note_on(channel: u8, note: u8, velocity: u8) -> (w: Self)
        ensures
            w == channel_wire(0x90, channel, note, velocity, 3),
    {
        Self { status: 0x90 | channel, data1: note, data2: velocity, length: 3 }
    }

    /// Creates a Note Off message on the given channel.
    pub fn note_off(channel: u8, note: u8, velocity: u8) -> (w: Self)
        ensures
            w == channel_wire(0x80, channel, note, velocity, 3),
    {
        Self { status: 0x80 | channel, data1: note, data2: velocity, length: 3 }
    }

    /// Creates a Control Change message on the given channel.
    pub fn cc(channel: u8, controller: u8, value: u8) -> (w: Self)
        ensures
            w == channel_wire(0xB0, channel, controller, value, 3),
    {
        Self { status: 0xB0 | channel, data1: controller, data2: value, length: 3 }
    }

    /// Creates a Program Change message on the given channel.
    pub fn program_change(channel: u8, program: u8) -> (w: Self)
        ensures
            w == channel_wire(0xC0, channel, program, 0, 2),
    {
        Self { status: 0xC0 | channel, data1: program, data2: 0, length: 2 }
    }

    /// Creates a Pitch Bend message on the given channel.
    pub fn pitch_bend(channel: u8, lsb: u8, msb: u8) -> (w: Self)
        ensures
            w == channel_wire(0xE0, channel, lsb, msb, 3),
    {
        Self { status: 0xE0 | channel, data1: lsb, data2: msb, length: 3 }
    }

    /// Parses a channel MIDI message from a byte slice.
    ///
    /// Returns `None` if the slice is empty, the first byte is not a
    /// status byte (< 0x80), or it is a system status byte (>= 0xF0).
    /// Missing data bytes read as zero.
    pub fn from_bytes(bytes: &[u8]) -> (r: Option<Self>)
        ensures
            r == wire_from_bytes(bytes@),
    {
        if bytes.len() == 0 {
            return None;
        }
        let status = bytes[0];
        if status < 0x80 {
            return None;
        }
        let length: u8 = if (0x80 <= status && status <= 0xBF) || (0xE0 <= status && status
            <= 0xEF) {
            3
        } else if 0xC0 <= status && status <= 0xDF {
            2
        } else {
            return None;
        };
        let data1: u8 = if length >= 2 && bytes.len() >= 2 {
            bytes[1]
        } else {
            0
        };
        let data2: u8 = if length >= 3 && bytes.len() >= 3 {
            bytes[2]
        } else {
            0
        };
        Some(Self { status, data1, data2, length })
    }

    /// Serialises the message to a 3-byte array, zero-padded if shorter.
    pub fn to_bytes(&self) -> (b: [u8; 3])
        ensures
            b@ == seq![self.status, self.data1, self.data2],
    {
        let b = [self.status, self.data1, self.data2];
        assert(b@ =~= seq![self.status, self.data1, self.data2]);
        b
    }

    /// Converts this compact message to the structured format.
    ///
    /// Returns `None` for unrecognised status bytes (system messages).
    /// A Note On with velocity zero becomes a Note Off.
    pub fn to_message(&self) -> (m: Option<MidiMessage>)
        ensures
            m == message_from_wire(*self),
    {
        let bytes = self.to_bytes();
        let status = bytes[0];
        let data1 = bytes[1];
        let data2 = bytes[2];
        let channel = status & 0x0F;
        let kind = status & 0xF0;
        if kind == 0x90 && data2 > 0 {
            Some(MidiMessage::NoteOn { channel, note: data1, velocity: data2 })
        } else if kind == 0x90 {
            Some(MidiMessage::NoteOff { channel, note: data1, velocity: 0 })
        } else if kind == 0x80 {
            Some(MidiMessage::NoteOff { channel, note: data1, velocity: data2 })
        } else if kind == 0xB0 {
            Some(MidiMessage::ControlChange { channel, controller: data1, value: data2 })
        } else if kind == 0xE0 {
            let raw: i16 = ((data2 as i16) << 7u16) | (data1 as i16);
            assert(((data2 as i16) << 7u16) | (data1 as i16) >= 0) by (bit_vector);
            let value: i16 = raw - 8192;
            Some(MidiMessage::PitchBend { channel, value })
        } else if kind == 0xC0 {
            Some(MidiMessage::ProgramChange { channel, program: data1 })
        } else if kind == 0xD0 {
            Some(MidiMessage::ChannelPressure { channel, pressure: data1 })
        } else if kind == 0xA0 {
            Some(MidiMessage::PolyKeyPressure { channel, note: data1, pressure: data2 })
        } else {
            None
        }
    }
}

impl MidiMessage {
    /// Converts this structured message to the compact wire format.
    ///
    /// Returns `None` for system messages (`Clock`, `Start`, `Stop`,
    /// `Continue`, `SongPosition`, `SystemExclusive`).
    pub fn to_wire(&self) -> (w: Option<MidiWire>)
        requires
            to_wire_defined(*self),
        ensures
            w == wire_from_message(*self),
    {
        match self {
            MidiMessage::NoteOn { channel, note, velocity } => Some(
                MidiWire::note_on(*channel, *note, *velocity),
            ),
            MidiMessage::NoteOff { channel, note, velocity } => Some(
                MidiWire::note_off(*channel, *note, *velocity),
            ),
            MidiMessage::ControlChange { channel, controller, value } => Some(
                MidiWire::cc(*channel, *controller, *value),
            ),
            MidiMessage::ProgramChange { channel, program } => Some(
                MidiWire::program_change(*channel, *program),
            ),
            MidiMessage::PitchBend { channel, value } => {
                let biased = (*value + 8192) as u16;
                let lsb = (biased & 0x7F) as u8;
                let msb = ((biased >> 7u16) & 0x7F) as u8;
                Some(MidiWire::pitch_bend(*channel, lsb, msb))
            },
            MidiMessage::ChannelPressure { channel, pressure } => Some(
                MidiWire { status: 0xD0 | *channel, data1: *pressure, data2: 0, length: 2 },
            ),
            MidiMessage::PolyKeyPressure { channel, note, pressure } => Some(
                MidiWire { status: 0xA0 | *channel, data1: *note, data2: *pressure, length: 3 },
            ),
            _ => None,
        }
    }
}

// ── Laws ──────────────────────────────────────────────────────────

proof fn lemma_channel_status_bits(kind: u8, channel: u8)
    requires
        kind % 16 == 0,
        channel < 16,
    ensures
        (kind | channel) & 0xF0 == kind,
        (kind | channel) & 0x0F == channel,
        kind <= (kind | channel) <= kind + 15,
{
    assert((kind | channel) & 0xF0 == kind && (kind | channel) & 0x0F == channel && kind <= (
    kind | channel) && (kind | channel) <= kind + 15) by (bit_vector)
        requires
            kind % 16 == 0,
            channel < 16,
    ;
}

proof fn lemma_pitch_bend_roundtrip(value: i16)
    requires
        -8192 <= value <= 8191,
    ensures
        pitch_bend_from_bytes(
            (pitch_bend_biased(value) & 0x7F) as u8,
            ((pitch_bend_biased(value) >> 7u16) & 0x7F) as u8,
        ) == value,
{
    let b: u16 = (value + 8192) as u16;
    assert(b == value + 8192);
    assert(b < 16384 ==> (((((b >> 7u16) & 0x7F) as u8) as i16) << 7u16) | ((((b & 0x7F) as u8)
        as i16)) == b as i16) by (bit_vector);
}

/// Converting a well-formed channel-voice message to the wire format and
/// back gives the same message.
pub proof fn law_message_wire_roundtrip(m: MidiMessage)
    requires
        is_well_formed_channel_message(m),
    ensures
        to_wire_defined(m),
        wire_from_message(m) is Some,
        message_from_wire(wire_from_message(m).unwrap()) == Some(m),
{
    match m {
        MidiMessage::NoteOn { channel, .. } => {
            lemma_channel_status_bits(0x90, channel);
        },
        MidiMessage::NoteOff { channel, .. } => {
            lemma_channel_status_bits(0x80, channel);
        },
        MidiMessage::ControlChange { channel, .. } => {
            lemma_channel_status_bits(0xB0, channel);
        },
        MidiMessage::PitchBend { channel, value } => {
            lemma_channel_status_bits(0xE0, channel);
            lemma_pitch_bend_roundtrip(value);
        },
        MidiMessage::ProgramChange { channel, .. } => {
            lemma_channel_status_bits(0xC0, channel);
        },
        MidiMessage::ChannelPressure { channel, .. } => {
            lemma_channel_status_bits(0xD0, channel);
        },
        MidiMessage::PolyKeyPressure { channel, .. } => {
            lemma_channel_status_bits(0xA0, channel);
        },
        _ => {},
    }
}

/// Parsing the bytes of a canonical channel wire message gives it back.
pub proof fn law_wire_bytes_roundtrip(w: MidiWire)
    requires
        is_canonical_channel_wire(w),
    ensures
        wire_from_bytes(seq![w.status, w.data1, w.data2]) == Some(w),
{
}

/// The wire message of any channel-voice message on a channel below 16
/// is canonical, so it survives a trip through its bytes.
pub proof fn law_message_wire_is_canonical(m: MidiMessage)
    requires
        to_wire_defined(m),
        wire_from_message(m) is Some,
        m matches MidiMessage::NoteOn { channel, .. } ==> channel < 16,
        m matches MidiMessage::NoteOff { channel, .. } ==> channel < 16,
        m matches MidiMessage::ControlChange { channel, .. } ==> channel < 16,
        m matches MidiMessage::PitchBend { channel, .. } ==> channel < 16,
        m matches MidiMessage::ProgramChange { channel, .. } ==> channel < 16,
        m matches MidiMessage::ChannelPressure { channel, .. } ==> channel < 16,
        m matches MidiMessage::PolyKeyPressure { channel, .. } ==> channel < 16,
    ensures
        is_canonical_channel_wire(wire_from_message(m).unwrap()),
{
    let w = wire_from_message(m).unwrap();
    let kind: u8 = match m {
        MidiMessage::NoteOn { .. } => 0x90,
        MidiMessage::NoteOff { .. } => 0x80,
        MidiMessage::ControlChange { .. } => 0xB0,
        MidiMessage::PitchBend { .. } => 0xE0,
        MidiMessage::ProgramChange { .. } => 0xC0,
        MidiMessage::ChannelPressure { .. } => 0xD0,
        _ => 0xA0,
    };
    let channel: u8 = match m {
        MidiMessage::NoteOn { channel, .. } => channel,
        MidiMessage::NoteOff { channel, .. } => channel,
        MidiMessage::ControlChange { channel, .. } => channel,
        MidiMessage::PitchBend { channel, .. } => channel,
        MidiMessage::ProgramChange { channel, .. } => channel,
        MidiMessage::ChannelPressure { channel, .. } => channel,
        MidiMessage::PolyKeyPressure { channel, .. } => channel,
        _ => 0,
    };
    assert(w.status == kind | channel);
    lemma_channel_status_bits(kind, channel);
}

} // verus!
