use oxurack::midi::{MidiMessage, MidiWire};

fn wire(status: u8, data1: u8, data2: u8, length: u8) -> MidiWire {
    MidiWire { status, data1, data2, length }
}

#[test]
fn test_midi_wire_size() {
    assert_eq!(std::mem::size_of::<MidiWire>(), 4);
}

#[test]
fn test_midi_wire_is_4_bytes() {
    assert_eq!(std::mem::size_of::<MidiWire>(), 4, "MidiWire must be exactly 4 bytes");
}

#[test]
fn wire_test_note_on() {
    let msg = MidiWire::note_on(0, 60, 100);
    assert_eq!(msg.status, 0x90);
    assert_eq!(msg.data1, 60);
    assert_eq!(msg.data2, 100);
    assert_eq!(msg.length, 3);
}

#[test]
fn wire_test_note_off() {
    let msg = MidiWire::note_off(1, 64, 0);
    assert_eq!(msg.status, 0x81);
    assert_eq!(msg.data1, 64);
    assert_eq!(msg.data2, 0);
    assert_eq!(msg.length, 3);
}

#[test]
fn wire_test_cc() {
    let msg = MidiWire::cc(2, 74, 127);
    assert_eq!(msg.status, 0xB2);
    assert_eq!(msg.data1, 74);
    assert_eq!(msg.data2, 127);
    assert_eq!(msg.length, 3);
}

#[test]
fn wire_test_program_change() {
    let msg = MidiWire::program_change(5, 42);
    assert_eq!(msg.status, 0xC5);
    assert_eq!(msg.data1, 42);
    assert_eq!(msg.data2, 0);
    assert_eq!(msg.length, 2);
}

#[test]
fn wire_test_pitch_bend() {
    let msg = MidiWire::pitch_bend(0, 0, 64);
    assert_eq!(msg.status, 0xE0);
    assert_eq!(msg.data1, 0);
    assert_eq!(msg.data2, 64);
    assert_eq!(msg.length, 3);
}

#[test]
fn wire_test_note_on_roundtrip() {
    let original = MidiWire::note_on(3, 72, 110);
    let bytes = original.to_bytes();
    assert_eq!(Some(original), MidiWire::from_bytes(&bytes));
}

#[test]
fn wire_test_program_change_roundtrip() {
    let original = MidiWire::program_change(7, 99);
    let bytes = original.to_bytes();
    assert_eq!(Some(original), MidiWire::from_bytes(&bytes));
}

#[test]
fn wire_test_from_bytes_empty_returns_none() {
    assert_eq!(MidiWire::from_bytes(&[]), None);
}

#[test]
fn wire_test_from_bytes_data_byte_returns_none() {
    assert_eq!(MidiWire::from_bytes(&[0x7F, 0x60, 0x40]), None);
}

#[test]
fn wire_test_from_bytes_system_returns_none() {
    assert_eq!(MidiWire::from_bytes(&[0xF0, 0x7E, 0x7F]), None);
}

#[test]
fn wire_test_to_bytes_pads_short_messages() {
    assert_eq!(MidiWire::program_change(0, 5).to_bytes(), [0xC0, 5, 0]);
}

#[test]
fn wire_test_to_bytes_note_on() {
    assert_eq!(MidiWire::note_on(0, 60, 100).to_bytes(), [0x90, 60, 100]);
}

#[test]
fn wire_test_to_bytes_note_off() {
    assert_eq!(MidiWire::note_off(1, 64, 0).to_bytes(), [0x81, 64, 0]);
}

#[test]
fn wire_test_to_bytes_cc() {
    assert_eq!(MidiWire::cc(2, 74, 127).to_bytes(), [0xB2, 74, 127]);
}

#[test]
fn wire_test_to_bytes_program_change() {
    assert_eq!(MidiWire::program_change(5, 42).to_bytes(), [0xC5, 42, 0]);
}

#[test]
fn wire_test_to_bytes_pitch_bend() {
    assert_eq!(MidiWire::pitch_bend(0, 0, 64).to_bytes(), [0xE0, 0, 64]);
}

#[test]
fn wire_test_from_bytes_note_on_missing_data2() {
    let msg = MidiWire::from_bytes(&[0x90, 60]);
    assert!(msg.is_some(), "should parse partial Note On");
    let msg = msg.unwrap();
    assert_eq!(msg.status, 0x90);
    assert_eq!(msg.data1, 60);
    assert_eq!(msg.data2, 0);
    assert_eq!(msg.length, 3);
}

#[test]
fn wire_test_from_bytes_single_status_byte() {
    let msg = MidiWire::from_bytes(&[0x90]);
    assert!(msg.is_some(), "should parse status-only Note On");
    let msg = msg.unwrap();
    assert_eq!(msg.status, 0x90);
    assert_eq!(msg.data1, 0);
    assert_eq!(msg.data2, 0);
    assert_eq!(msg.length, 3);
}

#[test]
fn wire_test_from_bytes_program_change_single_byte() {
    let msg = MidiWire::from_bytes(&[0xC0]);
    assert!(msg.is_some(), "should parse status-only Program Change");
    let msg = msg.unwrap();
    assert_eq!(msg.status, 0xC0);
    assert_eq!(msg.data1, 0);
    assert_eq!(msg.data2, 0);
    assert_eq!(msg.length, 2);
}

#[test]
fn test_to_message_note_on() {
    let msg = MidiWire::note_on(1, 60, 100).to_message().expect("should convert NoteOn");
    assert_eq!(msg, MidiMessage::NoteOn { channel: 1, note: 60, velocity: 100 });
}

#[test]
fn test_to_message_note_on_velocity_zero() {
    let msg = MidiWire::note_on(0, 64, 0).to_message().expect("should convert to NoteOff");
    assert_eq!(msg, MidiMessage::NoteOff { channel: 0, note: 64, velocity: 0 });
}

#[test]
fn test_to_message_note_off() {
    let msg = MidiWire::note_off(2, 72, 64).to_message().expect("should convert NoteOff");
    assert_eq!(msg, MidiMessage::NoteOff { channel: 2, note: 72, velocity: 64 });
}

#[test]
fn test_to_message_cc() {
    let msg = MidiWire::cc(3, 74, 127).to_message().expect("should convert CC");
    assert_eq!(msg, MidiMessage::ControlChange { channel: 3, controller: 74, value: 127 });
}

#[test]
fn test_to_message_program_change() {
    let msg = MidiWire::program_change(5, 42).to_message().expect("should convert ProgramChange");
    assert_eq!(msg, MidiMessage::ProgramChange { channel: 5, program: 42 });
}

#[test]
fn test_to_message_pitch_bend_centre() {
    let msg = MidiWire::pitch_bend(0, 0, 64).to_message().expect("should convert PitchBend");
    assert_eq!(msg, MidiMessage::PitchBend { channel: 0, value: 0 });
}

#[test]
fn test_to_message_channel_pressure() {
    let msg = wire(0xD0, 100, 0, 2).to_message().expect("should convert ChannelPressure");
    assert_eq!(msg, MidiMessage::ChannelPressure { channel: 0, pressure: 100 });
}

#[test]
fn test_to_message_poly_key_pressure() {
    let msg = wire(0xA1, 60, 80, 3).to_message().expect("should convert PolyKeyPressure");
    assert_eq!(msg, MidiMessage::PolyKeyPressure { channel: 1, note: 60, pressure: 80 });
}

#[test]
fn test_to_message_unknown_returns_none() {
    assert!(wire(0xF8, 0, 0, 1).to_message().is_none());
}

fn roundtrip(msg: MidiMessage) {
    let w = msg.to_wire().expect("channel message should convert to wire");
    let back = w.to_message().expect("wire should convert back");
    assert_eq!(msg, back);
}

#[test]
fn test_roundtrip_note_on() {
    roundtrip(MidiMessage::NoteOn { channel: 3, note: 72, velocity: 110 });
}

#[test]
fn test_roundtrip_note_off() {
    roundtrip(MidiMessage::NoteOff { channel: 2, note: 64, velocity: 80 });
}

#[test]
fn test_roundtrip_cc() {
    roundtrip(MidiMessage::ControlChange { channel: 0, controller: 1, value: 64 });
}

#[test]
fn test_roundtrip_program_change() {
    roundtrip(MidiMessage::ProgramChange { channel: 7, program: 99 });
}

#[test]
fn test_roundtrip_pitch_bend_centre() {
    roundtrip(MidiMessage::PitchBend { channel: 0, value: 0 });
}

#[test]
fn test_roundtrip_pitch_bend_max() {
    roundtrip(MidiMessage::PitchBend { channel: 0, value: 8191 });
}

#[test]
fn test_roundtrip_pitch_bend_min() {
    roundtrip(MidiMessage::PitchBend { channel: 0, value: -8192 });
}

#[test]
fn test_roundtrip_channel_pressure() {
    roundtrip(MidiMessage::ChannelPressure { channel: 0, pressure: 100 });
}

#[test]
fn test_roundtrip_poly_key_pressure() {
    roundtrip(MidiMessage::PolyKeyPressure { channel: 1, note: 60, pressure: 80 });
}

#[test]
fn test_system_messages_to_wire_returns_none() {
    assert!(MidiMessage::Clock.to_wire().is_none());
    assert!(MidiMessage::Start.to_wire().is_none());
    assert!(MidiMessage::Stop.to_wire().is_none());
    assert!(MidiMessage::Continue.to_wire().is_none());
    assert!(MidiMessage::SongPosition { position: 0 }.to_wire().is_none());
    assert!(MidiMessage::SystemExclusive.to_wire().is_none());
}

#[test]
fn test_wire_note_on_roundtrip() {
    let original = MidiWire::note_on(3, 72, 110);
    let bytes = original.to_bytes();
    assert_eq!(Some(original), MidiWire::from_bytes(&bytes));
}

#[test]
fn test_wire_program_change_roundtrip() {
    let original = MidiWire::program_change(7, 99);
    let bytes = original.to_bytes();
    assert_eq!(Some(original), MidiWire::from_bytes(&bytes));
}

#[test]
fn test_note_on_velocity_zero_becomes_note_off() {
    let msg = MidiWire::note_on(0, 64, 0).to_message().expect("should convert");
    assert_eq!(msg, MidiMessage::NoteOff { channel: 0, note: 64, velocity: 0 });
}

#[test]
fn test_wire_unknown_status_returns_none() {
    assert!(wire(0xF8, 0, 0, 1).to_message().is_none());
}

#[test]
fn message_test_midi_message_debug_and_clone() {
    let msgs = [
        MidiMessage::NoteOn { channel: 0, note: 60, velocity: 100 },
        MidiMessage::NoteOff { channel: 0, note: 60, velocity: 0 },
        MidiMessage::ControlChange { channel: 1, controller: 74, value: 64 },
        MidiMessage::PitchBend { channel: 0, value: -100 },
        MidiMessage::ProgramChange { channel: 0, program: 5 },
        MidiMessage::ChannelPressure { channel: 0, pressure: 80 },
        MidiMessage::PolyKeyPressure { channel: 0, note: 60, pressure: 50 },
        MidiMessage::Clock,
        MidiMessage::Start,
        MidiMessage::Stop,
        MidiMessage::Continue,
        MidiMessage::SongPosition { position: 42 },
        MidiMessage::SystemExclusive,
    ];
    for msg in &msgs {
        let debug = format!("{msg:?}");
        assert!(!debug.is_empty());
        let cloned = *msg;
        assert_eq!(*msg, cloned);
    }
}

#[test]
fn test_to_wire_note_on() {
    let w = MidiMessage::NoteOn { channel: 1, note: 60, velocity: 100 }.to_wire().expect("NoteOn should convert");
    assert_eq!(w, MidiWire::note_on(1, 60, 100));
}

#[test]
fn test_to_wire_note_off() {
    let w = MidiMessage::NoteOff { channel: 2, note: 72, velocity: 64 }.to_wire().expect("NoteOff should convert");
    assert_eq!(w, MidiWire::note_off(2, 72, 64));
}

#[test]
fn test_to_wire_cc() {
    let w = MidiMessage::ControlChange { channel: 3, controller: 74, value: 127 }.to_wire().expect("CC should convert");
    assert_eq!(w, MidiWire::cc(3, 74, 127));
}

#[test]
fn test_to_wire_program_change() {
    let w = MidiMessage::ProgramChange { channel: 5, program: 42 }.to_wire().expect("ProgramChange should convert");
    assert_eq!(w, MidiWire::program_change(5, 42));
}

#[test]
fn test_to_wire_pitch_bend_centre() {
    let w = MidiMessage::PitchBend { channel: 0, value: 0 }.to_wire().expect("PitchBend should convert");
    assert_eq!(w, MidiWire::pitch_bend(0, 0, 64));
}

#[test]
fn test_to_wire_channel_pressure() {
    let w = MidiMessage::ChannelPressure { channel: 0, pressure: 100 }.to_wire().expect("ChannelPressure should convert");
    assert_eq!(w.status, 0xD0);
    assert_eq!(w.data1, 100);
}

#[test]
fn test_to_wire_poly_key_pressure() {
    let w = MidiMessage::PolyKeyPressure { channel: 1, note: 60, pressure: 80 }.to_wire().expect("PolyKeyPressure should convert");
    assert_eq!(w.status, 0xA1);
    assert_eq!(w.data1, 60);
    assert_eq!(w.data2, 80);
}

#[test]
fn test_to_wire_system_messages_return_none() {
    assert!(MidiMessage::Clock.to_wire().is_none());
    assert!(MidiMessage::Start.to_wire().is_none());
    assert!(MidiMessage::Stop.to_wire().is_none());
    assert!(MidiMessage::Continue.to_wire().is_none());
    assert!(MidiMessage::SongPosition { position: 0 }.to_wire().is_none());
    assert!(MidiMessage::SystemExclusive.to_wire().is_none());
}

// Laws on concrete values.

#[test]
fn pitch_bend_extremes_encode_to_fourteen_bits() {
    assert_eq!(MidiMessage::PitchBend { channel: 2, value: -8192 }.to_wire(), Some(MidiWire::pitch_bend(2, 0, 0)));
    assert_eq!(MidiMessage::PitchBend { channel: 2, value: 8191 }.to_wire(), Some(MidiWire::pitch_bend(2, 0x7F, 0x7F)));
    assert_eq!(MidiWire::pitch_bend(2, 0x7F, 0x7F).to_message(), Some(MidiMessage::PitchBend { channel: 2, value: 8191 }));
}

#[test]
fn wire_bytes_roundtrip_for_every_channel_kind() {
    for status in 0x80u8..=0xEF {
        let w = MidiWire::from_bytes(&[status, 0x12, 0x34]).expect("channel status parses");
        assert_eq!(MidiWire::from_bytes(&w.to_bytes()), Some(w));
    }
}

#[test]
fn from_bytes_ignores_trailing_bytes_and_masks_nothing() {
    let w = MidiWire::from_bytes(&[0xB5, 7, 100, 0xFF]).expect("parses");
    assert_eq!(w, MidiWire::cc(5, 7, 100));
}

#[test]
fn wire_to_message_after_message_to_wire_is_identity_on_note_on_zero_velocity() {
    // Note-on with velocity zero is read back as a note-off: the one
    // channel message whose wire form is not canonical.
    let w = MidiMessage::NoteOn { channel: 0, note: 1, velocity: 0 }.to_wire().unwrap();
    assert_eq!(w.to_message(), Some(MidiMessage::NoteOff { channel: 0, note: 1, velocity: 0 }));
}
