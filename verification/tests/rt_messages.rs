use oxurack::midi::MidiWire as MidiMessage;
use oxurack::rt::{classify_midi, MidiClassification};

#[test]
fn test_midi_message_size() {
    assert_eq!(std::mem::size_of::<MidiMessage>(), 4);
}

#[test]
fn messages_test_note_on() {
    let msg = MidiMessage::note_on(0, 60, 100);
    assert_eq!((msg.status, msg.data1, msg.data2, msg.length), (0x90, 60, 100, 3));
}

#[test]
fn messages_test_note_off() {
    let msg = MidiMessage::note_off(1, 64, 0);
    assert_eq!((msg.status, msg.data1, msg.data2, msg.length), (0x81, 64, 0, 3));
}

#[test]
fn messages_test_cc() {
    let msg = MidiMessage::cc(2, 74, 127);
    assert_eq!((msg.status, msg.data1, msg.data2, msg.length), (0xB2, 74, 127, 3));
}

#[test]
fn messages_test_program_change() {
    let msg = MidiMessage::program_change(5, 42);
    assert_eq!((msg.status, msg.data1, msg.data2, msg.length), (0xC5, 42, 0, 2));
}

#[test]
fn messages_test_pitch_bend() {
    let msg = MidiMessage::pitch_bend(0, 0, 64);
    assert_eq!((msg.status, msg.data1, msg.data2, msg.length), (0xE0, 0, 64, 3));
}

#[test]
fn messages_test_note_on_roundtrip() {
    let original = MidiMessage::note_on(3, 72, 110);
    let bytes = original.to_bytes();
    assert_eq!(Some(original), MidiMessage::from_bytes(&bytes));
}

#[test]
fn messages_test_program_change_roundtrip() {
    let original = MidiMessage::program_change(7, 99);
    let bytes = original.to_bytes();
    assert_eq!(Some(original), MidiMessage::from_bytes(&bytes));
}

#[test]
fn messages_test_from_bytes_empty_returns_none() {
    assert_eq!(MidiMessage::from_bytes(&[]), None);
}

#[test]
fn messages_test_from_bytes_data_byte_returns_none() {
    assert_eq!(MidiMessage::from_bytes(&[0x7F, 0x60, 0x40]), None);
}

#[test]
fn messages_test_from_bytes_system_returns_none() {
    assert_eq!(MidiMessage::from_bytes(&[0xF0, 0x7E, 0x7F]), None);
}

#[test]
fn messages_test_to_bytes_pads_short_messages() {
    assert_eq!(MidiMessage::program_change(0, 5).to_bytes(), [0xC0, 5, 0]);
}

#[test]
fn test_classify_clock() {
    assert_eq!(classify_midi(&[0xF8]), Some(MidiClassification::Clock));
}

#[test]
fn test_classify_start() {
    assert_eq!(classify_midi(&[0xFA]), Some(MidiClassification::Start));
}

#[test]
fn test_classify_stop() {
    assert_eq!(classify_midi(&[0xFC]), Some(MidiClassification::Stop));
}

#[test]
fn test_classify_continue() {
    assert_eq!(classify_midi(&[0xFB]), Some(MidiClassification::Continue));
}

#[test]
fn test_classify_active_sensing() {
    assert_eq!(classify_midi(&[0xFE]), Some(MidiClassification::ActiveSensing));
}

#[test]
fn test_classify_system_reset() {
    assert_eq!(classify_midi(&[0xFF]), Some(MidiClassification::SystemReset));
}

#[test]
fn test_classify_note_on() {
    assert_eq!(
        classify_midi(&[0x90, 60, 100]),
        Some(MidiClassification::Channel(MidiMessage { status: 0x90, data1: 60, data2: 100, length: 3 }))
    );
}

#[test]
fn test_classify_program_change() {
    assert_eq!(
        classify_midi(&[0xC0, 42]),
        Some(MidiClassification::Channel(MidiMessage { status: 0xC0, data1: 42, data2: 0, length: 2 }))
    );
}

#[test]
fn test_classify_song_position() {
    assert_eq!(classify_midi(&[0xF2, 0x10, 0x02]), Some(MidiClassification::SongPosition { position: 272 }));
}

#[test]
fn test_classify_empty_returns_none() {
    assert_eq!(classify_midi(&[]), None);
}

#[test]
fn test_classify_data_byte_returns_none() {
    assert_eq!(classify_midi(&[0x60]), None);
}

#[test]
fn test_classify_sysex_returns_none() {
    assert_eq!(classify_midi(&[0xF0, 0x7E, 0xF7]), None);
}

#[test]
fn test_classify_mtc_quarter_frame() {
    assert_eq!(classify_midi(&[0xF1, 0x00]), None);
}

#[test]
fn test_classify_song_select() {
    assert_eq!(classify_midi(&[0xF3, 0x00]), None);
}

#[test]
fn test_classify_tune_request() {
    assert_eq!(classify_midi(&[0xF6]), None);
}

#[test]
fn messages_test_from_bytes_note_on_missing_data2() {
    let msg = MidiMessage::from_bytes(&[0x90, 60]).expect("should parse partial Note On");
    assert_eq!((msg.status, msg.data1, msg.data2, msg.length), (0x90, 60, 0, 3));
}

#[test]
fn messages_test_from_bytes_single_status_byte() {
    let msg = MidiMessage::from_bytes(&[0x90]).expect("should parse status-only Note On");
    assert_eq!((msg.status, msg.data1, msg.data2, msg.length), (0x90, 0, 0, 3));
}

#[test]
fn messages_test_from_bytes_program_change_single_byte() {
    let msg = MidiMessage::from_bytes(&[0xC0]).expect("should parse status-only Program Change");
    assert_eq!((msg.status, msg.data1, msg.data2, msg.length), (0xC0, 0, 0, 2));
}

#[test]
fn messages_test_to_bytes_note_on() {
    assert_eq!(MidiMessage::note_on(0, 60, 100).to_bytes(), [0x90, 60, 100]);
}

#[test]
fn messages_test_to_bytes_note_off() {
    assert_eq!(MidiMessage::note_off(1, 64, 0).to_bytes(), [0x81, 64, 0]);
}

#[test]
fn messages_test_to_bytes_cc() {
    assert_eq!(MidiMessage::cc(2, 74, 127).to_bytes(), [0xB2, 74, 127]);
}

#[test]
fn messages_test_to_bytes_program_change() {
    assert_eq!(MidiMessage::program_change(5, 42).to_bytes(), [0xC5, 42, 0]);
}

#[test]
fn messages_test_to_bytes_pitch_bend() {
    assert_eq!(MidiMessage::pitch_bend(0, 0, 64).to_bytes(), [0xE0, 0, 64]);
}

#[test]
fn test_classify_song_position_zero() {
    assert_eq!(classify_midi(&[0xF2, 0x00, 0x00]), Some(MidiClassification::SongPosition { position: 0 }));
}

#[test]
fn test_classify_song_position_max() {
    assert_eq!(classify_midi(&[0xF2, 0x7F, 0x7F]), Some(MidiClassification::SongPosition { position: 16383 }));
}

#[test]
fn test_classify_song_position_missing_bytes() {
    assert_eq!(classify_midi(&[0xF2]), Some(MidiClassification::SongPosition { position: 0 }));
}

#[test]
fn test_classify_channel_pressure() {
    assert_eq!(
        classify_midi(&[0xD0, 100]),
        Some(MidiClassification::Channel(MidiMessage { status: 0xD0, data1: 100, data2: 0, length: 2 }))
    );
}

#[test]
fn classify_song_position_lsb_only() {
    assert_eq!(classify_midi(&[0xF2, 0x05]), Some(MidiClassification::SongPosition { position: 5 }));
}

#[test]
fn classify_every_channel_status_matches_from_bytes() {
    for status in 0x80u8..=0xEF {
        let bytes = [status, 1, 2];
        assert_eq!(
            classify_midi(&bytes),
            Some(MidiClassification::Channel(MidiMessage::from_bytes(&bytes).unwrap()))
        );
    }
}
