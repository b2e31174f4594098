use piano_sight_reading::midi::input::{decode_message, EventType, MidiEvent, MidiInput};

#[test]
fn note_on_with_velocity_is_a_note_on() {
    assert_eq!(
        decode_message(&[0x90, 60, 100], 7),
        Some(MidiEvent { note: 60, velocity: 100, timestamp: 7, event_type: EventType::NoteOn })
    );
}

#[test]
fn note_on_with_velocity_zero_is_a_note_off() {
    assert_eq!(
        decode_message(&[0x90, 60, 0], 8),
        Some(MidiEvent { note: 60, velocity: 0, timestamp: 8, event_type: EventType::NoteOff })
    );
}

#[test]
fn note_off_status_is_a_note_off() {
    assert_eq!(
        decode_message(&[0x80, 72, 64], 9),
        Some(MidiEvent { note: 72, velocity: 64, timestamp: 9, event_type: EventType::NoteOff })
    );
}

#[test]
fn the_channel_is_ignored() {
    for channel in 0u8..16 {
        let on = decode_message(&[0x90 | channel, 61, 1], 0).unwrap();
        assert_eq!(on.event_type, EventType::NoteOn);
        assert_eq!(on.note, 61);
        let off = decode_message(&[0x80 | channel, 61, 1], 0).unwrap();
        assert_eq!(off.event_type, EventType::NoteOff);
    }
}

#[test]
fn other_status_families_are_dropped() {
    for status in [0x00u8, 0x7F, 0xA0, 0xB3, 0xC0, 0xD0, 0xE0, 0xF8, 0xFF] {
        assert_eq!(decode_message(&[status, 60, 100], 0), None);
    }
}

#[test]
fn short_messages_are_dropped() {
    assert_eq!(decode_message(&[], 0), None);
    assert_eq!(decode_message(&[0x90], 0), None);
    assert_eq!(decode_message(&[0x90, 60], 0), None);
}

#[test]
fn bytes_beyond_the_third_are_ignored() {
    assert_eq!(
        decode_message(&[0x90, 60, 100, 0x80, 60, 0], 3),
        Some(MidiEvent { note: 60, velocity: 100, timestamp: 3, event_type: EventType::NoteOn })
    );
}

#[test]
fn a_live_message_is_stamped_with_the_wall_clock() {
    let event = MidiInput::parse_midi_message(&[0x92, 64, 90], 12345).unwrap();
    assert_eq!(event.note, 64);
    assert_eq!(event.velocity, 90);
    assert_eq!(event.event_type, EventType::NoteOn);
    assert_ne!(event.timestamp, 12345);
    assert!(event.timestamp > 1_600_000_000_000);
    assert_eq!(MidiInput::parse_midi_message(&[0xB0, 64, 90], 0), None);
    assert_eq!(MidiInput::parse_midi_message(&[0x90, 64], 0), None);
}
