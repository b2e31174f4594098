use piano_sight_reading::fraction::Fraction;
use piano_sight_reading::music::parser::{
    ImportError, MidiFile, MidiParser, Timing, TrackEvent, TrackMessage,
};
use piano_sight_reading::notation::notes::{Judgement, Note, NoteType};

fn header(tracks: u16, division: [u8; 2]) -> Vec<u8> {
    let mut bytes = vec![b'M', b'T', b'h', b'd', 0, 0, 0, 6, 0, 1];
    bytes.extend_from_slice(&tracks.to_be_bytes());
    bytes.extend_from_slice(&division);
    bytes
}

fn track(events: &[u8]) -> Vec<u8> {
    let mut bytes = vec![b'M', b'T', b'r', b'k'];
    bytes.extend_from_slice(&(events.len() as u32 + 4).to_be_bytes());
    bytes.extend_from_slice(events);
    bytes.extend_from_slice(&[0x00, 0xFF, 0x2F, 0x00]);
    bytes
}

fn on(delta: u32, key: u8, vel: u8) -> TrackEvent {
    TrackEvent { delta, message: TrackMessage::NoteOn { key, vel } }
}

fn off(delta: u32, key: u8) -> TrackEvent {
    TrackEvent { delta, message: TrackMessage::NoteOff { key } }
}

#[test]
fn one_beat_note_is_a_quarter_at_position_zero() {
    let mut bytes = header(1, [0x00, 0x60]);
    bytes.extend(track(&[0x00, 0x90, 60, 64, 0x60, 0x80, 60, 64]));
    let notes = MidiParser::parse_midi_file(&bytes).unwrap();
    assert_eq!(notes.len(), 1);
    assert_eq!(notes[0].pitch, 60);
    assert_eq!(notes[0].note_type, NoteType::Quarter);
    assert_eq!(notes[0].position, Fraction { numerator: 0, denominator: 96 });
    assert_eq!(notes[0].position.numerator as f32 / notes[0].position.denominator as f32, 0.0);
    assert_eq!(notes[0].judgement, Judgement::Unplayed);
}

#[test]
fn note_on_with_velocity_zero_ends_a_note() {
    let mut bytes = header(1, [0x01, 0xE0]);
    bytes.extend(track(&[0x00, 0x91, 72, 100, 0x87, 0x40, 0x91, 72, 0]));
    let notes = MidiParser::parse_midi_file(&bytes).unwrap();
    assert_eq!(
        notes,
        vec![Note {
            pitch: 72,
            note_type: NoteType::Half,
            position: Fraction { numerator: 0, denominator: 480 },
            judgement: Judgement::Unplayed,
        }]
    );
}

#[test]
fn tracks_are_merged_and_sorted_by_position() {
    let mut bytes = header(2, [0x00, 0x60]);
    bytes.extend(track(&[0x60, 0x90, 64, 64, 0x60, 0x80, 64, 0]));
    bytes.extend(track(&[0x00, 0x90, 48, 64, 0x30, 0x80, 48, 0, 0x30, 0x90, 50, 64, 0x18, 0x80, 50, 0]));
    let notes = MidiParser::parse_midi_file(&bytes).unwrap();
    let seen: Vec<(u8, u32, NoteType)> =
        notes.iter().map(|n| (n.pitch, n.position.numerator, n.note_type)).collect();
    assert_eq!(
        seen,
        vec![
            (48, 0, NoteType::Eighth),
            (64, 96, NoteType::Quarter),
            (50, 96, NoteType::Eighth),
        ]
    );
}

#[test]
fn timecode_timing_falls_back_to_96_ticks_per_beat() {
    let mut bytes = header(1, [0xE7, 0x28]);
    bytes.extend(track(&[0x00, 0x90, 60, 64, 0x60, 0x80, 60, 64]));
    let notes = MidiParser::parse_midi_file(&bytes).unwrap();
    assert_eq!(notes.len(), 1);
    assert_eq!(notes[0].position.denominator, 96);
    assert_eq!(notes[0].note_type, NoteType::Quarter);
}

#[test]
fn malformed_bytes_fail_the_import() {
    let result = MidiParser::parse_midi_file(b"not a midi file");
    assert!(matches!(result, Err(ImportError::Malformed(_))));
    let mut truncated = header(1, [0x00, 0x60]);
    truncated.truncate(9);
    assert!(matches!(MidiParser::parse_midi_file(&truncated), Err(ImportError::Malformed(_))));
}

#[test]
fn zero_ticks_per_beat_is_an_error() {
    let file = MidiFile { timing: Timing::Metrical(0), tracks: vec![vec![on(0, 60, 64), off(10, 60)]] };
    assert!(matches!(MidiParser::notes_from_file(&file), Err(ImportError::ZeroTicksPerBeat)));
}

#[test]
fn a_track_past_the_last_tick_is_an_error() {
    let file = MidiFile {
        timing: Timing::Metrical(96),
        tracks: vec![vec![on(0, 60, 64), off(96, 60)], vec![on(u32::MAX, 61, 64), off(1, 61)]],
    };
    assert!(matches!(MidiParser::notes_from_file(&file), Err(ImportError::TickOverflow)));
    let fits = MidiFile {
        timing: Timing::Metrical(96),
        tracks: vec![vec![on(u32::MAX - 1, 61, 64), off(1, 61)]],
    };
    assert_eq!(MidiParser::notes_from_file(&fits).unwrap().len(), 1);
}

#[test]
fn unmatched_note_on_is_dropped() {
    let file = MidiFile {
        timing: Timing::Metrical(96),
        tracks: vec![vec![on(0, 60, 64), on(10, 62, 64), off(86, 60), off(0, 65)]],
    };
    let notes = MidiParser::notes_from_file(&file).unwrap();
    assert_eq!(notes.len(), 1);
    assert_eq!(notes[0].pitch, 60);
    assert_eq!(notes[0].position.numerator, 0);
}

#[test]
fn a_second_note_on_restarts_the_pitch() {
    let track = vec![on(0, 60, 64), on(96, 60, 64), off(96, 60)];
    let notes = MidiParser::parse_track(&track, 96).unwrap();
    assert_eq!(notes.len(), 1);
    assert_eq!(notes[0].position, Fraction { numerator: 96, denominator: 96 });
    assert_eq!(notes[0].note_type, NoteType::Quarter);
}

#[test]
fn duration_thresholds() {
    let class = |n: u32, d: u32| MidiParser::duration_to_note_type(Fraction { numerator: n, denominator: d });
    assert_eq!(class(7, 2), NoteType::Whole);
    assert_eq!(class(4, 1), NoteType::Whole);
    assert_eq!(class(349, 100), NoteType::Half);
    assert_eq!(class(3, 2), NoteType::Half);
    assert_eq!(class(149, 100), NoteType::Quarter);
    assert_eq!(class(3, 4), NoteType::Quarter);
    assert_eq!(class(1, 1), NoteType::Quarter);
    assert_eq!(class(74, 100), NoteType::Eighth);
    assert_eq!(class(0, 96), NoteType::Eighth);
}

#[test]
fn sorting_keeps_ties_in_order_of_arrival() {
    let note = |pitch: u8, n: u32, d: u32| {
        Note::new(pitch, NoteType::Quarter, Fraction { numerator: n, denominator: d })
    };
    let sorted = MidiParser::sort_by_position(vec![
        note(1, 3, 2),
        note(2, 1, 1),
        note(3, 6, 4),
        note(4, 0, 1),
        note(5, 2, 2),
    ]);
    let pitches: Vec<u8> = sorted.iter().map(|n| n.pitch).collect();
    assert_eq!(pitches, vec![4, 2, 5, 1, 3]);
}

#[test]
fn errors_describe_themselves() {
    assert_eq!(ImportError::ZeroTicksPerBeat.message(), "The header declares zero ticks per beat");
    assert_eq!(ImportError::TickOverflow.message(), "A track is longer than 32 bits of ticks");
    assert_eq!(ImportError::Malformed("bad header".to_string()).message(), "Malformed file: bad header");
    let error = MidiParser::parse_midi_file(b"MThd").unwrap_err();
    let text = error.message();
    assert!(text.starts_with("Malformed file: "));
    assert!(text.len() > "Malformed file: ".len());
}

#[test]
fn imported_notes_stand_in_order_of_position() {
    let mut bytes = header(3, [0x00, 0x60]);
    bytes.extend(track(&[0x70, 0x90, 64, 64, 0x10, 0x80, 64, 0, 0x00, 0x90, 65, 1, 0x81, 0x40, 0x80, 65, 0]));
    bytes.extend(track(&[0x00, 0x90, 48, 64, 0x00, 0x90, 50, 64, 0x60, 0x80, 50, 0, 0x60, 0x80, 48, 0]));
    bytes.extend(track(&[0x70, 0x90, 70, 64, 0x01, 0x80, 70, 0]));
    let notes = MidiParser::parse_midi_file(&bytes).unwrap();
    let seen: Vec<(u8, u32)> = notes.iter().map(|n| (n.pitch, n.position.numerator)).collect();
    assert_eq!(seen, vec![(50, 0), (48, 0), (64, 0x70), (70, 0x70), (65, 0x80)]);
    for pair in notes.windows(2) {
        assert!(pair[0].position.numerator <= pair[1].position.numerator);
        assert_eq!(pair[0].position.denominator, 96);
    }
    assert_eq!(notes[0].note_type, NoteType::Quarter);
    assert_eq!(notes[1].note_type, NoteType::Half);
    assert_eq!(notes[4].note_type, NoteType::Half);
}

#[test]
fn empty_bytes_fail_the_import() {
    assert!(matches!(MidiParser::parse_midi_file(&[]), Err(ImportError::Malformed(_))));
}

#[test]
fn a_frame_rate_of_128_fails_the_import() {
    let bytes = [b'M', b'T', b'h', b'd', 0, 0, 0, 6, 0, 1, 0, 1, 0x80, 0];
    assert!(MidiParser::frame_rate_is_unreadable(&bytes));
    let error = MidiParser::parse_midi_file(&bytes).unwrap_err();
    assert_eq!(error.message(), "Malformed file: a header declares a frame rate that cannot be read");
    let mut with_track = header(1, [0x80, 0x28]);
    with_track.extend(track(&[0x00, 0x90, 60, 64, 0x60, 0x80, 60, 64]));
    assert!(matches!(MidiParser::parse_midi_file(&with_track), Err(ImportError::Malformed(_))));
}

#[test]
fn a_second_header_with_a_frame_rate_of_128_fails_the_import() {
    let mut bytes = header(1, [0x00, 0x60]);
    bytes.extend(header(1, [0x80, 0x00]));
    bytes.extend(track(&[0x00, 0x90, 60, 64, 0x60, 0x80, 60, 64]));
    assert!(MidiParser::frame_rate_is_unreadable(&bytes));
    let error = MidiParser::parse_midi_file(&bytes).unwrap_err();
    assert_eq!(error.message(), "Malformed file: a header declares a frame rate that cannot be read");
}

#[test]
fn other_timings_are_read() {
    assert!(!MidiParser::frame_rate_is_unreadable(&[]));
    assert!(!MidiParser::frame_rate_is_unreadable(b"MThd"));
    assert!(!MidiParser::frame_rate_is_unreadable(&header(1, [0x00, 0x80])));
    assert!(!MidiParser::frame_rate_is_unreadable(&header(1, [0x81, 0x00])));
    assert!(!MidiParser::frame_rate_is_unreadable(&header(1, [0xE7, 0x28])));
    assert!(!MidiParser::frame_rate_is_unreadable(&[b'M', b'T', b'h', b'd', 0, 0, 0, 6, 0, 1, 0, 1]));
    assert!(!MidiParser::frame_rate_is_unreadable(&[b'M', b'T', b'r', b'k', 0, 0, 0, 6, 0, 1, 0, 1, 0x80, 0]));
    assert!(!MidiParser::frame_rate_is_unreadable(&[9, b'M', b'T', b'h', b'd', 0, 0, 0, 6, 0, 1, 0, 1, 0x80, 0]));
    let mut duplicate = header(1, [0x00, 0x60]);
    duplicate.extend(header(1, [0x01, 0xE0]));
    duplicate.extend(track(&[0x00, 0x90, 60, 64, 0x60, 0x80, 60, 64]));
    let notes = MidiParser::parse_midi_file(&duplicate).unwrap();
    assert_eq!(notes.len(), 1);
    assert_eq!(notes[0].position.denominator, 96);
}

fn chunk(tag: &[u8; 4], body: &[u8]) -> Vec<u8> {
    let mut bytes = tag.to_vec();
    bytes.extend_from_slice(&(body.len() as u32).to_be_bytes());
    bytes.extend_from_slice(body);
    bytes
}

fn wrapped(inner: &[Vec<u8>]) -> Vec<u8> {
    let mut body = b"RMID".to_vec();
    for part in inner {
        body.extend_from_slice(part);
    }
    let mut bytes = b"RIFF".to_vec();
    bytes.extend_from_slice(&(body.len() as u32).to_le_bytes());
    bytes.extend_from_slice(&body);
    bytes
}

fn wrapper_chunk(tag: &[u8; 4], body: &[u8]) -> Vec<u8> {
    let mut bytes = tag.to_vec();
    bytes.extend_from_slice(&(body.len() as u32).to_le_bytes());
    bytes.extend_from_slice(body);
    if body.len() % 2 == 1 {
        bytes.push(0);
    }
    bytes
}

fn one_beat_of_middle_c() -> Vec<u8> {
    track(&[0x00, 0x90, 60, 64, 0x60, 0x80, 60, 64])
}

fn one_quarter_note(bytes: &[u8]) {
    assert!(!MidiParser::frame_rate_is_unreadable(bytes));
    let notes = MidiParser::parse_midi_file(bytes).unwrap();
    assert_eq!(notes.len(), 1);
    assert_eq!(notes[0].pitch, 60);
    assert_eq!(notes[0].note_type, NoteType::Quarter);
    assert_eq!(notes[0].position, Fraction { numerator: 0, denominator: 96 });
}

#[test]
fn a_header_tag_inside_a_text_event_is_no_header() {
    let mut bytes = vec![b'M', b'T', b'h', b'd', 0, 0, 0, 6, 0, 0, 0, 1, 0, 0x60];
    bytes.extend(track(&[
        0x00, 0xFF, 0x01, 0x0E, b'M', b'T', b'h', b'd', 0, 0, 0, 0, 0, 0, 0, 0, 0x80, 0, 0x00, 0x90, 60, 64,
        0x60, 0x80, 60, 64,
    ]));
    assert_eq!(bytes.len(), 52);
    one_quarter_note(&bytes);
}

#[test]
fn a_header_tag_inside_another_chunk_is_no_header() {
    let mut bytes = header(1, [0x00, 0x60]);
    bytes.extend(chunk(b"XFIH", &[b'M', b'T', b'h', b'd', 0, 0, 0, 6, 0, 1, 0, 1, 0x80, 0]));
    bytes.extend(one_beat_of_middle_c());
    one_quarter_note(&bytes);
}

#[test]
fn a_header_behind_a_refused_chunk_is_not_read() {
    let mut bytes = header(1, [0x00, 0x60]);
    bytes.extend(one_beat_of_middle_c());
    bytes.extend(chunk(b"MThd", &[0, 9, 0, 1, 0x80, 0]));
    bytes.extend(chunk(b"MThd", &[0, 1, 0, 1, 0x80, 0]));
    one_quarter_note(&bytes);
    let mut short = header(1, [0x00, 0x60]);
    short.extend(one_beat_of_middle_c());
    short.extend(chunk(b"MThd", &[0, 1, 0, 1, 0x80]));
    one_quarter_note(&short);
    let mut ends_early = header(1, [0x00, 0x60]);
    ends_early.extend(one_beat_of_middle_c());
    ends_early.extend_from_slice(&[b'M', b'T', b'h', b'd', 0, 0, 0, 6, 0, 1, 0, 1, 0x80]);
    one_quarter_note(&ends_early);
    let mut cut = header(1, [0x00, 0x60]);
    cut.extend(one_beat_of_middle_c());
    cut.extend_from_slice(b"MThd\0\0\0");
    one_quarter_note(&cut);
    let mut unknown_rate = header(1, [0x00, 0x60]);
    unknown_rate.extend(one_beat_of_middle_c());
    unknown_rate.extend(chunk(b"MThd", &[0, 1, 0, 1, 0x81, 0]));
    unknown_rate.extend(chunk(b"MThd", &[0, 1, 0, 1, 0x80, 0]));
    one_quarter_note(&unknown_rate);
}

#[test]
fn a_refused_first_header_fails_the_import_without_more() {
    for body in [
        vec![0u8, 3, 0, 1, 0x80, 0],
        vec![0, 1, 0, 1, 0x80],
        vec![0, 1, 0, 1, 0x81, 0],
        vec![0, 1, 0, 1, 0xFF, 0],
        vec![0xFF, 0xFF, 0, 1, 0x80, 0],
        vec![],
    ] {
        let mut bytes = chunk(b"MThd", &body);
        bytes.extend(chunk(b"MThd", &[0, 1, 0, 1, 0x80, 0]));
        bytes.extend(one_beat_of_middle_c());
        assert!(!MidiParser::frame_rate_is_unreadable(&bytes));
        let error = MidiParser::parse_midi_file(&bytes).unwrap_err();
        assert!(matches!(error, ImportError::Malformed(_)));
        assert_ne!(error.message(), "Malformed file: a header declares a frame rate that cannot be read");
    }
}

#[test]
fn a_later_header_is_read_too() {
    let mut bytes = header(1, [0x00, 0x60]);
    bytes.extend(one_beat_of_middle_c());
    bytes.extend(chunk(b"junk", &[1, 2, 3]));
    bytes.extend(chunk(b"MThd", &[0, 2, 0, 1, 0x80, 0, 7, 7]));
    assert!(MidiParser::frame_rate_is_unreadable(&bytes));
    assert!(matches!(MidiParser::parse_midi_file(&bytes), Err(ImportError::Malformed(_))));
    let mut long = header(1, [0x00, 0x60]);
    long.extend_from_slice(&[b'M', b'T', b'h', b'd', 0xFF, 0xFF, 0xFF, 0xFF, 0, 0, 0, 1, 0x80, 0]);
    assert!(MidiParser::frame_rate_is_unreadable(&long));
    assert!(matches!(MidiParser::parse_midi_file(&long), Err(ImportError::Malformed(_))));
}

#[test]
fn all_four_frame_rates_are_read() {
    for high in [0xE8u8, 0xE7, 0xE3, 0xE2] {
        let mut bytes = header(1, [high, 0x28]);
        bytes.extend(one_beat_of_middle_c());
        one_quarter_note(&bytes);
    }
}

#[test]
fn a_wrapped_file_is_read() {
    let mut file = header(1, [0x00, 0x60]);
    file.extend(one_beat_of_middle_c());
    one_quarter_note(&wrapped(&[wrapper_chunk(b"data", &file)]));
    one_quarter_note(&wrapped(&[
        wrapper_chunk(b"LIST", &[b'M', b'T', b'h', b'd', 0, 0, 0, 6, 0, 1, 0, 1, 0x80]),
        wrapper_chunk(b"disp", &[1, 2, 3, 4]),
        wrapper_chunk(b"data", &file),
        wrapper_chunk(b"data", &header(1, [0x80, 0])),
    ]));
    let mut behind_junk = chunk(b"junk", &[9, 9, 9]);
    behind_junk.extend(&file);
    one_quarter_note(&wrapped(&[wrapper_chunk(b"data", &behind_junk)]));
}

#[test]
fn a_wrapped_file_with_a_frame_rate_of_128_fails_the_import() {
    let mut file = chunk(b"junk", &[9]);
    file.extend(header(1, [0x80, 0x00]));
    file.extend(one_beat_of_middle_c());
    let bytes = wrapped(&[wrapper_chunk(b"LIST", &[7]), wrapper_chunk(b"data", &file)]);
    assert!(MidiParser::frame_rate_is_unreadable(&bytes));
    let error = MidiParser::parse_midi_file(&bytes).unwrap_err();
    assert_eq!(error.message(), "Malformed file: a header declares a frame rate that cannot be read");
}

#[test]
fn wrappers_that_hold_no_file_fail_the_import() {
    let mut file = header(1, [0x80, 0x00]);
    file.extend(one_beat_of_middle_c());
    let mut track_first = one_beat_of_middle_c();
    track_first.extend(header(1, [0x80, 0x00]));
    let mut other_form = wrapped(&[wrapper_chunk(b"data", &file)]);
    other_form[8..12].copy_from_slice(b"WAVE");
    for bytes in [
        b"RIFF".to_vec(),
        b"RIFF\x04\0\0".to_vec(),
        b"RIFF\x02\0\0\0RM".to_vec(),
        other_form,
        wrapped(&[wrapper_chunk(b"LIST", &file)]),
        wrapped(&[wrapper_chunk(b"data", &track_first)]),
        wrapped(&[]),
    ] {
        assert!(!MidiParser::frame_rate_is_unreadable(&bytes));
        let error = MidiParser::parse_midi_file(&bytes).unwrap_err();
        assert!(matches!(error, ImportError::Malformed(_)));
        assert_ne!(error.message(), "Malformed file: a header declares a frame rate that cannot be read");
    }
}
