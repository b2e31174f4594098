use piano_sight_reading::fraction::Fraction;
use piano_sight_reading::music::difficulty::{DifficultyClassifier, DifficultyLevel};
use piano_sight_reading::music::library::MusicLibrary;
use piano_sight_reading::notation::notes::{Judgement, Note, NoteType};
use piano_sight_reading::notation::painter::Color;

fn notes(pitches: &[u8]) -> Vec<Note> {
    pitches
        .iter()
        .enumerate()
        .map(|(i, p)| Note::new(*p, NoteType::Quarter, Fraction { numerator: i as u32, denominator: 1 }))
        .collect()
}

#[test]
fn the_default_songs() {
    let library = MusicLibrary::new();
    let songs = library.get_songs();
    let listed: Vec<(&str, &str, &str, usize, u32)> = songs
        .iter()
        .map(|s| (s.id.as_str(), s.title.as_str(), s.artist.as_str(), s.notes.len(), s.duration))
        .collect();
    assert_eq!(
        listed,
        vec![
            ("c_scale", "C Major Scale", "Practice", 8, 8),
            ("twinkle", "Twinkle Twinkle Little Star", "Traditional", 14, 12),
            ("mary_lamb", "Mary Had a Little Lamb", "Traditional", 13, 10),
        ]
    );
    for song in songs {
        assert_eq!(song.difficulty, DifficultyLevel::Beginner);
        for note in song.notes.iter() {
            assert_eq!(note.judgement, Judgement::Unplayed);
            assert_eq!(note.position.denominator, 1);
        }
    }
    let pitches = |i: usize| songs[i].notes.iter().map(|n| n.pitch).collect::<Vec<u8>>();
    assert_eq!(pitches(0), vec![60, 62, 64, 65, 67, 69, 71, 72]);
    assert_eq!(pitches(1), vec![60, 60, 67, 67, 69, 69, 67, 65, 65, 64, 64, 62, 62, 60]);
    assert_eq!(pitches(2), vec![64, 62, 60, 62, 64, 64, 64, 62, 62, 62, 64, 67, 67]);
    let beats = |i: usize| songs[i].notes.iter().map(|n| n.position.numerator).collect::<Vec<u32>>();
    assert_eq!(beats(0), vec![0, 1, 2, 3, 4, 5, 6, 7]);
    assert_eq!(beats(1), vec![0, 1, 2, 3, 4, 5, 6, 8, 9, 10, 11, 12, 13, 14]);
    assert_eq!(beats(2), vec![0, 1, 2, 3, 4, 5, 6, 8, 9, 10, 12, 13, 14]);
    let halves = |i: usize| {
        songs[i]
            .notes
            .iter()
            .enumerate()
            .filter(|(_, n)| n.note_type == NoteType::Half)
            .map(|(k, _)| k)
            .collect::<Vec<usize>>()
    };
    assert_eq!(halves(0), Vec::<usize>::new());
    assert_eq!(halves(1), vec![6, 13]);
    assert_eq!(halves(2), vec![6, 9, 12]);
}

#[test]
fn songs_by_id() {
    let library = MusicLibrary::new();
    assert_eq!(library.get_song_by_id("twinkle").unwrap().title, "Twinkle Twinkle Little Star");
    assert_eq!(library.get_song_by_id("c_scale").unwrap().title, "C Major Scale");
    assert!(library.get_song_by_id("Twinkle").is_none());
    assert!(library.get_song_by_id("").is_none());
}

#[test]
fn songs_by_difficulty() {
    let library = MusicLibrary::new();
    let beginner = library.get_songs_by_difficulty(DifficultyLevel::Beginner);
    let ids: Vec<&str> = beginner.iter().map(|s| s.id.as_str()).collect();
    assert_eq!(ids, vec!["c_scale", "twinkle", "mary_lamb"]);
    assert!(library.get_songs_by_difficulty(DifficultyLevel::Expert).is_empty());
    assert!(library.get_songs_by_difficulty(DifficultyLevel::Advanced).is_empty());
}

#[test]
fn selecting_a_song() {
    let mut library = MusicLibrary::new();
    assert!(library.get_current_song().is_none());
    assert_eq!(library.select_song(2).unwrap().id, "mary_lamb");
    assert_eq!(library.get_current_song().unwrap().id, "mary_lamb");
    assert!(library.select_song(3).is_none());
    assert_eq!(library.get_current_song().unwrap().id, "mary_lamb");
    assert_eq!(library.select_song(0).unwrap().id, "c_scale");
    assert_eq!(library.get_current_song().unwrap().id, "c_scale");
}

#[test]
fn difficulty_names_and_colours() {
    assert_eq!(DifficultyLevel::Beginner.as_str(), "Beginner");
    assert_eq!(DifficultyLevel::Intermediate.as_str(), "Intermediate");
    assert_eq!(DifficultyLevel::Advanced.as_str(), "Advanced");
    assert_eq!(DifficultyLevel::Expert.as_str(), "Expert");
    assert_eq!(DifficultyLevel::Beginner.color(), Color { r: 0, g: 150, b: 0 });
    assert_eq!(DifficultyLevel::Intermediate.color(), Color { r: 255, g: 165, b: 0 });
    assert_eq!(DifficultyLevel::Advanced.color(), Color { r: 255, g: 0, b: 0 });
    assert_eq!(DifficultyLevel::Expert.color(), Color { r: 128, g: 0, b: 128 });
}

#[test]
fn practice_time_estimates() {
    assert_eq!(DifficultyClassifier::estimate_practice_time(DifficultyLevel::Beginner), "5-10 minutes");
    assert_eq!(DifficultyClassifier::estimate_practice_time(DifficultyLevel::Intermediate), "10-20 minutes");
    assert_eq!(DifficultyClassifier::estimate_practice_time(DifficultyLevel::Advanced), "20-45 minutes");
    assert_eq!(DifficultyClassifier::estimate_practice_time(DifficultyLevel::Expert), "45+ minutes");
}

#[test]
fn songs_are_graded_by_length_and_pitches() {
    let classify = |pitches: &[u8]| DifficultyClassifier::classify_song(&notes(pitches));
    assert_eq!(classify(&[]), DifficultyLevel::Expert);
    assert_eq!(classify(&[60]), DifficultyLevel::Beginner);
    assert_eq!(classify(&[60, 62, 64, 65, 67, 60, 62, 64]), DifficultyLevel::Beginner);
    assert_eq!(classify(&[60, 62, 64, 65, 67, 69]), DifficultyLevel::Expert);
    assert_eq!(classify(&[60, 62, 64, 65, 67, 69, 71, 72]), DifficultyLevel::Expert);
    assert_eq!(classify(&[60; 9]), DifficultyLevel::Intermediate);
    assert_eq!(classify(&[60, 61, 62, 63, 64, 65, 66, 67, 60, 61, 62, 63, 64, 65, 66, 67]), DifficultyLevel::Intermediate);
    assert_eq!(classify(&[60, 61, 62, 63, 64, 65, 66, 67, 68]), DifficultyLevel::Expert);
    assert_eq!(classify(&[60; 17]), DifficultyLevel::Advanced);
    assert_eq!(classify(&[60; 32]), DifficultyLevel::Advanced);
    assert_eq!(classify(&[60; 33]), DifficultyLevel::Expert);
    let twelve: Vec<u8> = (0..32).map(|i| 60 + (i % 12) as u8).collect();
    assert_eq!(classify(&twelve), DifficultyLevel::Advanced);
    let thirteen: Vec<u8> = (0..32).map(|i| 60 + (i % 13) as u8).collect();
    assert_eq!(classify(&thirteen), DifficultyLevel::Expert);
    let library = MusicLibrary::new();
    assert_eq!(DifficultyClassifier::classify_song(&library.get_songs()[0].notes), DifficultyLevel::Expert);
    assert_eq!(DifficultyClassifier::classify_song(&library.get_songs()[1].notes), DifficultyLevel::Intermediate);
}
