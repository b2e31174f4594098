//! Grading of songs by their length and the number of pitches they use.

use vstd::prelude::*;
use std::collections::HashSet;
use crate::notation::notes::Note;
use crate::notation::painter::Color;

verus! {

broadcast use vstd::std_specs::hash::group_hash_axioms;

#[derive(Clone, Copy, Debug, PartialEq, Eq, Structural)]
pub enum DifficultyLevel {
    Beginner,
    Intermediate,
    Advanced,
    Expert,
}

pub open spec fn level_name(level: DifficultyLevel) -> Seq<char> {
    match level {
        DifficultyLevel::Beginner => "Beginner"@,
        DifficultyLevel::Intermediate => "Intermediate"@,
        DifficultyLevel::Advanced => "Advanced"@,
        DifficultyLevel::Expert => "Expert"@,
    }
}

pub open spec fn level_color(level: DifficultyLevel) -> Color {
    match level {
        DifficultyLevel::Beginner => Color::rgb(0, 150, 0),
        DifficultyLevel::Intermediate => Color::rgb(255, 165, 0),
        DifficultyLevel::Advanced => Color::rgb(255, 0, 0),
        DifficultyLevel::Expert => Color::rgb(128, 0, 128),
    }
}

pub open spec fn practice_time(level: DifficultyLevel) -> Seq<char> {
    match level {
        DifficultyLevel::Beginner => "5-10 minutes"@,
        DifficultyLevel::Intermediate => "10-20 minutes"@,
        DifficultyLevel::Advanced => "20-45 minutes"@,
        DifficultyLevel::Expert => "45+ minutes"@,
    }
}

/// The pitches that occur among the notes.
pub open spec fn pitch_set(notes: Seq<Note>) -> Set<u8> {
    Set::new(|pitch: u8| exists|i: int| 0 <= i < notes.len() && (#[trigger] notes[i]).pitch == pitch)
}

/// The grade of a song with `note_count` notes on `pitch_count` distinct
/// pitches: the first of the grades whose limits on both it keeps. A song
/// without notes keeps none of them.
pub open spec fn grade(note_count: nat, pitch_count: nat) -> DifficultyLevel {
    if note_count <= 8 && 1 <= pitch_count <= 5 {
        DifficultyLevel::Beginner
    } else if 9 <= note_count <= 16 && 1 <= pitch_count <= 8 {
        DifficultyLevel::Intermediate
    } else if 17 <= note_count <= 32 && 1 <= pitch_count <= 12 {
        DifficultyLevel::Advanced
    } else {
        DifficultyLevel::Expert
    }
}

impl DifficultyLevel {
    pub fn as_str(&self) -> (name: &'static str)
        ensures
            name@ == level_name(*self),
    {
        match self {
            DifficultyLevel::Beginner => "Beginner",
            DifficultyLevel::Intermediate => "Intermediate",
            DifficultyLevel::Advanced => "Advanced",
            DifficultyLevel::Expert => "Expert",
        }
    }

    pub fn color(&self) -> (color: Color)
        ensures
            color == level_color(*self),
    {
        match self {
            DifficultyLevel::Beginner => Color::from_rgb(0, 150, 0),
            DifficultyLevel::Intermediate => Color::from_rgb(255, 165, 0),
            DifficultyLevel::Advanced => Color::from_rgb(255, 0, 0),
            DifficultyLevel::Expert => Color::from_rgb(128, 0, 128),
        }
    }
}

pub struct DifficultyClassifier;

impl DifficultyClassifier {
    /// Grades a song by the number of its notes and of its distinct
    /// pitches.
    pub fn classify_song(notes: &[Note]) -> (level: DifficultyLevel)
        ensures
            level == grade(notes@.len(), pitch_set(notes@).len()),
    {
        let note_count: usize = notes.len();
        let mut unique_pitches: HashSet<u8> = HashSet::new();
        let mut i: usize = 0;
        proof {
            assert(pitch_set(notes@.take(0)) =~= Set::<u8>::empty());
        }
        while i < notes.len()
            invariant
                0 <= i <= notes@.len(),
                unique_pitches@ == pitch_set(notes@.take(i as int)),
            decreases notes@.len() - i,
        {
            unique_pitches.insert(notes[i].pitch);
            proof {
                let shorter = notes@.take(i as int);
                let longer = notes@.take(i + 1);
                assert forall|pitch: u8|
                    pitch_set(longer).contains(pitch) <==> pitch_set(shorter).insert(
                        notes@[i as int].pitch,
                    ).contains(pitch) by {
                    if pitch_set(longer).contains(pitch) {
                        let k = choose|k: int|
                            0 <= k < longer.len() && (#[trigger] longer[k]).pitch == pitch;
                        if k < i {
                            assert(shorter[k].pitch == pitch);
                        }
                    }
                    if pitch_set(shorter).contains(pitch) {
                        let k = choose|k: int|
                            0 <= k < shorter.len() && (#[trigger] shorter[k]).pitch == pitch;
                        assert(longer[k].pitch == pitch);
                    }
                    if pitch == notes@[i as int].pitch {
                        assert(longer[i as int].pitch == pitch);
                    }
                }
                assert(pitch_set(longer) =~= pitch_set(shorter).insert(notes@[i as int].pitch));
            }
            i = i + 1;
        }
        assert(notes@.take(i as int) =~= notes@);
        let pitch_range: usize = unique_pitches.len();
        if note_count <= 8 && 1 <= pitch_range && pitch_range <= 5 {
            DifficultyLevel::Beginner
        } else if 9 <= note_count && note_count <= 16 && 1 <= pitch_range && pitch_range <= 8 {
            DifficultyLevel::Intermediate
        } else if 17 <= note_count && note_count <= 32 && 1 <= pitch_range && pitch_range <= 12 {
            DifficultyLevel::Advanced
        } else {
            DifficultyLevel::Expert
        }
    }

    pub fn estimate_practice_time(difficulty: DifficultyLevel) -> (estimate: &'static str)
        ensures
            estimate@ == practice_time(difficulty),
    {
        match difficulty {
            DifficultyLevel::Beginner => "5-10 minutes",
            DifficultyLevel::Intermediate => "10-20 minutes",
            DifficultyLevel::Advanced => "20-45 minutes",
            DifficultyLevel::Expert => "45+ minutes",
        }
    }
}

} // verus!
