//! The songs that can be practised, and which of them is selected.

use vstd::prelude::*;
use vstd::string::StringExecFns;
use crate::fraction::Fraction;
use crate::music::difficulty::DifficultyLevel;
use crate::music::parser::{
    lemma_whole_beats_are_ordered, on_whole_beats_in_order, ordered_by_position,
};
use crate::notation::notes::{Judgement, Note, NoteType};

verus! {

/// A song: its notes, sorted by position, and what is shown of it in a
/// list. The duration is in seconds.
#[derive(Debug)]
pub struct Song {
    pub id: String,
    pub title: String,
    pub artist: String,
    pub difficulty: DifficultyLevel,
    pub notes: Vec<Note>,
    pub duration: u32,
}

pub struct SongView {
    pub id: Seq<char>,
    pub title: Seq<char>,
    pub artist: Seq<char>,
    pub difficulty: DifficultyLevel,
    pub notes: Seq<Note>,
    pub duration: u32,
}

impl View for Song {
    type V = SongView;

    open spec fn view(&self) -> SongView {
        SongView {
            id: self.id@,
            title: self.title@,
            artist: self.artist@,
            difficulty: self.difficulty,
            notes: self.notes@,
            duration: self.duration,
        }
    }
}

pub struct MusicLibrary {
    songs: Vec<Song>,
    current_song_index: Option<usize>,
}

/// An unplayed quarter note that starts on the given beat.
pub open spec fn quarter(pitch: u8, beat: u32) -> Note {
    Note {
        pitch,
        note_type: NoteType::Quarter,
        position: Fraction { numerator: beat, denominator: 1 },
        judgement: Judgement::Unplayed,
    }
}

/// An unplayed half note that starts on the given beat.
pub open spec fn half(pitch: u8, beat: u32) -> Note {
    Note {
        pitch,
        note_type: NoteType::Half,
        position: Fraction { numerator: beat, denominator: 1 },
        judgement: Judgement::Unplayed,
    }
}

pub open spec fn c_major_scale() -> Seq<Note> {
    seq![
        quarter(60, 0),
        quarter(62, 1),
        quarter(64, 2),
        quarter(65, 3),
        quarter(67, 4),
        quarter(69, 5),
        quarter(71, 6),
        quarter(72, 7),
    ]
}

pub open spec fn twinkle_twinkle() -> Seq<Note> {
    seq![
        quarter(60, 0),
        quarter(60, 1),
        quarter(67, 2),
        quarter(67, 3),
        quarter(69, 4),
        quarter(69, 5),
        half(67, 6),
        quarter(65, 8),
        quarter(65, 9),
        quarter(64, 10),
        quarter(64, 11),
        quarter(62, 12),
        quarter(62, 13),
        half(60, 14),
    ]
}

pub open spec fn mary_had_a_little_lamb() -> Seq<Note> {
    seq![
        quarter(64, 0),
        quarter(62, 1),
        quarter(60, 2),
        quarter(62, 3),
        quarter(64, 4),
        quarter(64, 5),
        half(64, 6),
        quarter(62, 8),
        quarter(62, 9),
        half(62, 10),
        quarter(64, 12),
        quarter(67, 13),
        half(67, 14),
    ]
}

/// The songs that every library starts with.
pub open spec fn default_songs() -> Seq<SongView> {
    seq![
        SongView {
            id: "c_scale"@,
            title: "C Major Scale"@,
            artist: "Practice"@,
            difficulty: DifficultyLevel::Beginner,
            notes: c_major_scale(),
            duration: 8,
        },
        SongView {
            id: "twinkle"@,
            title: "Twinkle Twinkle Little Star"@,
            artist: "Traditional"@,
            difficulty: DifficultyLevel::Beginner,
            notes: twinkle_twinkle(),
            duration: 12,
        },
        SongView {
            id: "mary_lamb"@,
            title: "Mary Had a Little Lamb"@,
            artist: "Traditional"@,
            difficulty: DifficultyLevel::Beginner,
            notes: mary_had_a_little_lamb(),
            duration: 10,
        },
    ]
}

pub open spec fn song_views(songs: Seq<Song>) -> Seq<SongView> {
    Seq::new(songs.len(), |i: int| songs[i]@)
}

pub open spec fn borrowed_song_views(songs: Seq<&Song>) -> Seq<SongView> {
    Seq::new(songs.len(), |i: int| songs[i]@)
}

/// The songs of the given difficulty, in their order.
pub open spec fn songs_of_difficulty(songs: Seq<SongView>, difficulty: DifficultyLevel) -> Seq<
    SongView,
> {
    songs.filter(|song: SongView| song.difficulty == difficulty)
}

impl MusicLibrary {
    pub closed spec fn songs(&self) -> Seq<SongView> {
        song_views(self.songs@)
    }

    /// The index of the selected song, if one is selected.
    pub closed spec fn current(&self) -> Option<usize> {
        self.current_song_index
    }

    /// The library's invariant: the selected song exists.
    pub open spec fn wf(&self) -> bool {
        self.current() matches Some(index) ==> index < self.songs().len()
    }

    /// A library with the default songs, none of them selected.
    pub fn new() -> (library: MusicLibrary)
        ensures
            library.wf(),
            library.songs() == default_songs(),
            library.current().is_none(),
    {
        let mut library = MusicLibrary { songs: Vec::new(), current_song_index: None };
        library.load_default_songs();
        library
    }

    fn load_default_songs(&mut self)
        requires
            old(self).songs@.len() == 0,
        ensures
            final(self).songs() == default_songs(),
            final(self).current_song_index == old(self).current_song_index,
    {
        let scale = self.create_c_major_scale();
        self.songs.push(
            Song {
                id: String::from_str("c_scale"),
                title: String::from_str("C Major Scale"),
                artist: String::from_str("Practice"),
                difficulty: DifficultyLevel::Beginner,
                notes: scale,
                duration: 8,
            },
        );
        let twinkle = self.create_twinkle_twinkle();
        self.songs.push(
            Song {
                id: String::from_str("twinkle"),
                title: String::from_str("Twinkle Twinkle Little Star"),
                artist: String::from_str("Traditional"),
                difficulty: DifficultyLevel::Beginner,
                notes: twinkle,
                duration: 12,
            },
        );
        let mary = self.create_mary_had_a_little_lamb();
        self.songs.push(
            Song {
                id: String::from_str("mary_lamb"),
                title: String::from_str("Mary Had a Little Lamb"),
                artist: String::from_str("Traditional"),
                difficulty: DifficultyLevel::Beginner,
                notes: mary,
                duration: 10,
            },
        );
        assert(self.songs() =~= default_songs());
    }

    fn create_c_major_scale(&self) -> (notes: Vec<Note>)
        ensures
            notes@ == c_major_scale(),
    {
        let notes = vec![
            Note::new(60, NoteType::Quarter, Fraction::whole(0)),
            Note::new(62, NoteType::Quarter, Fraction::whole(1)),
            Note::new(64, NoteType::Quarter, Fraction::whole(2)),
            Note::new(65, NoteType::Quarter, Fraction::whole(3)),
            Note::new(67, NoteType::Quarter, Fraction::whole(4)),
            Note::new(69, NoteType::Quarter, Fraction::whole(5)),
            Note::new(71, NoteType::Quarter, Fraction::whole(6)),
            Note::new(72, NoteType::Quarter, Fraction::whole(7)),
        ];
        assert(notes@ =~= c_major_scale());
        notes
    }

    fn create_twinkle_twinkle(&self) -> (notes: Vec<Note>)
        ensures
            notes@ == twinkle_twinkle(),
    {
        let notes = vec![
            Note::new(60, NoteType::Quarter, Fraction::whole(0)),
            Note::new(60, NoteType::Quarter, Fraction::whole(1)),
            Note::new(67, NoteType::Quarter, Fraction::whole(2)),
            Note::new(67, NoteType::Quarter, Fraction::whole(3)),
            Note::new(69, NoteType::Quarter, Fraction::whole(4)),
            Note::new(69, NoteType::Quarter, Fraction::whole(5)),
            Note::new(67, NoteType::Half, Fraction::whole(6)),
            Note::new(65, NoteType::Quarter, Fraction::whole(8)),
            Note::new(65, NoteType::Quarter, Fraction::whole(9)),
            Note::new(64, NoteType::Quarter, Fraction::whole(10)),
            Note::new(64, NoteType::Quarter, Fraction::whole(11)),
            Note::new(62, NoteType::Quarter, Fraction::whole(12)),
            Note::new(62, NoteType::Quarter, Fraction::whole(13)),
            Note::new(60, NoteType::Half, Fraction::whole(14)),
        ];
        assert(notes@ =~= twinkle_twinkle());
        notes
    }

    fn create_mary_had_a_little_lamb(&self) -> (notes: Vec<Note>)
        ensures
            notes@ == mary_had_a_little_lamb(),
    {
        let notes = vec![
            Note::new(64, NoteType::Quarter, Fraction::whole(0)),
            Note::new(62, NoteType::Quarter, Fraction::whole(1)),
            Note::new(60, NoteType::Quarter, Fraction::whole(2)),
            Note::new(62, NoteType::Quarter, Fraction::whole(3)),
            Note::new(64, NoteType::Quarter, Fraction::whole(4)),
            Note::new(64, NoteType::Quarter, Fraction::whole(5)),
            Note::new(64, NoteType::Half, Fraction::whole(6)),
            Note::new(62, NoteType::Quarter, Fraction::whole(8)),
            Note::new(62, NoteType::Quarter, Fraction::whole(9)),
            Note::new(62, NoteType::Half, Fraction::whole(10)),
            Note::new(64, NoteType::Quarter, Fraction::whole(12)),
            Note::new(67, NoteType::Quarter, Fraction::whole(13)),
            Note::new(67, NoteType::Half, Fraction::whole(14)),
        ];
        assert(notes@ =~= mary_had_a_little_lamb());
        notes
    }

    pub fn get_songs(&self) -> (songs: &[Song])
        ensures
            song_views(songs@) == self.songs(),
    {
        self.songs.as_slice()
    }

    /// The songs of one difficulty, in the library's order.
    pub fn get_songs_by_difficulty(&self, difficulty: DifficultyLevel) -> (songs: Vec<&Song>)
        ensures
            borrowed_song_views(songs@) == songs_of_difficulty(self.songs(), difficulty),
    {
        let mut found: Vec<&Song> = Vec::new();
        let ghost wanted = |song: SongView| song.difficulty == difficulty;
        let mut i: usize = 0;
        proof {
            reveal_with_fuel(Seq::<_>::filter, 2);
            assert(self.songs().take(0) =~= Seq::<SongView>::empty());
            assert(borrowed_song_views(found@) =~= Seq::<SongView>::empty());
        }
        while i < self.songs.len()
            invariant
                0 <= i <= self.songs@.len(),
                wanted == (|song: SongView| song.difficulty == difficulty),
                borrowed_song_views(found@) == self.songs().take(i as int).filter(wanted),
            decreases self.songs@.len() - i,
        {
            let song = &self.songs[i];
            proof {
                reveal_with_fuel(Seq::<_>::filter, 2);
                let longer = self.songs().take(i + 1);
                assert(longer.drop_last() =~= self.songs().take(i as int));
                assert(longer.last() == song@);
                assert(wanted(song@) == (song.difficulty == difficulty));
            }
            let ghost before = borrowed_song_views(found@);
            if song.difficulty == difficulty {
                found.push(song);
                assert(borrowed_song_views(found@) =~= before.push(song@));
            }
            i = i + 1;
        }
        assert(self.songs().take(i as int) =~= self.songs());
        found
    }

    /// The first song with the given id.
    pub fn get_song_by_id(&self, id: &str) -> (song: Option<&Song>)
        ensures
            match song {
                Some(found) => exists|i: int|
                    0 <= i < self.songs().len() && #[trigger] self.songs()[i] == found@
                        && found@.id == id@ && forall|j: int|
                        0 <= j < i ==> (#[trigger] self.songs()[j]).id != id@,
                None => forall|i: int|
                    0 <= i < self.songs().len() ==> (#[trigger] self.songs()[i]).id != id@,
            },
    {
        let wanted = String::from_str(id);
        let mut i: usize = 0;
        while i < self.songs.len()
            invariant
                0 <= i <= self.songs@.len(),
                wanted@ == id@,
                forall|j: int| 0 <= j < i ==> (#[trigger] self.songs()[j]).id != id@,
            decreases self.songs@.len() - i,
        {
            if self.songs[i].id == wanted {
                assert(self.songs()[i as int] == self.songs@[i as int]@);
                return Some(&self.songs[i]);
            }
            i = i + 1;
        }
        None
    }

    /// Selects the song with the given index, if there is one, and hands
    /// it out. An index past the last song selects nothing and leaves the
    /// selection as it was.
    pub fn select_song(&mut self, index: usize) -> (song: Option<&Song>)
        requires
            old(self).wf(),
        ensures
            final(self).wf(),
            final(self).songs() == old(self).songs(),
            index < old(self).songs().len() ==> final(self).current() == Some(index) && (
            song matches Some(selected) && selected@ == old(self).songs()[index as int]),
            index >= old(self).songs().len() ==> final(self).current() == old(self).current()
                && song.is_none(),
    {
        if index < self.songs.len() {
            self.current_song_index = Some(index);
            Some(&self.songs[index])
        } else {
            None
        }
    }

    /// The selected song, if one is selected.
    pub fn get_current_song(&self) -> (song: Option<&Song>)
        requires
            self.wf(),
        ensures
            match self.current() {
                Some(index) => song matches Some(selected) && selected@ == self.songs()[
                    index as int
                ],
                None => song.is_none(),
            },
    {
        match self.current_song_index {
            Some(index) => Some(&self.songs[index]),
            None => None,
        }
    }
}

/// The notes of every default song stand in ascending order of position.
pub proof fn lemma_default_songs_are_ordered()
    ensures
        forall|k: int|
            0 <= k < default_songs().len() ==> ordered_by_position(
                (#[trigger] default_songs()[k]).notes,
            ),
{
    assert(on_whole_beats_in_order(c_major_scale()));
    assert(on_whole_beats_in_order(twinkle_twinkle()));
    assert(on_whole_beats_in_order(mary_had_a_little_lamb()));
    lemma_whole_beats_are_ordered(c_major_scale());
    lemma_whole_beats_are_ordered(twinkle_twinkle());
    lemma_whole_beats_are_ordered(mary_had_a_little_lamb());
}

} // verus!
