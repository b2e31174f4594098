//! The song browser: a list of songs, filtered by difficulty, of which one
//! can be chosen and started.

use vstd::prelude::*;
use crate::music::difficulty::DifficultyLevel;
use crate::music::library::{
    borrowed_song_views, song_views, songs_of_difficulty, MusicLibrary, Song, SongView,
};

verus! {

pub struct SongBrowser {
    selected_difficulty: Option<DifficultyLevel>,
    selected_song_index: Option<usize>,
}

/// One click in the browser.
#[derive(Clone, Copy, Debug, PartialEq, Eq, Structural)]
pub enum BrowserAction {
    /// The filter "All".
    ShowAll,
    /// The filter of one difficulty.
    ShowDifficulty(DifficultyLevel),
    /// The song at the given place in the list.
    SelectSong(usize),
    /// "Start Practice", under the chosen song.
    StartPractice,
}

/// The songs that the browser lists under a filter: all of them, or those
/// of one difficulty.
pub open spec fn listed_songs(songs: Seq<SongView>, filter: Option<DifficultyLevel>) -> Seq<
    SongView,
> {
    match filter {
        Some(difficulty) => songs_of_difficulty(songs, difficulty),
        None => songs,
    }
}

impl SongBrowser {
    pub closed spec fn filter(&self) -> Option<DifficultyLevel> {
        self.selected_difficulty
    }

    /// The place in the list of the chosen song, if one is chosen.
    pub closed spec fn selected(&self) -> Option<usize> {
        self.selected_song_index
    }

    pub fn new() -> (browser: SongBrowser)
        ensures
            browser.filter().is_none(),
            browser.selected().is_none(),
    {
        SongBrowser { selected_difficulty: None, selected_song_index: None }
    }

    /// The songs to list, in the library's order.
    pub fn listed<'a>(&self, music_library: &'a MusicLibrary) -> (songs: Vec<&'a Song>)
        ensures
            borrowed_song_views(songs@) == listed_songs(
                music_library.songs(),
                self.filter(),
            ),
    {
        match self.selected_difficulty {
            Some(difficulty) => music_library.get_songs_by_difficulty(difficulty),
            None => {
                let all = music_library.get_songs();
                let mut songs: Vec<&Song> = Vec::new();
                let mut i: usize = 0;
                while i < all.len()
                    invariant
                        0 <= i <= all@.len(),
                        songs@.len() == i,
                        forall|k: int| 0 <= k < i ==> songs@[k]@ == all@[k]@,
                    decreases all@.len() - i,
                {
                    songs.push(&all[i]);
                    i = i + 1;
                }
                assert(borrowed_song_views(songs@)
                    =~= song_views(all@));
                songs
            },
        }
    }

    /// One click in the browser. A filter sets which songs are listed. A
    /// click on a listed song chooses it. "Start Practice" hands back the
    /// id of the chosen song, if the chosen place is in the list.
    pub fn show(&mut self, music_library: &MusicLibrary, action: BrowserAction) -> (started:
        Option<String>)
        ensures
            final(self).filter() == match action {
                BrowserAction::ShowAll => None,
                BrowserAction::ShowDifficulty(difficulty) => Some(difficulty),
                _ => old(self).filter(),
            },
            final(self).selected() == match action {
                BrowserAction::SelectSong(index) => if index < listed_songs(
                    music_library.songs(),
                    old(self).filter(),
                ).len() {
                    Some(index)
                } else {
                    old(self).selected()
                },
                _ => old(self).selected(),
            },
            match started {
                Some(id) => action == BrowserAction::StartPractice && (old(self).selected()
                    matches Some(index) && index < listed_songs(
                    music_library.songs(),
                    old(self).filter(),
                ).len() && id@ == listed_songs(music_library.songs(), old(self).filter())[
                    index as int
                ].id),
                None => !(action == BrowserAction::StartPractice && (old(self).selected()
                    matches Some(index) && index < listed_songs(
                    music_library.songs(),
                    old(self).filter(),
                ).len())),
            },
    {
        let songs = self.listed(music_library);
        match action {
            BrowserAction::ShowAll => {
                self.selected_difficulty = None;
                None
            },
            BrowserAction::ShowDifficulty(difficulty) => {
                self.selected_difficulty = Some(difficulty);
                None
            },
            BrowserAction::SelectSong(index) => {
                if index < songs.len() {
                    self.selected_song_index = Some(index);
                }
                None
            },
            BrowserAction::StartPractice => {
                match self.selected_song_index {
                    Some(index) => {
                        if index < songs.len() {
                            let song: &Song = songs[index];
                            assert(borrowed_song_views(songs@)[index as int]
                                == song@);
                            Some(song.id.clone())
                        } else {
                            None
                        }
                    },
                    None => None,
                }
            },
        }
    }
}

} // verus!
