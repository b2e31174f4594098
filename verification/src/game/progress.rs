//! What a player has achieved: the best result on each song, and totals
//! over all attempts.

use vstd::prelude::*;
use vstd::string::StringExecFns;
use crate::clock::wall_clock_millis;
use crate::fraction::{lemma_product_fits, Fraction};

verus! {

/// The record of one song. The completion is in whole percent, rounded
/// down; `last_played` is in seconds since the Unix epoch.
#[derive(Debug)]
pub struct SongProgress {
    pub song_id: String,
    pub completion_percentage: u64,
    pub best_accuracy: Fraction,
    pub attempts: u32,
    pub last_played: u64,
}

pub struct SongProgressView {
    pub song_id: Seq<char>,
    pub completion_percentage: u64,
    pub best_accuracy: Fraction,
    pub attempts: u32,
    pub last_played: u64,
}

impl View for SongProgress {
    type V = SongProgressView;

    open spec fn view(&self) -> SongProgressView {
        SongProgressView {
            song_id: self.song_id@,
            completion_percentage: self.completion_percentage,
            best_accuracy: self.best_accuracy,
            attempts: self.attempts,
            last_played: self.last_played,
        }
    }
}

/// Totals over all attempts. The practice time is in seconds.
#[derive(Clone, Copy, Debug, PartialEq, Eq, Structural)]
pub struct PlayerStats {
    pub total_notes_played: u32,
    pub correct_notes: u32,
    pub total_practice_time: u64,
    pub songs_completed: u32,
}

pub struct ProgressTracker {
    song_progress: Vec<SongProgress>,
    player_stats: PlayerStats,
}

/// The part of `total` that `correct` is: 0 where `total` is 0.
pub open spec fn accuracy(correct: u32, total: u32) -> Fraction {
    if total > 0 {
        Fraction { numerator: correct, denominator: total }
    } else {
        Fraction { numerator: 0, denominator: 1 }
    }
}

/// The same in whole percent, rounded down.
pub open spec fn completion(correct: u32, total: u32) -> u64 {
    if total > 0 {
        (100 * correct / total as int) as u64
    } else {
        0
    }
}

/// The record of a song that has never been played.
pub open spec fn unplayed(song_id: Seq<char>) -> SongProgressView {
    SongProgressView {
        song_id,
        completion_percentage: 0,
        best_accuracy: Fraction { numerator: 0, denominator: 1 },
        attempts: 0,
        last_played: 0,
    }
}

/// A record after one more attempt: the completion and the accuracy are
/// the better of the old and the new, the attempt is counted, and the time
/// of playing is the new one.
pub open spec fn after_attempt(
    before: SongProgressView,
    correct: u32,
    total: u32,
    now: u64,
) -> SongProgressView {
    SongProgressView {
        song_id: before.song_id,
        completion_percentage: if completion(correct, total) > before.completion_percentage {
            completion(correct, total)
        } else {
            before.completion_percentage
        },
        best_accuracy: if before.best_accuracy.lt(accuracy(correct, total)) {
            accuracy(correct, total)
        } else {
            before.best_accuracy
        },
        attempts: (before.attempts + 1) as u32,
        last_played: now,
    }
}

/// The totals after one more attempt. A song counts as completed when
/// every one of its notes was correct.
pub open spec fn stats_after_attempt(before: PlayerStats, correct: u32, total: u32) -> PlayerStats {
    PlayerStats {
        total_notes_played: (before.total_notes_played + total) as u32,
        correct_notes: (before.correct_notes + correct) as u32,
        total_practice_time: before.total_practice_time,
        songs_completed: if completion(correct, total) >= 100 {
            (before.songs_completed + 1) as u32
        } else {
            before.songs_completed
        },
    }
}

impl ProgressTracker {
    /// The records, in the order in which their songs were first played.
    pub closed spec fn records(&self) -> Seq<SongProgressView> {
        Seq::new(self.song_progress@.len(), |i: int| self.song_progress@[i]@)
    }

    pub closed spec fn stats(&self) -> PlayerStats {
        self.player_stats
    }

    /// The invariant: no two records are of the same song.
    pub open spec fn wf(&self) -> bool {
        forall|i: int, j: int|
            0 <= i < j < self.records().len() ==> (#[trigger] self.records()[i]).song_id != (
            #[trigger] self.records()[j]).song_id
    }

    /// Whether one more attempt at the song can be counted without a
    /// counter running over: the totals, and the attempts at that song.
    pub open spec fn can_record(&self, song_id: Seq<char>, correct: u32, total: u32) -> bool {
        &&& self.stats().total_notes_played + total <= u32::MAX
        &&& self.stats().correct_notes + correct <= u32::MAX
        &&& self.stats().songs_completed < u32::MAX
        &&& forall|i: int|
            0 <= i < self.records().len() && (#[trigger] self.records()[i]).song_id == song_id
                ==> self.records()[i].attempts < u32::MAX
    }

    pub fn new() -> (tracker: ProgressTracker)
        ensures
            tracker.wf(),
            tracker.records() == Seq::<SongProgressView>::empty(),
            tracker.stats() == (PlayerStats {
                total_notes_played: 0,
                correct_notes: 0,
                total_practice_time: 0,
                songs_completed: 0,
            }),
    {
        let tracker = ProgressTracker {
            song_progress: Vec::new(),
            player_stats: PlayerStats {
                total_notes_played: 0,
                correct_notes: 0,
                total_practice_time: 0,
                songs_completed: 0,
            },
        };
        assert(tracker.records() =~= Seq::<SongProgressView>::empty());
        tracker
    }

    /// Whether one more attempt at the song can be counted.
    pub fn has_room_for(&self, song_id: &str, correct: u32, total: u32) -> (fits: bool)
        ensures
            fits == self.can_record(song_id@, correct, total),
    {
        if total > u32::MAX - self.player_stats.total_notes_played || correct > u32::MAX
            - self.player_stats.correct_notes || self.player_stats.songs_completed == u32::MAX {
            return false;
        }
        let wanted = String::from_str(song_id);
        let mut i: usize = 0;
        while i < self.song_progress.len()
            invariant
                0 <= i <= self.song_progress@.len(),
                wanted@ == song_id@,
                forall|k: int|
                    0 <= k < i && (#[trigger] self.records()[k]).song_id == song_id@
                        ==> self.records()[k].attempts < u32::MAX,
            decreases self.song_progress@.len() - i,
        {
            assert(self.records()[i as int] == self.song_progress@[i as int]@);
            if self.song_progress[i].song_id == wanted && self.song_progress[i].attempts
                == u32::MAX {
                return false;
            }
            i = i + 1;
        }
        true
    }

    /// Counts an attempt at a song, played now by the wall clock.
    pub fn update_song_progress(&mut self, song_id: String, correct: u32, total: u32)
        requires
            old(self).wf(),
            old(self).can_record(song_id@, correct, total),
        ensures
            final(self).wf(),
            exists|now: u64| Self::recorded(*old(self), *final(self), song_id@, correct, total, now),
    {
        let now: u64 = wall_clock_millis() / 1000;
        self.update_song_progress_at(song_id, correct, total, now);
    }

    /// What counting an attempt at time `now` changes: the totals grow,
    /// the record of the song is updated, or made where the song had none,
    /// and the other records stay.
    pub open spec fn recorded(
        before: ProgressTracker,
        after: ProgressTracker,
        song_id: Seq<char>,
        correct: u32,
        total: u32,
        now: u64,
    ) -> bool {
        &&& after.stats() == stats_after_attempt(before.stats(), correct, total)
        &&& forall|i: int|
            0 <= i < before.records().len() && (#[trigger] before.records()[i]).song_id == song_id
                ==> after.records() == before.records().update(
                i,
                after_attempt(before.records()[i], correct, total, now),
            )
        &&& (forall|i: int|
            0 <= i < before.records().len() ==> (#[trigger] before.records()[i]).song_id
                != song_id) ==> after.records() == before.records().push(
            after_attempt(unplayed(song_id), correct, total, now),
        )
    }

    /// Counts an attempt at a song, played at time `now`.
    pub fn update_song_progress_at(&mut self, song_id: String, correct: u32, total: u32, now: u64)
        requires
            old(self).wf(),
            old(self).can_record(song_id@, correct, total),
        ensures
            final(self).wf(),
            Self::recorded(*old(self), *final(self), song_id@, correct, total, now),
    {
        let new_accuracy = if total > 0 {
            Fraction::new(correct, total)
        } else {
            Fraction::new(0, 1)
        };
        proof {
            lemma_product_fits(100, correct);
        }
        let new_completion: u64 = if total > 0 {
            100 * (correct as u64) / (total as u64)
        } else {
            0
        };
        let mut at: usize = 0;
        while at < self.song_progress.len() && self.song_progress[at].song_id != song_id
            invariant
                0 <= at <= self.song_progress@.len(),
                forall|k: int| 0 <= k < at ==> (#[trigger] self.records()[k]).song_id != song_id@,
            decreases self.song_progress@.len() - at,
        {
            assert(self.records()[at as int].song_id == self.song_progress@[at as int].song_id@);
            at = at + 1;
        }
        let ghost before = self.records();
        if at == self.song_progress.len() {
            self.song_progress.push(
                SongProgress {
                    song_id,
                    completion_percentage: new_completion,
                    best_accuracy: if (Fraction { numerator: 0, denominator: 1 }).is_lt(
                        &new_accuracy,
                    ) {
                        new_accuracy
                    } else {
                        Fraction::new(0, 1)
                    },
                    attempts: 1,
                    last_played: now,
                },
            );
            assert(self.records() =~= before.push(
                after_attempt(unplayed(song_id@), correct, total, now),
            ));
        } else {
            assert(before[at as int].song_id == self.song_progress@[at as int].song_id@);
            let old_record = &self.song_progress[at];
            let updated = SongProgress {
                song_id,
                completion_percentage: if new_completion > old_record.completion_percentage {
                    new_completion
                } else {
                    old_record.completion_percentage
                },
                best_accuracy: if old_record.best_accuracy.is_lt(&new_accuracy) {
                    new_accuracy
                } else {
                    old_record.best_accuracy
                },
                attempts: old_record.attempts + 1,
                last_played: now,
            };
            self.song_progress.set(at, updated);
            assert(self.records() =~= before.update(
                at as int,
                after_attempt(before[at as int], correct, total, now),
            ));
        }
        self.player_stats.total_notes_played = self.player_stats.total_notes_played + total;
        self.player_stats.correct_notes = self.player_stats.correct_notes + correct;
        if new_completion >= 100 {
            self.player_stats.songs_completed = self.player_stats.songs_completed + 1;
        }
    }

    /// The record of a song, if the song has been played.
    pub fn get_song_progress(&self, song_id: &str) -> (progress: Option<&SongProgress>)
        ensures
            match progress {
                Some(found) => found@.song_id == song_id@ && exists|i: int|
                    0 <= i < self.records().len() && #[trigger] self.records()[i] == found@,
                None => forall|i: int|
                    0 <= i < self.records().len() ==> (#[trigger] self.records()[i]).song_id
                        != song_id@,
            },
    {
        let wanted = String::from_str(song_id);
        let mut i: usize = 0;
        while i < self.song_progress.len()
            invariant
                0 <= i <= self.song_progress@.len(),
                wanted@ == song_id@,
                forall|k: int| 0 <= k < i ==> (#[trigger] self.records()[k]).song_id != song_id@,
            decreases self.song_progress@.len() - i,
        {
            if self.song_progress[i].song_id == wanted {
                assert(self.records()[i as int] == self.song_progress@[i as int]@);
                return Some(&self.song_progress[i]);
            }
            assert(self.records()[i as int].song_id == self.song_progress@[i as int].song_id@);
            i = i + 1;
        }
        None
    }

    pub fn get_player_stats(&self) -> (stats: &PlayerStats)
        ensures
            *stats == self.stats(),
    {
        &self.player_stats
    }

    /// The part of all notes played that was correct: 0 before the first
    /// note.
    pub fn get_overall_accuracy(&self) -> (overall: Fraction)
        ensures
            overall == accuracy(self.stats().correct_notes, self.stats().total_notes_played),
            overall.wf(),
    {
        if self.player_stats.total_notes_played > 0 {
            Fraction::new(self.player_stats.correct_notes, self.player_stats.total_notes_played)
        } else {
            Fraction::new(0, 1)
        }
    }
}

} // verus!
