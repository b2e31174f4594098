use piano_sight_reading::fraction::Fraction;
use piano_sight_reading::game::progress::{PlayerStats, ProgressTracker};

#[test]
fn a_new_tracker_is_empty() {
    let tracker = ProgressTracker::new();
    assert!(tracker.get_song_progress("twinkle").is_none());
    assert_eq!(
        *tracker.get_player_stats(),
        PlayerStats { total_notes_played: 0, correct_notes: 0, total_practice_time: 0, songs_completed: 0 }
    );
    assert_eq!(tracker.get_overall_accuracy(), Fraction { numerator: 0, denominator: 1 });
}

#[test]
fn an_attempt_is_recorded() {
    let mut tracker = ProgressTracker::new();
    tracker.update_song_progress_at("twinkle".to_string(), 7, 14, 1000);
    let progress = tracker.get_song_progress("twinkle").unwrap();
    assert_eq!(progress.song_id, "twinkle");
    assert_eq!(progress.completion_percentage, 50);
    assert_eq!(progress.best_accuracy, Fraction { numerator: 7, denominator: 14 });
    assert_eq!(progress.attempts, 1);
    assert_eq!(progress.last_played, 1000);
    assert_eq!(
        *tracker.get_player_stats(),
        PlayerStats { total_notes_played: 14, correct_notes: 7, total_practice_time: 0, songs_completed: 0 }
    );
    assert_eq!(tracker.get_overall_accuracy(), Fraction { numerator: 7, denominator: 14 });
    assert!(tracker.get_song_progress("mary_lamb").is_none());
}

#[test]
fn the_best_attempt_is_kept() {
    let mut tracker = ProgressTracker::new();
    tracker.update_song_progress_at("c_scale".to_string(), 6, 8, 10);
    tracker.update_song_progress_at("c_scale".to_string(), 2, 8, 20);
    tracker.update_song_progress_at("twinkle".to_string(), 1, 3, 25);
    let progress = tracker.get_song_progress("c_scale").unwrap();
    assert_eq!(progress.completion_percentage, 75);
    assert_eq!(progress.best_accuracy, Fraction { numerator: 6, denominator: 8 });
    assert_eq!(progress.attempts, 2);
    assert_eq!(progress.last_played, 20);
    tracker.update_song_progress_at("c_scale".to_string(), 8, 8, 30);
    let progress = tracker.get_song_progress("c_scale").unwrap();
    assert_eq!(progress.completion_percentage, 100);
    assert_eq!(progress.best_accuracy, Fraction { numerator: 8, denominator: 8 });
    assert_eq!(progress.attempts, 3);
    assert_eq!(progress.last_played, 30);
    assert_eq!(
        *tracker.get_player_stats(),
        PlayerStats { total_notes_played: 27, correct_notes: 17, total_practice_time: 0, songs_completed: 1 }
    );
    assert_eq!(tracker.get_overall_accuracy(), Fraction { numerator: 17, denominator: 27 });
    let other = tracker.get_song_progress("twinkle").unwrap();
    assert_eq!(other.completion_percentage, 33);
    assert_eq!(other.attempts, 1);
    assert_eq!(other.last_played, 25);
}

#[test]
fn an_equal_accuracy_keeps_the_earlier_record() {
    let mut tracker = ProgressTracker::new();
    tracker.update_song_progress_at("c_scale".to_string(), 1, 2, 10);
    tracker.update_song_progress_at("c_scale".to_string(), 2, 4, 20);
    let progress = tracker.get_song_progress("c_scale").unwrap();
    assert_eq!(progress.best_accuracy, Fraction { numerator: 1, denominator: 2 });
}

#[test]
fn an_attempt_without_notes_counts_as_zero() {
    let mut tracker = ProgressTracker::new();
    tracker.update_song_progress_at("empty".to_string(), 0, 0, 5);
    let progress = tracker.get_song_progress("empty").unwrap();
    assert_eq!(progress.completion_percentage, 0);
    assert_eq!(progress.best_accuracy, Fraction { numerator: 0, denominator: 1 });
    assert_eq!(progress.attempts, 1);
    assert_eq!(tracker.get_player_stats().songs_completed, 0);
    assert_eq!(tracker.get_overall_accuracy(), Fraction { numerator: 0, denominator: 1 });
}

#[test]
fn an_attempt_now_is_stamped_with_the_wall_clock() {
    let mut tracker = ProgressTracker::new();
    tracker.update_song_progress("twinkle".to_string(), 14, 14);
    let progress = tracker.get_song_progress("twinkle").unwrap();
    assert!(progress.last_played > 1_600_000_000);
    assert!(progress.last_played < 100_000_000_000);
    assert_eq!(progress.completion_percentage, 100);
    assert_eq!(tracker.get_player_stats().songs_completed, 1);
}

#[test]
fn room_for_one_more_attempt() {
    let mut tracker = ProgressTracker::new();
    assert!(tracker.has_room_for("twinkle", u32::MAX, u32::MAX));
    tracker.update_song_progress_at("twinkle".to_string(), 1, 2, 0);
    assert!(tracker.has_room_for("twinkle", u32::MAX - 1, u32::MAX - 2));
    assert!(tracker.has_room_for("c_scale", u32::MAX - 1, u32::MAX - 2));
    assert!(!tracker.has_room_for("twinkle", u32::MAX, 0));
    assert!(!tracker.has_room_for("twinkle", 0, u32::MAX - 1));
}
