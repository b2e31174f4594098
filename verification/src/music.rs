//! Songs: importing them from files, keeping them, and grading them.

pub mod chunks;
pub mod difficulty;
pub mod library;
pub mod parser;

pub use difficulty::{DifficultyClassifier, DifficultyLevel};
pub use library::{MusicLibrary, Song};
pub use parser::{ImportError, MidiFile, MidiParser, Timing, TrackEvent, TrackMessage};
