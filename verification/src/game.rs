//! The practice session: matching played notes against expected ones.

pub mod session;
pub mod engine;
pub mod feedback;
pub mod progress;

pub use engine::{GameEngine, GameState};
pub use feedback::{FeedbackEvent, FeedbackSystem};
pub use progress::{PlayerStats, ProgressTracker, SongProgress};
pub use session::Session;
