//! The state behind the windows: what is open, what is chosen, and what a
//! click changes.

pub mod main_window;
pub mod settings;
pub mod song_browser;

pub use main_window::MainWindow;
pub use settings::{AppSettings, SettingsWindow};
pub use song_browser::SongBrowser;
