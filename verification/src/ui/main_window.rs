//! The main window: its menu bar, and which of its windows are open.

use vstd::prelude::*;

verus! {

pub struct MainWindow {
    show_song_browser: bool,
    show_settings: bool,
}

/// The entries of the menu bar.
#[derive(Clone, Copy, Debug, PartialEq, Eq, Structural)]
pub enum MenuItem {
    BrowseSongs,
    ImportMidi,
    Exit,
    Preferences,
    MidiDevices,
    About,
}

/// What is left for the caller to do after a click on a menu entry.
#[derive(Clone, Copy, Debug, PartialEq, Eq, Structural)]
pub enum MenuAction {
    CloseMenu,
    ExitProgram,
}

impl MainWindow {
    pub closed spec fn song_browser_shown(&self) -> bool {
        self.show_song_browser
    }

    pub closed spec fn settings_shown(&self) -> bool {
        self.show_settings
    }

    pub fn new() -> (window: MainWindow)
        ensures
            !window.song_browser_shown(),
            !window.settings_shown(),
    {
        MainWindow { show_song_browser: false, show_settings: false }
    }

    /// A click on an entry of the menu bar: "Browse Songs" opens the song
    /// browser, "Preferences" opens the settings, "Exit" ends the program,
    /// and the other entries only close the menu.
    pub fn show_menu_bar(&mut self, clicked: MenuItem) -> (action: MenuAction)
        ensures
            final(self).song_browser_shown() == (old(self).song_browser_shown() || clicked
                == MenuItem::BrowseSongs),
            final(self).settings_shown() == (old(self).settings_shown() || clicked
                == MenuItem::Preferences),
            action == if clicked == MenuItem::Exit {
                MenuAction::ExitProgram
            } else {
                MenuAction::CloseMenu
            },
    {
        match clicked {
            MenuItem::BrowseSongs => {
                self.show_song_browser = true;
                MenuAction::CloseMenu
            },
            MenuItem::ImportMidi => MenuAction::CloseMenu,
            MenuItem::Exit => MenuAction::ExitProgram,
            MenuItem::Preferences => {
                self.show_settings = true;
                MenuAction::CloseMenu
            },
            MenuItem::MidiDevices => MenuAction::CloseMenu,
            MenuItem::About => MenuAction::CloseMenu,
        }
    }

    pub fn should_show_song_browser(&self) -> (shown: bool)
        ensures
            shown == self.song_browser_shown(),
    {
        self.show_song_browser
    }

    pub fn should_show_settings(&self) -> (shown: bool)
        ensures
            shown == self.settings_shown(),
    {
        self.show_settings
    }

    pub fn close_song_browser(&mut self)
        ensures
            !final(self).song_browser_shown(),
            final(self).settings_shown() == old(self).settings_shown(),
    {
        self.show_song_browser = false;
    }

    pub fn close_settings(&mut self)
        ensures
            !final(self).settings_shown(),
            final(self).song_browser_shown() == old(self).song_browser_shown(),
    {
        self.show_settings = false;
    }
}

} // verus!
