//! The settings, and what the controls of the settings window do to them.

use vstd::prelude::*;

verus! {

/// The settings. Latency compensation and feedback duration are in
/// milliseconds.
#[derive(Clone, Copy, Debug, PartialEq, Eq, Structural)]
pub struct AppSettings {
    pub midi_latency_compensation: u32,
    pub visual_feedback_duration: u32,
    pub auto_advance: bool,
    pub show_note_names: bool,
    pub metronome_enabled: bool,
    pub metronome_bpm: u32,
}

pub struct SettingsWindow {
    settings: AppSettings,
}

/// One use of a control of the settings window.
#[derive(Clone, Copy, Debug, PartialEq, Eq, Structural)]
pub enum SettingsChange {
    LatencyCompensation(u32),
    FeedbackDuration(u32),
    ShowNoteNames(bool),
    AutoAdvance(bool),
    MetronomeEnabled(bool),
    MetronomeBpm(u32),
    ResetToDefaults,
}

pub const MAX_LATENCY_COMPENSATION: u32 = 50;

pub const MIN_FEEDBACK_DURATION: u32 = 500;

pub const MAX_FEEDBACK_DURATION: u32 = 3000;

pub const MIN_BPM: u32 = 60;

pub const MAX_BPM: u32 = 200;

pub open spec fn default_settings() -> AppSettings {
    AppSettings {
        midi_latency_compensation: 10,
        visual_feedback_duration: 1000,
        auto_advance: true,
        show_note_names: false,
        metronome_enabled: false,
        metronome_bpm: 120,
    }
}

/// A value brought into a slider's range.
pub open spec fn clamped(value: u32, low: u32, high: u32) -> u32 {
    if value < low {
        low
    } else if value > high {
        high
    } else {
        value
    }
}

/// The settings after one use of a control. Sliders keep their value
/// within their range, and the tempo can be set only while the metronome
/// is on.
pub open spec fn changed(settings: AppSettings, change: SettingsChange) -> AppSettings {
    match change {
        SettingsChange::LatencyCompensation(millis) => AppSettings {
            midi_latency_compensation: clamped(millis, 0, MAX_LATENCY_COMPENSATION),
            ..settings
        },
        SettingsChange::FeedbackDuration(millis) => AppSettings {
            visual_feedback_duration: clamped(
                millis,
                MIN_FEEDBACK_DURATION,
                MAX_FEEDBACK_DURATION,
            ),
            ..settings
        },
        SettingsChange::ShowNoteNames(on) => AppSettings { show_note_names: on, ..settings },
        SettingsChange::AutoAdvance(on) => AppSettings { auto_advance: on, ..settings },
        SettingsChange::MetronomeEnabled(on) => AppSettings { metronome_enabled: on, ..settings },
        SettingsChange::MetronomeBpm(bpm) => if settings.metronome_enabled {
            AppSettings { metronome_bpm: clamped(bpm, MIN_BPM, MAX_BPM), ..settings }
        } else {
            settings
        },
        SettingsChange::ResetToDefaults => default_settings(),
    }
}

impl Default for AppSettings {
    fn default() -> (settings: AppSettings)
        ensures
            settings == default_settings(),
    {
        AppSettings {
            midi_latency_compensation: 10,
            visual_feedback_duration: 1000,
            auto_advance: true,
            show_note_names: false,
            metronome_enabled: false,
            metronome_bpm: 120,
        }
    }
}

fn clamp(value: u32, low: u32, high: u32) -> (r: u32)
    ensures
        r == clamped(value, low, high),
{
    if value < low {
        low
    } else if value > high {
        high
    } else {
        value
    }
}

impl SettingsWindow {
    pub closed spec fn settings(&self) -> AppSettings {
        self.settings
    }

    pub fn new() -> (window: SettingsWindow)
        ensures
            window.settings() == default_settings(),
    {
        SettingsWindow { settings: AppSettings::default() }
    }

    /// One use of a control of the window.
    pub fn show(&mut self, change: SettingsChange)
        ensures
            final(self).settings() == changed(old(self).settings(), change),
    {
        match change {
            SettingsChange::LatencyCompensation(millis) => {
                self.settings.midi_latency_compensation = clamp(
                    millis,
                    0,
                    MAX_LATENCY_COMPENSATION,
                );
            },
            SettingsChange::FeedbackDuration(millis) => {
                self.settings.visual_feedback_duration = clamp(
                    millis,
                    MIN_FEEDBACK_DURATION,
                    MAX_FEEDBACK_DURATION,
                );
            },
            SettingsChange::ShowNoteNames(on) => {
                self.settings.show_note_names = on;
            },
            SettingsChange::AutoAdvance(on) => {
                self.settings.auto_advance = on;
            },
            SettingsChange::MetronomeEnabled(on) => {
                self.settings.metronome_enabled = on;
            },
            SettingsChange::MetronomeBpm(bpm) => {
                if self.settings.metronome_enabled {
                    self.settings.metronome_bpm = clamp(bpm, MIN_BPM, MAX_BPM);
                }
            },
            SettingsChange::ResetToDefaults => {
                self.settings = AppSettings::default();
            },
        }
    }

    pub fn get_settings(&self) -> (settings: &AppSettings)
        ensures
            *settings == self.settings(),
    {
        &self.settings
    }
}

} // verus!
