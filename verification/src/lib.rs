//! A sight-reading trainer: decoding of note events, staff notation layout,
//! and judging of a played pitch sequence against an expected one.
//!
//! Lengths and coordinates are fixed-point integers, [`notation::PX`] units
//! to the pixel. Times in beats are exact fractions of ticks over ticks per
//! beat.

pub mod fraction;
pub mod clock;
pub mod midi;
pub mod notation;
pub mod game;
pub mod music;
pub mod ui;
