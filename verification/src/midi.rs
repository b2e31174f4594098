//! Live note events and the devices that send them.

pub mod device;
pub mod input;

pub use device::MidiDevice;
pub use input::{EventType, MidiEvent, MidiInput};
