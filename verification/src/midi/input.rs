//! Decoding of live three-byte messages into note events.

use vstd::prelude::*;
use vstd::string::StringExecFns;
use crate::clock::wall_clock_millis;
use crate::midi::device::{MidiDevice, MidiDeviceView};

verus! {

#[derive(Clone, Copy, Debug, PartialEq, Eq, Structural)]
pub enum EventType {
    NoteOn,
    NoteOff,
}

/// One note event: a pitch pressed or released, with its velocity and the
/// time at which it was decoded.
#[derive(Clone, Copy, Debug, PartialEq, Eq, Structural)]
pub struct MidiEvent {
    pub note: u8,
    pub velocity: u8,
    pub timestamp: u64,
    pub event_type: EventType,
}

/// The status byte's family: its top four bits. The low four bits are the
/// channel, which is not modeled.
pub open spec fn status_family(status: u8) -> int {
    status as int / 16
}

/// What kind of event a raw message carries, if any: family 9 with a
/// velocity above zero is a Note-On; family 9 with velocity zero, or family
/// 8, is a Note-Off; anything else, or fewer than three bytes, is no event.
pub open spec fn message_kind(message: Seq<u8>) -> Option<EventType> {
    if message.len() < 3 {
        None
    } else if status_family(message[0]) == 9 && message[2] > 0 {
        Some(EventType::NoteOn)
    } else if status_family(message[0]) == 8 || status_family(message[0]) == 9 {
        Some(EventType::NoteOff)
    } else {
        None
    }
}

/// The event that a raw message decodes to at time `timestamp`.
pub open spec fn decoded_event(message: Seq<u8>, timestamp: u64) -> Option<MidiEvent> {
    match message_kind(message) {
        Some(event_type) => Some(
            MidiEvent { note: message[1], velocity: message[2], timestamp, event_type },
        ),
        None => None,
    }
}

/// Decodes one raw message, stamping the event with `timestamp`.
/// Messages that carry no note event are dropped, not reported.
pub fn decode_message(message: &[u8], timestamp: u64) -> (event: Option<MidiEvent>)
    ensures
        event == decoded_event(message@, timestamp),
{
    if message.len() < 3 {
        return None;
    }
    let status: u8 = message[0];
    let note: u8 = message[1];
    let velocity: u8 = message[2];
    let family: u8 = status & 0xF0;
    assert(family == 0x90 <==> status / 16 == 9) by (bit_vector)
        requires
            family == status & 0xF0,
    ;
    assert(family == 0x80 <==> status / 16 == 8) by (bit_vector)
        requires
            family == status & 0xF0,
    ;
    if family == 0x90 && velocity > 0 {
        Some(MidiEvent { note, velocity, timestamp, event_type: EventType::NoteOn })
    } else if family == 0x80 || family == 0x90 {
        Some(MidiEvent { note, velocity, timestamp, event_type: EventType::NoteOff })
    } else {
        None
    }
}

/// The connection to an input device, as far as the trainer keeps track
/// of it: whether there is one, and to which device.
pub struct MidiInput {
    connected: bool,
    current_device: Option<MidiDevice>,
}

pub open spec fn backend_failure(detail: Seq<char>) -> Seq<char> {
    "Failed to create MIDI input: "@ + detail
}

pub open spec fn port_out_of_range() -> Seq<char> {
    "Device port index out of range"@
}

pub open spec fn connection_failure(detail: Seq<char>) -> Seq<char> {
    "Connection failed: "@ + detail
}

impl MidiInput {
    /// The device connected to, if any.
    pub closed spec fn device(&self) -> Option<MidiDeviceView> {
        match self.current_device {
            Some(device) => Some(device@),
            None => None,
        }
    }

    pub closed spec fn connected(&self) -> bool {
        self.connected
    }

    /// The invariant: connected means connected to a device.
    pub open spec fn wf(&self) -> bool {
        self.connected() <==> self.device().is_some()
    }

    /// A connection state with no device connected.
    pub fn new() -> (input: MidiInput)
        ensures
            input.wf(),
            !input.connected(),
    {
        MidiInput { connected: false, current_device: None }
    }

    pub fn is_connected(&self) -> (connected: bool)
        ensures
            connected == self.connected(),
    {
        self.connected
    }

    pub fn get_current_device(&self) -> (device: Option<&MidiDevice>)
        ensures
            match device {
                Some(current) => self.device() == Some(current@),
                None => self.device().is_none(),
            },
    {
        self.current_device.as_ref()
    }

    /// The first step of connecting to a device, once the ports have been
    /// counted or counting them has failed. Whatever was connected before
    /// is let go first, so on any failure nothing is connected. Hands back
    /// the index of the port to open.
    pub fn connect_to_device(&mut self, device: &MidiDevice, ports: Result<usize, String>) -> (r:
        Result<usize, String>)
        ensures
            final(self).wf(),
            !final(self).connected(),
            match ports {
                Err(detail) => r matches Err(message) && message@ == backend_failure(detail@),
                Ok(count) => if device.port_index < count {
                    r == Ok::<usize, String>(device.port_index)
                } else {
                    r matches Err(message) && message@ == port_out_of_range()
                },
            },
    {
        self.connected = false;
        self.current_device = None;
        match ports {
            Err(detail) => Err(
                String::from_str("Failed to create MIDI input: ").concat(detail.as_str()),
            ),
            Ok(count) => {
                if device.port_index >= count {
                    Err(String::from_str("Device port index out of range"))
                } else {
                    Ok(device.port_index)
                }
            },
        }
    }

    /// The second step of connecting to a device, once opening its port
    /// has succeeded or failed: on success the device is the current one,
    /// on failure nothing changes.
    pub fn connection_opened(&mut self, device: &MidiDevice, outcome: Result<(), String>) -> (r:
        Result<(), String>)
        requires
            old(self).wf(),
        ensures
            final(self).wf(),
            match outcome {
                Ok(_) => r.is_ok() && final(self).connected() && final(self).device() == Some(
                    device@,
                ),
                Err(detail) => (r matches Err(message) && message@ == connection_failure(detail@))
                    && final(self).connected() == old(self).connected() && final(self).device()
                    == old(self).device(),
            },
    {
        match outcome {
            Ok(_) => {
                self.connected = true;
                self.current_device = Some(device.clone());
                Ok(())
            },
            Err(detail) => Err(String::from_str("Connection failed: ").concat(detail.as_str())),
        }
    }

    /// Lets the connected device go, if there is one.
    pub fn disconnect(&mut self)
        ensures
            final(self).wf(),
            !final(self).connected(),
    {
        self.connected = false;
        self.current_device = None;
    }

    /// The device to connect to where none was chosen: the first one.
    pub fn first_available(devices: &Vec<MidiDevice>) -> (device: Option<&MidiDevice>)
        ensures
            match device {
                Some(first) => devices@.len() > 0 && first@ == devices@[0]@,
                None => devices@.len() == 0,
            },
    {
        if devices.len() > 0 {
            Some(&devices[0])
        } else {
            None
        }
    }

    /// Decodes one raw message as it arrives. The device's own timestamp
    /// is discarded: the event is stamped with the wall clock, since only
    /// the order of arrival matters downstream. Everything but the stamp
    /// is determined by the message.
    pub fn parse_midi_message(message: &[u8], _timestamp: u64) -> (event: Option<MidiEvent>)
        ensures
            exists|now: u64| event == decoded_event(message@, now),
    {
        let now: u64 = wall_clock_millis();
        decode_message(message, now)
    }
}

} // verus!
