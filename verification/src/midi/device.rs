//! Input devices, as they are listed and named.

use vstd::prelude::*;
use vstd::string::StringExecFns;

verus! {

/// An input device: the name of its port, and the port's place among the
/// ports.
#[derive(Debug, PartialEq, Eq)]
pub struct MidiDevice {
    pub name: String,
    pub port_index: usize,
}

pub struct MidiDeviceView {
    pub name: Seq<char>,
    pub port_index: usize,
}

impl View for MidiDevice {
    type V = MidiDeviceView;

    open spec fn view(&self) -> MidiDeviceView {
        MidiDeviceView { name: self.name@, port_index: self.port_index }
    }
}

impl Clone for MidiDevice {
    fn clone(&self) -> (copy: MidiDevice)
        ensures
            copy@ == self@,
    {
        MidiDevice { name: self.name.clone(), port_index: self.port_index }
    }
}

/// The character of a digit.
pub open spec fn digit_char(digit: nat) -> char {
    if digit == 0 {
        '0'
    } else if digit == 1 {
        '1'
    } else if digit == 2 {
        '2'
    } else if digit == 3 {
        '3'
    } else if digit == 4 {
        '4'
    } else if digit == 5 {
        '5'
    } else if digit == 6 {
        '6'
    } else if digit == 7 {
        '7'
    } else if digit == 8 {
        '8'
    } else {
        '9'
    }
}

/// A number written in decimal, without leading zeros.
pub open spec fn decimal(n: nat) -> Seq<char>
    decreases n,
{
    if n < 10 {
        seq![digit_char(n)]
    } else {
        decimal(n / 10).push(digit_char(n % 10))
    }
}

/// The name shown for a device: its own, or one made of its port's index
/// where it has none.
pub open spec fn display_name(device: MidiDeviceView) -> Seq<char> {
    if device.name.len() == 0 {
        "MIDI Device "@ + decimal(device.port_index as nat)
    } else {
        device.name
    }
}

/// The devices of the ports whose names could be read, each with the place
/// of its port among all the ports.
pub open spec fn devices_of(port_names: Seq<Option<String>>) -> Seq<MidiDeviceView>
    decreases port_names.len(),
{
    if port_names.len() == 0 {
        Seq::empty()
    } else {
        let before = devices_of(port_names.drop_last());
        match port_names.last() {
            Some(name) => before.push(
                MidiDeviceView { name: name@, port_index: (port_names.len() - 1) as usize },
            ),
            None => before,
        }
    }
}

pub open spec fn device_views(devices: Seq<MidiDevice>) -> Seq<MidiDeviceView> {
    Seq::new(devices.len(), |i: int| devices[i]@)
}

fn digit_text(digit: usize) -> (text: &'static str)
    requires
        digit < 10,
    ensures
        text@ == seq![digit_char(digit as nat)],
{
    proof {
        reveal_strlit("0");
        reveal_strlit("1");
        reveal_strlit("2");
        reveal_strlit("3");
        reveal_strlit("4");
        reveal_strlit("5");
        reveal_strlit("6");
        reveal_strlit("7");
        reveal_strlit("8");
        reveal_strlit("9");
    }
    let text = if digit == 0 {
        "0"
    } else if digit == 1 {
        "1"
    } else if digit == 2 {
        "2"
    } else if digit == 3 {
        "3"
    } else if digit == 4 {
        "4"
    } else if digit == 5 {
        "5"
    } else if digit == 6 {
        "6"
    } else if digit == 7 {
        "7"
    } else if digit == 8 {
        "8"
    } else {
        "9"
    };
    assert(text@ =~= seq![digit_char(digit as nat)]);
    text
}

/// Writes a number in decimal at the end of a text.
fn append_decimal(text: &mut String, n: usize)
    ensures
        final(text)@ == old(text)@ + decimal(n as nat),
    decreases n,
{
    if n >= 10 {
        append_decimal(text, n / 10);
    }
    text.append(digit_text(n % 10));
    assert(text@ =~= old(text)@ + decimal(n as nat));
}

impl MidiDevice {
    /// The devices of a list of ports, given the name of each port or
    /// nothing where the name could not be read.
    pub fn list_available(port_names: &Vec<Option<String>>) -> (devices: Vec<MidiDevice>)
        ensures
            device_views(devices@) == devices_of(port_names@),
    {
        let mut devices: Vec<MidiDevice> = Vec::new();
        let mut index: usize = 0;
        proof {
            assert(port_names@.take(0) =~= Seq::<Option<String>>::empty());
            assert(device_views(devices@) =~= Seq::<MidiDeviceView>::empty());
        }
        while index < port_names.len()
            invariant
                0 <= index <= port_names@.len(),
                device_views(devices@) == devices_of(port_names@.take(index as int)),
            decreases port_names@.len() - index,
        {
            let ghost before = device_views(devices@);
            proof {
                let longer = port_names@.take(index + 1);
                assert(longer.drop_last() =~= port_names@.take(index as int));
                assert(longer.last() == port_names@[index as int]);
            }
            match &port_names[index] {
                Some(name) => {
                    devices.push(MidiDevice { name: name.clone(), port_index: index });
                    assert(device_views(devices@) =~= before.push(
                        MidiDeviceView { name: name@, port_index: index },
                    ));
                },
                None => {},
            }
            index = index + 1;
        }
        assert(port_names@.take(index as int) =~= port_names@);
        devices
    }

    pub fn get_display_name(&self) -> (name: String)
        ensures
            name@ == display_name(self@),
    {
        if self.name.as_str().is_empty() {
            let mut name = String::from_str("MIDI Device ");
            append_decimal(&mut name, self.port_index);
            name
        } else {
            self.name.clone()
        }
    }
}

} // verus!
