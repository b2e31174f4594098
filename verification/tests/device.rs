use piano_sight_reading::midi::device::MidiDevice;
use piano_sight_reading::midi::input::MidiInput;

fn device(name: &str, port_index: usize) -> MidiDevice {
    MidiDevice { name: name.to_string(), port_index }
}

#[test]
fn a_named_device_shows_its_name() {
    assert_eq!(device("Grand Piano", 3).get_display_name(), "Grand Piano");
}

#[test]
fn a_nameless_device_shows_its_port() {
    assert_eq!(device("", 0).get_display_name(), "MIDI Device 0");
    assert_eq!(device("", 7).get_display_name(), "MIDI Device 7");
    assert_eq!(device("", 10).get_display_name(), "MIDI Device 10");
    assert_eq!(device("", 409).get_display_name(), "MIDI Device 409");
    assert_eq!(device("", 1234567890).get_display_name(), "MIDI Device 1234567890");
    assert_eq!(device("", usize::MAX).get_display_name(), format!("MIDI Device {}", usize::MAX));
}

#[test]
fn devices_are_listed_with_the_place_of_their_port() {
    let names = vec![Some("A".to_string()), None, Some("".to_string()), None, Some("B".to_string())];
    assert_eq!(MidiDevice::list_available(&names), vec![device("A", 0), device("", 2), device("B", 4)]);
    assert_eq!(MidiDevice::list_available(&Vec::new()), Vec::<MidiDevice>::new());
    assert_eq!(MidiDevice::list_available(&vec![None, None]), Vec::<MidiDevice>::new());
}

#[test]
fn a_copy_of_a_device_equals_it() {
    let keys = device("Keys", 2);
    assert_eq!(keys.clone(), keys);
}

#[test]
fn a_new_input_is_not_connected() {
    let input = MidiInput::new();
    assert!(!input.is_connected());
    assert!(input.get_current_device().is_none());
}

#[test]
fn connecting_to_a_device() {
    let mut input = MidiInput::new();
    let keys = device("Keys", 1);
    assert_eq!(input.connect_to_device(&keys, Ok(2)), Ok(1));
    assert!(!input.is_connected());
    assert_eq!(input.connection_opened(&keys, Ok(())), Ok(()));
    assert!(input.is_connected());
    assert_eq!(input.get_current_device(), Some(&keys));
    input.disconnect();
    assert!(!input.is_connected());
    assert!(input.get_current_device().is_none());
}

#[test]
fn a_failed_connection_leaves_nothing_connected() {
    let mut input = MidiInput::new();
    let keys = device("Keys", 1);
    let pads = device("Pads", 4);
    assert_eq!(input.connect_to_device(&keys, Ok(2)), Ok(1));
    assert_eq!(input.connection_opened(&keys, Ok(())), Ok(()));
    assert_eq!(
        input.connect_to_device(&pads, Ok(4)),
        Err("Device port index out of range".to_string())
    );
    assert!(!input.is_connected());
    assert!(input.get_current_device().is_none());
    assert_eq!(input.connect_to_device(&pads, Ok(5)), Ok(4));
    assert_eq!(
        input.connection_opened(&pads, Err("port busy".to_string())),
        Err("Connection failed: port busy".to_string())
    );
    assert!(!input.is_connected());
    assert_eq!(
        input.connect_to_device(&keys, Err("no backend".to_string())),
        Err("Failed to create MIDI input: no backend".to_string())
    );
    assert!(!input.is_connected());
}

#[test]
fn the_first_device_is_the_one_to_try() {
    let devices = vec![device("A", 0), device("B", 1)];
    assert_eq!(MidiInput::first_available(&devices), Some(&devices[0]));
    assert_eq!(MidiInput::first_available(&Vec::new()), None);
}
