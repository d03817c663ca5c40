use rs_dbc::{Dbc, Message, MessageID, Signal};
use std::collections::HashMap;

fn signal(byte_order: &str, start_bit: u64, signal_size: u64) -> Signal {
    Signal {
        name: "S".to_string(),
        start_bit,
        signal_size,
        byte_order: byte_order.to_string(),
        value_type: "Unsigned".to_string(),
        factor: "1".to_string(),
        offset: "0".to_string(),
        min: "0".to_string(),
        max: "0".to_string(),
        unit: String::new(),
        receivers: Vec::new(),
        value_descriptions: HashMap::new(),
        multiplexer_type: "Plain".to_string(),
        initial_value: "0.0".to_string(),
    }
}

fn message(transmitter: &str) -> Message {
    Message {
        message_name: "M".to_string(),
        message_id: MessageID::Standard(1),
        message_size: 8,
        cycle_time: 0,
        transmitter: transmitter.to_string(),
        signals: Vec::new(),
    }
}

#[test]
fn intel_signal_displays_its_start_bit() {
    for start_bit in [0u64, 1, 7, 8, 15, 63, 64, 1000, u64::MAX] {
        for signal_size in [0u64, 1, 2, 8, 9, 16, 64, u64::MAX] {
            assert_eq!(signal("Intel", start_bit, signal_size).vector_start_bit(), start_bit);
        }
    }
}

#[test]
fn motorola_signal_of_one_bit_displays_its_start_bit() {
    for start_bit in [0u64, 1, 6, 7, 8, 15, 16, 63, 1000, u64::MAX] {
        assert_eq!(signal("Motorola", start_bit, 1).vector_start_bit(), start_bit);
    }
}

#[test]
fn motorola_signal_across_bytes_displays_its_end_bit() {
    assert_eq!(signal("Motorola", 23, 12).vector_start_bit(), 12);
    assert_eq!(signal("Motorola", 15, 9).vector_start_bit(), 7);
    assert_eq!(signal("Motorola", 63, 64).vector_start_bit(), 0);
    assert_eq!(signal("Motorola", 39, 16).vector_start_bit(), 24);
}

#[test]
fn motorola_signal_wider_than_its_start_bit_displays_bit_0() {
    assert_eq!(signal("Motorola", 7, 16).vector_start_bit(), 0);
    assert_eq!(signal("Motorola", 8, 16).vector_start_bit(), 0);
    assert_eq!(signal("Motorola", 0, 2).vector_start_bit(), 0);
    assert_eq!(signal("Motorola", 3, u64::MAX).vector_start_bit(), 0);
    assert_eq!(signal("Motorola", u64::MAX - 1, u64::MAX).vector_start_bit(), 0);
}

#[test]
fn motorola_signal_within_a_byte_from_its_top_bit_displays_its_start_bit() {
    assert_eq!(signal("Motorola", 63, 4).vector_start_bit(), 63);
    assert_eq!(signal("Motorola", 15, 8).vector_start_bit(), 15);
    assert_eq!(signal("Motorola", 7, 8).vector_start_bit(), 7);
    assert_eq!(signal("Motorola", 7, 3).vector_start_bit(), 7);
}

#[test]
fn motorola_signal_within_a_byte_below_its_top_bit_displays_its_end_bit() {
    assert_eq!(signal("Motorola", 12, 4).vector_start_bit(), 9);
    assert_eq!(signal("Motorola", 6, 7).vector_start_bit(), 0);
    assert_eq!(signal("Motorola", 62, 3).vector_start_bit(), 60);
    assert_eq!(signal("Motorola", 14, 2).vector_start_bit(), 13);
}

#[test]
fn motorola_signal_of_no_bits_displays_its_start_bit() {
    assert_eq!(signal("Motorola", 12, 0).vector_start_bit(), 12);
    assert_eq!(signal("Motorola", 0, 0).vector_start_bit(), 0);
    assert_eq!(signal("Motorola", u64::MAX, 0).vector_start_bit(), u64::MAX);
}

#[test]
fn unknown_byte_order_displays_the_size() {
    assert_eq!(signal("Other", 12, 4).vector_start_bit(), 4);
    assert_eq!(signal("", 12, 5).vector_start_bit(), 5);
    assert_eq!(signal("intel", 12, 6).vector_start_bit(), 6);
    assert_eq!(signal("Motorola ", 12, 7).vector_start_bit(), 7);
}

#[test]
fn signal_accessors_return_the_fields() {
    let mut s = signal("Intel", 3, 5);
    s.name = "Speed".to_string();
    s.value_type = "Signed".to_string();
    s.factor = "0.5".to_string();
    s.offset = "-40".to_string();
    s.min = "-40".to_string();
    s.max = "215".to_string();
    s.unit = "km/h".to_string();
    s.receivers = vec!["A".to_string(), "B".to_string()];
    s.value_descriptions.insert(1, "On".to_string());
    s.multiplexer_type = "Multiplexed".to_string();
    s.initial_value = "7".to_string();
    assert_eq!(s.name(), "Speed");
    assert_eq!(s.start_bit(), 3);
    assert_eq!(s.signal_size(), 5);
    assert_eq!(s.byte_order(), "Intel");
    assert_eq!(s.value_type(), "Signed");
    assert_eq!(s.factor(), "0.5");
    assert_eq!(s.offset(), "-40");
    assert_eq!(s.min(), "-40");
    assert_eq!(s.max(), "215");
    assert_eq!(s.unit(), "km/h");
    assert_eq!(s.receivers(), &vec!["A".to_string(), "B".to_string()]);
    assert_eq!(s.value_descriptions().get(&1), Some(&"On".to_string()));
    assert_eq!(s.value_descriptions().len(), 1);
    assert_eq!(s.multiplexer_type(), "Multiplexed");
    assert_eq!(s.initial_value(), "7");
}

#[test]
fn signal_clone_is_equal() {
    let mut s = signal("Motorola", 3, 5);
    s.receivers = vec!["A".to_string(), "B".to_string()];
    s.value_descriptions.insert(1, "On".to_string());
    s.value_descriptions.insert(0, "Off".to_string());
    let copy = s.clone();
    assert_eq!(copy, s);
    assert_eq!(copy.receivers.len(), 2);
    assert_eq!(copy.value_descriptions.len(), 2);
}

#[test]
fn placeholder_transmitter_is_reported_as_none() {
    let m = message("Vector__XXX");
    assert_eq!(m.transmitter(), "No Transmitter");
    assert_eq!(m.transmitter, "Vector__XXX");
}

#[test]
fn transmitter_that_begins_with_the_placeholder_is_reported_as_it_is() {
    assert_eq!(message("Vector__XXX_2").transmitter(), "Vector__XXX_2");
    assert_eq!(message("Vector__XXXX").transmitter(), "Vector__XXXX");
    assert_eq!(message("Vector__XXX ").transmitter(), "Vector__XXX ");
}

#[test]
fn other_transmitter_is_reported_as_it_is() {
    assert_eq!(message("ECU").transmitter(), "ECU");
    assert_eq!(message("Vector__XX").transmitter(), "Vector__XX");
    assert_eq!(message("").transmitter(), "");
    assert_eq!(message("xVector__XXX").transmitter(), "xVector__XXX");
    assert_eq!(message("vector__xxx").transmitter(), "vector__xxx");
    assert_eq!(message("No Transmitter").transmitter(), "No Transmitter");
}

#[test]
fn message_accessors_return_the_fields() {
    let mut m = message("ECU");
    m.message_name = "EngineData".to_string();
    m.message_id = MessageID::Extended(0x1234_5678);
    m.message_size = 8;
    m.cycle_time = 100;
    assert_eq!(m.message_name(), "EngineData");
    assert_eq!(m.message_id(), (0x9234_5678, "CAN Extended"));
    assert_eq!(m.message_size(), 8);
    assert_eq!(m.cycle_time(), 100);
}

#[test]
fn message_and_description_clone_are_equal() {
    let mut m = message("ECU");
    m.signals.push(signal("Intel", 1, 2));
    m.signals.push(signal("Motorola", 3, 4));
    let copy = m.clone();
    assert_eq!(copy, m);
    assert_eq!(copy.signals.len(), 2);
    let dbc = Dbc { messages: vec![m, message("GW")] };
    let copy = dbc.clone();
    assert_eq!(copy, dbc);
    assert_eq!(copy.messages.len(), 2);
}
