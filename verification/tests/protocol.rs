use firmata::board::{Board, Mode, Pin};
use firmata::constants::{
    ANALOG_MAPPING_RESPONSE, CAPABILITY_RESPONSE, CC_BUTTON_DOWN, CC_EVENT, CC_RESPONSE,
    END_SYSEX, HID_ENABLED, I2C_REPLY, INPUT, OUTPUT, PROTOCOL_VERSION, REPORT_FIRMWARE,
    START_SYSEX,
};
use firmata::decode::FirmataError;
use firmata::frame::{is_identifier, timed_out, FrameReader};
use firmata::settings::CCSettings;

fn board_with_pins(n: usize) -> Board {
    let mut b = Board::new();
    for _ in 0..n {
        b.pins.push(Pin { modes: vec![], analog: false, value: 0, mode: 0 });
    }
    b
}

#[test]
fn settings_lookups() {
    let mut s = CCSettings::new();
    assert_eq!(s.get(&HID_ENABLED), None);
    assert_eq!(s.get_char(&HID_ENABLED), None);
    assert_eq!(s.enabled(&HID_ENABLED), None);
    s.set(HID_ENABLED, 1);
    s.set(CC_BUTTON_DOWN, b'w');
    assert_eq!(s.get(&HID_ENABLED), Some(1));
    assert_eq!(s.get_bool(&HID_ENABLED), Some(true));
    assert_eq!(s.enabled(&HID_ENABLED), Some(true));
    assert_eq!(s.get_char(&CC_BUTTON_DOWN), Some('w'));
    s.set(HID_ENABLED, 0);
    assert_eq!(s.get_bool(&HID_ENABLED), Some(false));
    assert_eq!(s.get(&CC_BUTTON_DOWN), Some(b'w'));
}

#[test]
fn settings_messages() {
    let mut b = Board::new();
    assert_eq!(b.settings_get(HID_ENABLED), vec![0xF0, 0x00, 100, 0xF7]);
    assert_eq!(b.settings_set(CC_BUTTON_DOWN, b'x'), vec![0xF0, 0x01, 7, b'x', 0xF7]);
    assert_eq!(b.cc_settings.get_char(&CC_BUTTON_DOWN), Some('x'));
}

#[test]
fn query_messages() {
    let b = Board::new();
    assert_eq!(b.query_analog_mapping(), vec![0xF0, 0x69, 0xF7]);
    assert_eq!(b.query_capabilities(), vec![0xF0, 0x6B, 0xF7]);
    assert_eq!(b.query_firmware(), vec![0xF0, 0x79, 0xF7]);
}

#[test]
fn startup_sequence() {
    let qs = Board::startup_queries();
    assert_eq!(qs.len(), 9);
    assert_eq!(qs[0], vec![0xF0, 0x79, 0xF7]);
    assert_eq!(qs[1], vec![0xF0, 0x69, 0xF7]);
    assert_eq!(qs[2], vec![0xF0, 0x00, 100, 0xF7]);
    assert_eq!(qs[3], vec![0xF0, 0x00, 103, 0xF7]);
    assert_eq!(qs[8], vec![0xF0, 0x00, 13, 0xF7]);
}

#[test]
fn i2c_config_message() {
    let b = Board::new();
    assert_eq!(b.i2c_config(1000), vec![0xF0, 0x78, 0xE8, 0x03, 0xF7]);
    assert_eq!(b.i2c_config(-1), vec![0xF0, 0x78, 0xFF, 0xFF, 0xF7]);
}

#[test]
fn i2c_read_message() {
    let b = Board::new();
    assert_eq!(b.i2c_read(0x48, 300), vec![0xF0, 0x76, 0x48, 0x08, 44, 2, 0xF7]);
    assert_eq!(b.i2c_read(0x148, 6), vec![0xF0, 0x76, 0x48, 0x08, 6, 0, 0xF7]);
}

#[test]
fn i2c_write_message() {
    let b = Board::new();
    assert_eq!(
        b.i2c_write(0x48, &[0xFF, 0x01, 0x80]),
        vec![0xF0, 0x76, 0x48, 0x00, 0x7F, 0x01, 0x01, 0x00, 0x00, 0x01, 0xF7]
    );
    assert_eq!(b.i2c_write(0x10, &[]), vec![0xF0, 0x76, 0x10, 0x00, 0xF7]);
}

#[test]
fn report_messages() {
    let b = Board::new();
    assert_eq!(b.report_digital(1, 1), vec![0xD1, 1]);
    assert_eq!(b.report_analog(2, 0), vec![0xC2, 0]);
}

#[test]
fn analog_write_message_and_state() {
    let mut b = board_with_pins(4);
    assert_eq!(b.analog_write(3, 1000), vec![0xE3, 104, 7]);
    assert_eq!(b.pins[3].value, 1000);
    assert_eq!(b.pins[2].value, 0);
}

#[test]
fn digital_write_packs_the_port() {
    let mut b = board_with_pins(16);
    b.pins[9].value = 5;
    assert_eq!(b.digital_write(15, 1), vec![0x91, 0x02, 0x01]);
    assert_eq!(b.pins[15].value, 1);
    assert_eq!(b.digital_write(9, 0), vec![0x91, 0x00, 0x01]);
    assert_eq!(b.digital_write(0, 7), vec![0x90, 0x01, 0x00]);
}

#[test]
fn set_pin_mode_message_and_state() {
    let mut b = board_with_pins(3);
    assert_eq!(b.set_pin_mode(2, OUTPUT), vec![0xF4, 2, 1]);
    assert_eq!(b.pins[2].mode, OUTPUT);
}

#[test]
fn decode_protocol_version_in_octal() {
    let mut b = Board::new();
    let r = b.decode(vec![PROTOCOL_VERSION, 2, 9]);
    assert_eq!(r, Ok(vec![PROTOCOL_VERSION, 2, 9]));
    assert_eq!(b.protocol_version(), "2.11");
}

#[test]
fn decode_firmware_report() {
    let mut b = Board::new();
    let msg = vec![START_SYSEX, REPORT_FIRMWARE, 2, 10, b'H', b'I', b'D', END_SYSEX];
    assert_eq!(b.decode(msg.clone()), Ok(msg));
    assert_eq!(b.firmware_version(), "2.12");
    assert_eq!(b.firmware_name(), "HID");
}

#[test]
fn decode_analog_message() {
    let mut b = board_with_pins(20);
    assert!(b.decode(vec![0xE2, 0x68, 0x07]).is_ok());
    assert_eq!(b.pins[16].value, 1000);
    let mut small = board_with_pins(3);
    assert!(small.decode(vec![0xE2, 0x68, 0x07]).is_ok());
    assert_eq!(small.pins[2].value, 0);
}

#[test]
fn decode_digital_message_sets_inputs_only() {
    let mut b = board_with_pins(16);
    b.pins[9].mode = OUTPUT;
    assert!(b.decode(vec![0x91, 0x03, 0x01]).is_ok());
    assert_eq!(b.pins[8].value, 1);
    assert_eq!(b.pins[9].value, 0);
    assert_eq!(b.pins[10].value, 0);
    assert_eq!(b.pins[15].value, 1);
    assert_eq!(b.pins[0].value, 0);
    assert_eq!(b.pins[8].mode, INPUT);
}

#[test]
fn decode_settings_response() {
    let mut b = Board::new();
    let msg = vec![START_SYSEX, CC_RESPONSE, HID_ENABLED, 1, END_SYSEX];
    assert!(b.decode(msg).is_ok());
    assert_eq!(b.cc_settings.enabled(&HID_ENABLED), Some(true));
}

#[test]
fn decode_cc_event_changes_nothing() {
    let mut b = board_with_pins(2);
    assert_eq!(b.decode(vec![CC_EVENT, 1, 2, 3, 4]), Ok(vec![CC_EVENT, 1, 2, 3, 4]));
    assert_eq!(b.pins.len(), 2);
}

#[test]
fn decode_capability_response() {
    let mut b = board_with_pins(1);
    let msg = vec![START_SYSEX, CAPABILITY_RESPONSE, 0, 1, 1, 1, 127, 127, 2, 10, 127, END_SYSEX];
    assert!(b.decode(msg).is_ok());
    assert_eq!(b.pins.len(), 4);
    assert_eq!(b.pins[0].modes, vec![Mode { mode: 0, resolution: 1 }, Mode { mode: 1, resolution: 1 }]);
    assert!(b.pins[1].modes.is_empty());
    assert_eq!(b.pins[2].modes, vec![Mode { mode: 2, resolution: 10 }]);
    assert!(b.pins[3].modes.is_empty());
}

#[test]
fn decode_analog_mapping_response() {
    let mut b = board_with_pins(4);
    let msg = vec![START_SYSEX, ANALOG_MAPPING_RESPONSE, 127, 0, 127, 1, END_SYSEX];
    assert!(b.decode(msg).is_ok());
    assert_eq!(
        b.pins.iter().map(|p| p.analog).collect::<Vec<_>>(),
        vec![false, true, false, true]
    );
}

#[test]
fn analog_mapping_without_pins_is_ignored() {
    let mut b = Board::new();
    assert!(b.decode(vec![START_SYSEX, ANALOG_MAPPING_RESPONSE, 0, 1, END_SYSEX]).is_ok());
    assert!(b.pins.is_empty());
}

#[test]
fn decode_i2c_reply() {
    let mut b = Board::new();
    let msg = vec![START_SYSEX, I2C_REPLY, 0x48, 0x00, 0x02, 0x00, 0x7F, 0x01, 0x05, 0x00, END_SYSEX];
    assert!(b.decode(msg).is_ok());
    let replies = b.i2c_data();
    assert_eq!(replies.len(), 1);
    assert_eq!(replies[0].address, 0x48);
    assert_eq!(replies[0].register, 2);
    assert_eq!(replies[0].data, vec![0xFF, 0x05]);
    replies.clear();
    assert!(b.i2c_data.is_empty());
}

#[test]
fn decode_errors() {
    let mut b = Board::new();
    assert_eq!(b.decode(vec![START_SYSEX, 0x55, END_SYSEX]), Err(FirmataError::UnknownSysexCode));
    assert_eq!(b.decode(vec![0x42, 0, 0]), Err(FirmataError::BadByte));
}

#[test]
fn try_decode_refuses_what_cannot_be_applied() {
    let mut b = board_with_pins(1);
    assert_eq!(b.try_decode(vec![START_SYSEX, REPORT_FIRMWARE, 2, 3, 0xFF, END_SYSEX]), None);
    assert_eq!(b.try_decode(vec![PROTOCOL_VERSION, 2]), None);
    assert_eq!(b.try_decode(vec![START_SYSEX, ANALOG_MAPPING_RESPONSE, 127, 0, END_SYSEX]), None);
    assert_eq!(b.try_decode(vec![START_SYSEX, I2C_REPLY, 1, 2, END_SYSEX]), None);
    assert!(!b.can_decode(&vec![]));
    assert!(b.can_decode(&vec![START_SYSEX, ANALOG_MAPPING_RESPONSE, 0, 127, END_SYSEX]));
    assert_eq!(b.try_decode(vec![PROTOCOL_VERSION, 8, 0]), Some(Ok(vec![PROTOCOL_VERSION, 8, 0])));
    assert_eq!(b.protocol_version, "10.0");
}

#[test]
fn frame_reader_skips_noise_and_delimits() {
    let mut r = FrameReader::new(0);
    assert!(r.is_scanning());
    assert_eq!(r.push(0x42), None);
    assert_eq!(r.push(END_SYSEX), None);
    assert!(r.is_scanning());
    assert_eq!(r.push(PROTOCOL_VERSION), None);
    assert!(!r.is_scanning());
    assert_eq!(r.push(2), None);
    assert_eq!(r.push(5), Some(vec![PROTOCOL_VERSION, 2, 5]));
    assert!(r.is_scanning());
}

#[test]
fn frame_reader_sysex_and_cc_event() {
    let mut r = FrameReader::new(0);
    let sysex = [START_SYSEX, END_SYSEX, END_SYSEX, 7, END_SYSEX];
    for (i, byte) in sysex.iter().enumerate() {
        let out = r.push(*byte);
        if i + 1 < sysex.len() {
            assert_eq!(out, None);
        } else {
            assert_eq!(out, Some(sysex.to_vec()));
        }
    }
    for byte in [CC_EVENT, 1, 2, 3] {
        assert_eq!(r.push(byte), None);
    }
    assert_eq!(r.push(4), Some(vec![CC_EVENT, 1, 2, 3, 4]));
}

#[test]
fn frame_reader_takes_the_last_channels() {
    let mut r = FrameReader::new(0);
    for byte in [0xEF, 0x05] {
        assert_eq!(r.push(byte), None);
    }
    assert_eq!(r.push(0x00), Some(vec![0xEF, 0x05, 0x00]));
    for byte in [0x9F, 0x01] {
        assert_eq!(r.push(byte), None);
    }
    assert_eq!(r.push(0x00), Some(vec![0x9F, 0x01, 0x00]));
}

#[test]
fn frame_reader_waits_for_its_kind() {
    let mut r = FrameReader::new(START_SYSEX);
    assert_eq!(r.push(PROTOCOL_VERSION), None);
    assert!(r.is_scanning());
    assert_eq!(r.push(START_SYSEX), None);
    assert!(!r.is_scanning());
}

#[test]
fn identifiers_and_timeouts() {
    assert!(is_identifier(0xF9));
    assert!(is_identifier(0xE0));
    assert!(is_identifier(0xEF));
    assert!(is_identifier(0x9E));
    assert!(is_identifier(0x9F));
    assert!(!is_identifier(0xA0));
    assert!(!is_identifier(0x8F));
    assert!(!is_identifier(0xF7));
    assert!(timed_out(3, 2));
    assert!(!timed_out(2, 2));
    assert!(!timed_out(1000, -1));
}
