use vstd::prelude::*;

verus! {

pub const ENCODER_DATA: u8 = 0x61;
pub const ANALOG_MAPPING_QUERY: u8 = 0x69;
pub const ANALOG_MAPPING_RESPONSE: u8 = 0x6A;
pub const CAPABILITY_QUERY: u8 = 0x6B;
pub const CAPABILITY_RESPONSE: u8 = 0x6C;
pub const PIN_STATE_QUERY: u8 = 0x6D;
pub const PIN_STATE_RESPONSE: u8 = 0x6E;
pub const EXTENDED_ANALOG: u8 = 0x6F;
pub const SERVO_CONFIG: u8 = 0x70;
pub const STRING_DATA: u8 = 0x71;
pub const STEPPER_DATA: u8 = 0x72;
pub const ONEWIRE_DATA: u8 = 0x73;
pub const SHIFT_DATA: u8 = 0x75;
pub const I2C_REQUEST: u8 = 0x76;
pub const I2C_REPLY: u8 = 0x77;
pub const I2C_CONFIG: u8 = 0x78;
pub const I2C_MODE_WRITE: u8 = 0x00;
pub const I2C_MODE_READ: u8 = 0x01;
pub const REPORT_FIRMWARE: u8 = 0x79;
pub const PROTOCOL_VERSION: u8 = 0xF9;
pub const SAMPLEING_INTERVAL: u8 = 0x7A;
pub const SCHEDULER_DATA: u8 = 0x7B;
pub const SYSEX_NON_REALTIME: u8 = 0x7E;
pub const SYSEX_REALTIME: u8 = 0x7F;
pub const START_SYSEX: u8 = 0xF0;
pub const END_SYSEX: u8 = 0xF7;
pub const PIN_MODE: u8 = 0xF4;
pub const REPORT_DIGITAL: u8 = 0xD0;
pub const REPORT_ANALOG: u8 = 0xC0;
pub const DIGITAL_MESSAGE: u8 = 0x90;
pub const ANALOG_MESSAGE: u8 = 0xE0;

pub const INPUT: u8 = 0;
pub const OUTPUT: u8 = 1;
pub const ANALOG: u8 = 2;
pub const PWM: u8 = 3;
pub const SERVO: u8 = 4;
pub const I2C: u8 = 6;
pub const ONEWIRE: u8 = 7;
pub const STEPPER: u8 = 8;
pub const ENCODER: u8 = 9;

pub const CC_EVENT: u8 = 0x03;
pub const CC_JOYSTICK_EVENT: u8 = 0x04;
pub const CC_BUTTON_EVENT: u8 = 0x05;
pub const CC_GET: u8 = 0x00;
pub const CC_SET: u8 = 0x01;
pub const CC_RESPONSE: u8 = 0x02;
pub const CC_BUTTON_UP: u8 = 6;
pub const CC_BUTTON_DOWN: u8 = 7;
pub const CC_BUTTON_LEFT: u8 = 8;
pub const CC_BUTTON_RIGHT: u8 = 9;
pub const CC_BUTTON_JOYSTICK: u8 = 13;

pub const HID_ENABLED: u8 = 100;
pub const HID_SETTING_JS_SENSITIVITY: u8 = 101;
pub const HID_SETTING_JS_INVERTED: u8 = 102;
pub const CC_DATA_STREAMING_ENABLED: u8 = 103;

/// The byte that separates the pins of a capability response and marks a
/// pin without an analog channel in an analog mapping response.
pub const PIN_SEPARATOR: u8 = 127;

} // verus!
