//! The bytes of each message that a board is sent.
use crate::constants::{
    ANALOG_MAPPING_QUERY, ANALOG_MESSAGE, CC_BUTTON_DOWN, CC_BUTTON_JOYSTICK, CC_BUTTON_LEFT,
    CC_BUTTON_RIGHT, CC_BUTTON_UP, CC_DATA_STREAMING_ENABLED, CC_GET, CC_SET, DIGITAL_MESSAGE,
    END_SYSEX, HID_ENABLED, I2C_CONFIG, I2C_MODE_READ, I2C_MODE_WRITE, I2C_REQUEST, PIN_MODE,
    REPORT_ANALOG, REPORT_DIGITAL, REPORT_FIRMWARE, START_SYSEX,
};
use vstd::arithmetic::power2::pow2;
use vstd::prelude::*;

verus! {

/// The low seven bits of `x`: the first data byte of a value sent as two
/// seven-bit bytes.
pub open spec fn low7(x: int) -> u8 {
    (x % 128) as u8
}

/// Bits seven to thirteen of `x`: the second data byte of a value sent as two
/// seven-bit bytes.
pub open spec fn high7(x: int) -> u8 {
    ((x / 128) % 128) as u8
}

/// Asks the device for the setting `config`.
pub open spec fn settings_get_message(config: u8) -> Seq<u8> {
    seq![START_SYSEX, CC_GET, config, END_SYSEX]
}

/// Sets the device setting `config` to `value`.
pub open spec fn settings_set_message(config: u8, value: u8) -> Seq<u8> {
    seq![START_SYSEX, CC_SET, config, value, END_SYSEX]
}

/// A sysex message with the single command byte `command`.
pub open spec fn query_message(command: u8) -> Seq<u8> {
    seq![START_SYSEX, command, END_SYSEX]
}

/// Configures the I2C read delay: `delay` as two eight-bit bytes, low first.
pub open spec fn i2c_config_message(delay: i32) -> Seq<u8> {
    seq![START_SYSEX, I2C_CONFIG, (delay % 256) as u8, ((delay / 256) % 256) as u8, END_SYSEX]
}

/// Asks the I2C device at `address` for `size` bytes.
pub open spec fn i2c_read_message(address: i32, size: i32) -> Seq<u8> {
    seq![
        START_SYSEX,
        I2C_REQUEST,
        address as u8,
        (I2C_MODE_READ * 8) as u8,
        low7(size as int),
        high7(size as int),
        END_SYSEX,
    ]
}

/// Each byte of `data` as two seven-bit bytes, low bits first.
pub open spec fn split7(data: Seq<u8>) -> Seq<u8> {
    Seq::new(
        2 * data.len(),
        |k: int|
            if k % 2 == 0 {
                data[k / 2] % 128
            } else {
                data[k / 2] / 128
            },
    )
}

/// Writes `data` to the I2C device at `address`.
pub open spec fn i2c_write_message(address: i32, data: Seq<u8>) -> Seq<u8> {
    seq![START_SYSEX, I2C_REQUEST, address as u8, (I2C_MODE_WRITE * 8) as u8] + split7(data)
        + seq![END_SYSEX]
}

/// Switches the reporting of digital port `pin` to `state`.
pub open spec fn report_digital_message(pin: i32, state: i32) -> Seq<u8> {
    seq![REPORT_DIGITAL | (pin as u8), state as u8]
}

/// Switches the reporting of analog pin `pin` to `state`.
pub open spec fn report_analog_message(pin: i32, state: i32) -> Seq<u8> {
    seq![REPORT_ANALOG | (pin as u8), state as u8]
}

/// Writes `level` to analog pin `pin`.
pub open spec fn analog_message(pin: i32, level: i32) -> Seq<u8> {
    seq![ANALOG_MESSAGE | (pin as u8), low7(level as int), high7(level as int)]
}

/// Writes the eight pin states `value` to digital port `port`.
pub open spec fn digital_message(port: int, value: int) -> Seq<u8> {
    seq![DIGITAL_MESSAGE | (port as u8), low7(value), high7(value)]
}

/// Sets the mode of pin `pin` to `mode`.
pub open spec fn pin_mode_message(pin: i32, mode: u8) -> Seq<u8> {
    seq![PIN_MODE, pin as u8, mode]
}

/// The queries a board is sent when a connection opens, in order; each is
/// followed by one received message.
pub open spec fn startup_messages() -> Seq<Seq<u8>> {
    seq![
        query_message(REPORT_FIRMWARE),
        query_message(ANALOG_MAPPING_QUERY),
        settings_get_message(HID_ENABLED),
        settings_get_message(CC_DATA_STREAMING_ENABLED),
        settings_get_message(CC_BUTTON_UP),
        settings_get_message(CC_BUTTON_DOWN),
        settings_get_message(CC_BUTTON_LEFT),
        settings_get_message(CC_BUTTON_RIGHT),
        settings_get_message(CC_BUTTON_JOYSTICK),
    ]
}

/// The bits of a digital port, from pin states: bit `i` is set when the `i`th
/// of `states` is nonzero (the first `n` states).
pub open spec fn port_bits(states: Seq<i32>, n: nat) -> int
    decreases n,
{
    if n == 0 {
        0
    } else {
        port_bits(states, (n - 1) as nat) + if states[n - 1] != 0 {
            pow2((n - 1) as nat) as int
        } else {
            0
        }
    }
}

/// The seven-bit split of an `i32`, as the code computes it.
pub proof fn lemma_split7_i32(x: i32)
    ensures
        (x & 0x7f) as u8 == low7(x as int),
        ((x >> 7) & 0x7f) as u8 == high7(x as int),
{
    assert((x & 0x7f) as u8 == (x % 128) as u8) by (bit_vector);
    assert(((x >> 7) & 0x7f) as u8 == ((x / 128) % 128) as u8) by (bit_vector);
}

/// The seven-bit split of a byte, as the code computes it.
pub proof fn lemma_split7_u8(b: u8)
    ensures
        b & 0x7f == b % 128,
        (((b as i32) >> 7) & 0x7f) as u8 == b / 128,
{
    assert(b & 0x7f == b % 128) by (bit_vector);
    assert((((b as i32) >> 7) & 0x7f) as u8 == b / 128) by (bit_vector);
}

} // verus!
