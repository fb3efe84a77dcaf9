//! What the fields of each message are, and what each received message
//! changes in the board, stated in terms of the bytes and numbers involved.
use crate::board::BoardView;
use crate::constants::{CC_RESPONSE, END_SYSEX, INPUT, START_SYSEX};
use crate::decode::{decode_outcome, decodable};
use crate::frame::{frame_complete, is_frame, no_complete_prefix, starts_frame};
use crate::messages::{
    analog_message, digital_message, i2c_config_message, i2c_read_message, i2c_write_message,
    pin_mode_message, report_analog_message, report_digital_message, settings_get_message,
    settings_set_message,
};
use crate::settings::lookup;
use crate::text::octal;
use vstd::arithmetic::power2::{lemma2_to64, pow2};
use vstd::prelude::*;
use vstd::utf8::{decode_utf8, valid_utf8};

verus! {

/// The pin mode message names the pin itself and the mode asked for.
pub proof fn law_pin_mode_message_fields(pin: i32, mode: u8)
    requires
        0 <= pin < 256,
    ensures
        pin_mode_message(pin, mode).len() == 3,
        pin_mode_message(pin, mode)[0] == 0xF4,
        pin_mode_message(pin, mode)[1] as int == pin,
        pin_mode_message(pin, mode)[2] == mode,
{
}

/// A report switch names the port or pin in its first byte's low nibble and
/// carries the state asked for.
pub proof fn law_report_message_fields(pin: i32, state: i32)
    requires
        0 <= pin < 16,
        0 <= state < 256,
    ensures
        report_analog_message(pin, state).len() == 2,
        report_analog_message(pin, state)[0] as int == 0xC0 + pin,
        report_analog_message(pin, state)[1] as int == state,
        report_digital_message(pin, state).len() == 2,
        report_digital_message(pin, state)[0] as int == 0xD0 + pin,
        report_digital_message(pin, state)[1] as int == state,
{
    let p = pin as u8;
    assert(p < 16 ==> (0xC0u8 | p) == 0xC0 + p && (0xD0u8 | p) == 0xD0 + p) by (bit_vector);
}

/// An analog write names the channel in its first byte's low nibble and
/// carries the level as two seven-bit bytes, low first.
pub proof fn law_analog_message_fields(pin: i32, level: i32)
    requires
        0 <= pin < 16,
        0 <= level < 16384,
    ensures
        analog_message(pin, level).len() == 3,
        analog_message(pin, level)[0] as int == 0xE0 + pin,
        analog_message(pin, level)[1] < 128,
        analog_message(pin, level)[2] < 128,
        analog_message(pin, level)[1] + 128 * analog_message(pin, level)[2] == level,
{
    let p = pin as u8;
    assert(p < 16 ==> (0xE0u8 | p) == 0xE0 + p) by (bit_vector);
}

/// A digital write names the port in its first byte's low nibble and carries
/// the port's bits as two seven-bit bytes, low first.
pub proof fn law_digital_message_fields(port: int, value: int)
    requires
        0 <= port < 16,
        0 <= value < 16384,
    ensures
        digital_message(port, value).len() == 3,
        digital_message(port, value)[0] as int == 0x90 + port,
        digital_message(port, value)[1] < 128,
        digital_message(port, value)[2] < 128,
        digital_message(port, value)[1] + 128 * digital_message(port, value)[2] == value,
{
    let p = port as u8;
    assert(p < 16 ==> (0x90u8 | p) == 0x90 + p) by (bit_vector);
}

/// The settings messages are sysex messages that carry the setting and, for a
/// write, the value.
pub proof fn law_settings_message_fields(config: u8, value: u8)
    ensures
        settings_get_message(config).len() == 4,
        settings_get_message(config)[0] == START_SYSEX,
        settings_get_message(config)[1] == 0x00,
        settings_get_message(config)[2] == config,
        settings_get_message(config)[3] == END_SYSEX,
        settings_set_message(config, value).len() == 5,
        settings_set_message(config, value)[0] == START_SYSEX,
        settings_set_message(config, value)[1] == 0x01,
        settings_set_message(config, value)[2] == config,
        settings_set_message(config, value)[3] == value,
        settings_set_message(config, value)[4] == END_SYSEX,
{
}

/// An I2C read request names the device, the read mode, and the byte count as
/// two seven-bit bytes, low first.
pub proof fn law_i2c_read_message_fields(address: i32, size: i32)
    requires
        0 <= address < 256,
        0 <= size < 16384,
    ensures
        i2c_read_message(address, size).len() == 7,
        i2c_read_message(address, size)[0] == START_SYSEX,
        i2c_read_message(address, size)[1] == 0x76,
        i2c_read_message(address, size)[2] as int == address,
        i2c_read_message(address, size)[3] == 0x08,
        i2c_read_message(address, size)[4] + 128 * i2c_read_message(address, size)[5] == size,
        i2c_read_message(address, size)[6] == END_SYSEX,
{
}

/// The I2C delay is sent as two eight-bit bytes, low first.
pub proof fn law_i2c_config_message_fields(delay: i32)
    requires
        0 <= delay < 65536,
    ensures
        i2c_config_message(delay).len() == 5,
        i2c_config_message(delay)[1] == 0x78,
        i2c_config_message(delay)[2] + 256 * i2c_config_message(delay)[3] == delay,
{
}

/// An I2C write names the device and the write mode, and carries each data
/// byte as two seven-bit bytes, low first, in order.
pub proof fn law_i2c_write_message_fields(address: i32, data: Seq<u8>)
    requires
        0 <= address < 256,
    ensures
        i2c_write_message(address, data).len() == 5 + 2 * data.len(),
        i2c_write_message(address, data)[0] == START_SYSEX,
        i2c_write_message(address, data)[1] == 0x76,
        i2c_write_message(address, data)[2] as int == address,
        i2c_write_message(address, data)[3] == 0x00,
        forall|k: int|
            0 <= k < data.len() ==> {
                &&& #[trigger] i2c_write_message(address, data)[4 + 2 * k] < 128
                &&& i2c_write_message(address, data)[5 + 2 * k] < 128
                &&& i2c_write_message(address, data)[4 + 2 * k] + 128 * i2c_write_message(
                    address,
                    data,
                )[5 + 2 * k] == data[k]
            },
        i2c_write_message(address, data)[4 + 2 * data.len() as int] == END_SYSEX,
{
    let m = i2c_write_message(address, data);
    assert forall|k: int| 0 <= k < data.len() implies {
        &&& #[trigger] m[4 + 2 * k] < 128
        &&& m[5 + 2 * k] < 128
        &&& m[4 + 2 * k] + 128 * m[5 + 2 * k] == data[k]
    } by {
        assert((4 + 2 * k - 4) % 2 == 0 && (4 + 2 * k - 4) / 2 == k);
        assert((5 + 2 * k - 4) % 2 == 1 && (5 + 2 * k - 4) / 2 == k);
    }
}

/// A three-byte report whose first byte starts a message of kind `id` (or
/// any kind where `id` is zero) is a message the reader hands out whole.
proof fn lemma_three_byte_frame(m: Seq<u8>, id: u8)
    requires
        m.len() == 3,
        starts_frame(m[0], id),
        m[0] != 0x03,
        m[0] != START_SYSEX,
    ensures
        is_frame(m, id),
{
    assert(!frame_complete(m.take(1)));
    assert(!frame_complete(m.take(2)));
    assert(no_complete_prefix(m));
}

/// The analog and digital writes for any channel or port are messages that a
/// reader waiting for any kind, or for their own kind, hands out whole.
pub proof fn law_pin_reports_are_frames(pin: i32, level: i32, port: int, value: int)
    requires
        0 <= pin < 16,
        0 <= port < 16,
    ensures
        is_frame(analog_message(pin, level), 0),
        is_frame(analog_message(pin, level), analog_message(pin, level)[0]),
        is_frame(digital_message(port, value), 0),
        is_frame(digital_message(port, value), digital_message(port, value)[0]),
{
    let p = pin as u8;
    let q = port as u8;
    assert(p < 16 ==> (0xE0u8 | p) == 0xE0 + p) by (bit_vector);
    assert(q < 16 ==> (0x90u8 | q) == 0x90 + q) by (bit_vector);
    let a = analog_message(pin, level);
    let d = digital_message(port, value);
    lemma_three_byte_frame(a, 0);
    lemma_three_byte_frame(a, a[0]);
    lemma_three_byte_frame(d, 0);
    lemma_three_byte_frame(d, d[0]);
}

/// A settings response whose setting and value are not the end-of-sysex byte
/// is a message a reader waiting for any kind hands out whole.
pub proof fn law_settings_response_is_frame(config: u8, value: u8)
    requires
        config != END_SYSEX,
        value != END_SYSEX,
    ensures
        is_frame(seq![START_SYSEX, CC_RESPONSE, config, value, END_SYSEX], 0),
{
    let m = seq![START_SYSEX, CC_RESPONSE, config, value, END_SYSEX];
    assert(m.take(4).last() == value);
    assert(!frame_complete(m.take(1)));
    assert(!frame_complete(m.take(2)));
    assert(!frame_complete(m.take(3)));
    assert(!frame_complete(m.take(4)));
    assert(no_complete_prefix(m));
}

/// A settings response records the reported value for its setting and
/// changes nothing else: every other setting, the pins, the I2C replies and
/// the reported names and versions stay as they were.
pub proof fn law_settings_response_effect(b: BoardView, buf: Seq<u8>)
    requires
        buf.len() >= 4,
        buf[0] == START_SYSEX,
        buf[1] == CC_RESPONSE,
    ensures
        decodable(b, buf),
        decode_outcome(b, buf) matches Ok(after) && {
            &&& lookup(after.cc_settings, buf[2]) == Some(buf[3])
            &&& forall|other: u8|
                other != buf[2] ==> #[trigger] lookup(after.cc_settings, other) == lookup(
                    b.cc_settings,
                    other,
                )
            &&& after.pins == b.pins
            &&& after.i2c_data == b.i2c_data
            &&& after.protocol_version == b.protocol_version
            &&& after.firmware_name == b.firmware_name
            &&& after.firmware_version == b.firmware_version
        },
{
}

/// A value below 2^14 whose low byte has its top bit clear is put back
/// together as `lo + 128 * hi`.
proof fn lemma_join7_value(lo: u8, hi: u8)
    requires
        lo < 128,
    ensures
        (lo as i32) | ((hi as i32) << 7) == lo + 128 * hi,
{
    assert(lo < 128 ==> (lo as i32) | ((hi as i32) << 7) == lo + 128 * hi) by (bit_vector);
}

/// An analog report changes at most the value of pin `14 + channel`: every
/// other pin, every other field of that pin, and the rest of the board stay
/// as they were. Where the pin exists, its value is the reported level.
pub proof fn law_analog_report_effect(b: BoardView, buf: Seq<u8>)
    requires
        buf.len() >= 3,
        0xE0 <= buf[0] <= 0xEF,
        b.pins.len() < 0x8000_0000,
    ensures
        decodable(b, buf),
        decode_outcome(b, buf) matches Ok(after) && {
            let pin = buf[0] - 0xE0 + 14;
            &&& after.pins.len() == b.pins.len()
            &&& forall|j: int| 0 <= j < b.pins.len() && j != pin ==> #[trigger] after.pins[j] == b.pins[j]
            &&& 0 <= pin < b.pins.len() ==> {
                &&& after.pins[pin].modes == b.pins[pin].modes
                &&& after.pins[pin].analog == b.pins[pin].analog
                &&& after.pins[pin].mode == b.pins[pin].mode
                &&& buf[1] < 128 ==> after.pins[pin].value == buf[1] + 128 * buf[2]
            }
            &&& after.cc_settings == b.cc_settings
            &&& after.i2c_data == b.i2c_data
            &&& after.protocol_version == b.protocol_version
            &&& after.firmware_name == b.firmware_name
            &&& after.firmware_version == b.firmware_version
        },
{
    if buf[1] < 128 {
        lemma_join7_value(buf[1], buf[2]);
    }
    let b0 = buf[0];
    assert(0xE0 <= b0 <= 0xEF ==> b0 % 16 == b0 - 0xE0) by (bit_vector);
    let len = b.pins.len();
    assert((len as i32) as int == len);
}

/// Bit `k` (below 7) of a digital report's value is bit `k` of its first data
/// byte; bit 7 is set where the first data byte's top bit or the second data
/// byte's low bit is.
proof fn lemma_digital_bits(lo: u8, hi: u8, k: i32)
    requires
        0 <= k < 8,
    ensures
        (((lo as i32) | ((hi as i32) << 7)) >> k) & 1 == if k < 7 {
            ((lo as int) / (pow2(k as nat) as int)) % 2
        } else {
            if lo >= 128 || hi % 2 == 1 {
                1int
            } else {
                0
            }
        },
{
    lemma2_to64();
    let v = (lo as i32) | ((hi as i32) << 7);
    assert({
        &&& (v >> 0i32) & 1 == (lo % 2) as i32
        &&& (v >> 1i32) & 1 == ((lo / 2) % 2) as i32
        &&& (v >> 2i32) & 1 == ((lo / 4) % 2) as i32
        &&& (v >> 3i32) & 1 == ((lo / 8) % 2) as i32
        &&& (v >> 4i32) & 1 == ((lo / 16) % 2) as i32
        &&& (v >> 5i32) & 1 == ((lo / 32) % 2) as i32
        &&& (v >> 6i32) & 1 == ((lo / 64) % 2) as i32
        &&& (v >> 7i32) & 1 == (if lo >= 128 || hi % 2 == 1 {
            1i32
        } else {
            0i32
        })
    }) by (bit_vector)
        requires
            v == (lo as i32) | ((hi as i32) << 7),
    ;
    let goal = if k < 7 {
        ((lo as int) / (pow2(k as nat) as int)) % 2
    } else {
        if lo >= 128 || hi % 2 == 1 {
            1int
        } else {
            0
        }
    };
    if k == 0 {
        assert((v >> k) & 1 == (lo % 2) as i32);
        assert(goal == ((lo as int) / 1) % 2);
        assert((lo as int) / 1 == lo as int);
        assert(((v >> k) & 1) as int == goal);
    } else if k == 1 {
        assert(((v >> k) & 1) as int == goal);
    } else if k == 2 {
        assert(((v >> k) & 1) as int == goal);
    } else if k == 3 {
        assert(((v >> k) & 1) as int == goal);
    } else if k == 4 {
        assert(((v >> k) & 1) as int == goal);
    } else if k == 5 {
        assert(((v >> k) & 1) as int == goal);
    } else if k == 6 {
        assert(((v >> k) & 1) as int == goal);
    } else {
        assert(((v >> k) & 1) as int == goal);
    }
    assert(((v >> k) & 1) as int == goal);
}

/// A digital report for port `p` (its first byte less 0x90) changes only the
/// values of the port's pins (`8 * p` to `8 * p + 7`) that are in input mode:
/// every pin in another mode or outside the port, every pin's modes, analog
/// flag and mode, and the rest of the board stay as they were. Each input pin
/// of the port that exists takes its bit of the report: bit `k` (below 7) of
/// the first data byte, and for the last pin the top bit of the first data
/// byte or the low bit of the second.
pub proof fn law_digital_report_effect(b: BoardView, buf: Seq<u8>)
    requires
        buf.len() >= 3,
        0x90 <= buf[0] <= 0x9F,
        b.pins.len() < 0x8000_0000,
    ensures
        decodable(b, buf),
        decode_outcome(b, buf) matches Ok(after) && {
            let port = buf[0] - 0x90;
            &&& after.pins.len() == b.pins.len()
            &&& forall|j: int|
                0 <= j < b.pins.len() && (b.pins[j].mode != INPUT || j < 8 * port || j >= 8 * port
                    + 8) ==> #[trigger] after.pins[j] == b.pins[j]
            &&& forall|j: int|
                0 <= j < b.pins.len() ==> {
                    &&& (#[trigger] after.pins[j]).modes == b.pins[j].modes
                    &&& after.pins[j].analog == b.pins[j].analog
                    &&& after.pins[j].mode == b.pins[j].mode
                }
            &&& forall|j: int|
                0 <= j < b.pins.len() && 8 * port <= j < 8 * port + 8 && b.pins[j].mode == INPUT
                    ==> #[trigger] after.pins[j].value == if j - 8 * port < 7 {
                    ((buf[1] as int) / (pow2((j - 8 * port) as nat) as int)) % 2
                } else {
                    if buf[1] >= 128 || buf[2] % 2 == 1 {
                        1int
                    } else {
                        0
                    }
                }
            &&& after.cc_settings == b.cc_settings
            &&& after.i2c_data == b.i2c_data
            &&& after.protocol_version == b.protocol_version
            &&& after.firmware_name == b.firmware_name
            &&& after.firmware_version == b.firmware_version
        },
{
    let b0 = buf[0];
    assert(0x90 <= b0 <= 0x9F ==> b0 % 16 == b0 - 0x90) by (bit_vector);
    let len = b.pins.len();
    assert((len as i32) as int == len);
    let port = buf[0] - 0x90;
    let after = decode_outcome(b, buf)->Ok_0;
    assert forall|j: int|
        0 <= j < b.pins.len() && 8 * port <= j < 8 * port + 8 && b.pins[j].mode == INPUT
            implies #[trigger] after.pins[j].value == if j - 8 * port < 7 {
            ((buf[1] as int) / (pow2((j - 8 * port) as nat) as int)) % 2
        } else {
            if buf[1] >= 128 || buf[2] % 2 == 1 {
                1int
            } else {
                0
            }
        } by {
        lemma_digital_bits(buf[1], buf[2], (j - 8 * port) as i32);
    }
}

/// The number an octal numeral writes, read digit by digit.
pub open spec fn octal_value(s: Seq<char>) -> int
    decreases s.len(),
{
    if s.len() == 0 {
        0
    } else {
        8 * octal_value(s.drop_last()) + (s.last() as int - 48)
    }
}

/// The octal numeral of a number has only the digits `0` to `7`, starts with
/// `0` only for zero, and reads back as the number.
pub proof fn law_octal_reads_back(n: nat)
    ensures
        octal(n).len() >= 1,
        forall|i: int| 0 <= i < octal(n).len() ==> '0' <= #[trigger] octal(n)[i] <= '7',
        octal(n)[0] == '0' ==> n == 0,
        octal_value(octal(n)) == n,
    decreases n,
{
    let s = octal(n);
    if n >= 8 {
        law_octal_reads_back(n / 8);
        assert(s.drop_last() =~= octal(n / 8));
        assert(forall|i: int| 0 <= i < s.len() - 1 ==> s[i] == octal(n / 8)[i]);
        assert(s[0] == octal(n / 8)[0]);
        assert(s.last() as int == 48 + n % 8);
    } else {
        assert(s.drop_last() =~= Seq::<char>::empty());
        assert(octal_value(Seq::<char>::empty()) == 0);
        assert(s.last() as int == 48 + n);
    }
}

/// The shapes of the messages the reader hands out: a CC event is five bytes,
/// a sysex message ends at the first end-of-sysex byte after its first three,
/// and every other message is three bytes.
pub proof fn law_frame_shapes(f: Seq<u8>, message_id: u8)
    requires
        is_frame(f, message_id),
    ensures
        f[0] == 0x03 ==> f.len() == 5,
        f[0] == START_SYSEX ==> {
            &&& f.len() >= 4
            &&& f[f.len() - 1] == END_SYSEX
            &&& forall|i: int| 3 <= i < f.len() - 1 ==> #[trigger] f[i] != END_SYSEX
        },
        f[0] != 0x03 && f[0] != START_SYSEX ==> f.len() == 3,
{
    if f[0] == START_SYSEX {
        assert forall|i: int| 3 <= i < f.len() - 1 implies #[trigger] f[i] != END_SYSEX by {
            assert(!frame_complete(f.take(i + 1)));
            assert(f.take(i + 1).last() == f[i]);
        }
    }
}

/// A protocol version report sets the protocol version to its two bytes in
/// octal, joined by a dot, and changes nothing else.
pub proof fn law_protocol_version_effect(b: BoardView, buf: Seq<u8>)
    requires
        buf.len() >= 3,
        buf[0] == 0xF9,
    ensures
        decodable(b, buf),
        decode_outcome(b, buf) matches Ok(after) && {
            &&& after.protocol_version == octal(buf[1] as nat) + seq!['.'] + octal(buf[2] as nat)
            &&& after.pins == b.pins
            &&& after.i2c_data == b.i2c_data
            &&& after.cc_settings == b.cc_settings
            &&& after.firmware_name == b.firmware_name
            &&& after.firmware_version == b.firmware_version
        },
{
}

/// A firmware report sets the firmware version to its two version bytes in
/// octal, joined by a dot, and the firmware name to the UTF-8 text between
/// them and the last byte, and changes nothing else.
pub proof fn law_firmware_report_effect(b: BoardView, buf: Seq<u8>)
    requires
        buf.len() >= 5,
        buf[0] == START_SYSEX,
        buf[1] == 0x79,
        valid_utf8(buf.subrange(4, buf.len() - 1)),
    ensures
        decodable(b, buf),
        decode_outcome(b, buf) matches Ok(after) && {
            &&& after.firmware_version == octal(buf[2] as nat) + seq!['.'] + octal(buf[3] as nat)
            &&& after.firmware_name == decode_utf8(buf.subrange(4, buf.len() - 1))
            &&& after.pins == b.pins
            &&& after.i2c_data == b.i2c_data
            &&& after.cc_settings == b.cc_settings
            &&& after.protocol_version == b.protocol_version
        },
{
}

/// An analog mapping response, on a board that has pins, marks analog every
/// pin whose entry is not the separator, keeps the flag of every other pin,
/// and changes nothing else; on a board without pins it changes nothing.
pub proof fn law_analog_mapping_effect(b: BoardView, buf: Seq<u8>)
    requires
        buf.len() >= 2,
        buf[0] == START_SYSEX,
        buf[1] == 0x6A,
        decodable(b, buf),
    ensures
        decode_outcome(b, buf) matches Ok(after) && {
            &&& after.pins.len() == b.pins.len()
            &&& forall|j: int|
                0 <= j < b.pins.len() ==> {
                    &&& (#[trigger] after.pins[j]).analog == (b.pins[j].analog || (j + 3 < buf.len()
                        && buf[j + 2] != 127))
                    &&& after.pins[j].modes == b.pins[j].modes
                    &&& after.pins[j].value == b.pins[j].value
                    &&& after.pins[j].mode == b.pins[j].mode
                }
            &&& after.i2c_data == b.i2c_data
            &&& after.cc_settings == b.cc_settings
            &&& after.protocol_version == b.protocol_version
            &&& after.firmware_name == b.firmware_name
            &&& after.firmware_version == b.firmware_version
        },
{
}

/// An I2C reply adds exactly one reply after those already received and
/// changes nothing else.
pub proof fn law_i2c_reply_effect(b: BoardView, buf: Seq<u8>)
    requires
        buf.len() >= 8,
        buf[0] == START_SYSEX,
        buf[1] == 0x77,
    ensures
        decodable(b, buf),
        decode_outcome(b, buf) matches Ok(after) && {
            &&& after.i2c_data.len() == b.i2c_data.len() + 1
            &&& after.i2c_data.take(b.i2c_data.len() as int) == b.i2c_data
            &&& after.pins == b.pins
            &&& after.cc_settings == b.cc_settings
            &&& after.protocol_version == b.protocol_version
            &&& after.firmware_name == b.firmware_name
            &&& after.firmware_version == b.firmware_version
        },
{
    let after = decode_outcome(b, buf)->Ok_0;
    assert(after.i2c_data.take(b.i2c_data.len() as int) =~= b.i2c_data);
}

} // verus!
