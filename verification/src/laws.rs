//! Properties that span several operations of the library.
use crate::board::{BoardView, I2CReplyView};
use crate::constants::{CC_RESPONSE, END_SYSEX, I2C_REPLY, INPUT, START_SYSEX};
use crate::decode::{
    bit, decodable, decode_outcome, i2c_bytes, i2c_reply_of, is_analog_message,
    is_digital_message, join7, join7_byte, reaches, FirmataError,
};
use crate::frame::{feed, frame_complete, is_frame, starts_frame, step};
use crate::messages::{analog_message, digital_message, high7, low7, port_bits, split7};
use crate::settings::lookup;
use vstd::arithmetic::power2::lemma2_to64;
use vstd::prelude::*;

verus! {

/// Reading a setting gives the value last recorded for it; recording one
/// setting leaves the others as they were.
pub proof fn law_settings_read_after_write(m: Map<u8, u8>, config: u8, value: u8, other: u8)
    ensures
        lookup(m.insert(config, value), config) == Some(value),
        other != config ==> lookup(m.insert(config, value), other) == lookup(m, other),
{
}

/// A settings response from the device is recorded: afterwards the setting
/// reads as the reported value.
pub proof fn law_settings_response_recorded(b: BoardView, config: u8, value: u8)
    ensures
        decodable(b, seq![START_SYSEX, CC_RESPONSE, config, value, END_SYSEX]),
        decode_outcome(b, seq![START_SYSEX, CC_RESPONSE, config, value, END_SYSEX]) matches Ok(after)
            && lookup(after.cc_settings, config) == Some(value),
{
}

/// A value below 2^14 sent as two seven-bit bytes is read back unchanged.
pub proof fn law_seven_bit_roundtrip(x: i32)
    requires
        0 <= x < 16384,
    ensures
        join7(low7(x as int), high7(x as int)) == x,
        low7(x as int) < 128,
        high7(x as int) < 128,
{
    assert(0 <= x < 16384 ==> (((x % 128) as u8) as i32) | ((((x / 128) % 128) as u8) as i32) << 7
        == x) by (bit_vector);
}

/// A byte sent as two seven-bit bytes is read back unchanged.
pub proof fn law_seven_bit_byte_roundtrip(d: u8)
    ensures
        join7_byte(d % 128, d / 128) == d,
        d % 128 < 128,
        d / 128 < 128,
{
    assert((d % 128) | (((d / 128) << 7) as u8) == d) by (bit_vector);
}

/// The data bytes that analog, digital and I2C write messages carry have the
/// top bit clear, so none of them can be taken for the first byte of a message.
pub proof fn law_data_bytes_are_seven_bit(pin: i32, level: i32, port: int, value: int, data: Seq<u8>)
    ensures
        analog_message(pin, level)[1] < 128 && analog_message(pin, level)[2] < 128,
        digital_message(port, value)[1] < 128 && digital_message(port, value)[2] < 128,
        forall|k: int| 0 <= k < split7(data).len() ==> #[trigger] split7(data)[k] < 128,
{
}

/// What an analog write sends, when the board reports it back on the same
/// channel, sets the value of the channel's pin (pin `14 + channel`) to the
/// level written, for the sixteen channels and levels that fit in fourteen bits.
pub proof fn law_analog_roundtrip(b: BoardView, pin: i32, level: i32)
    requires
        0 <= pin < 16,
        0 <= level < 16384,
    ensures
        decodable(b, analog_message(pin, level)),
        decode_outcome(b, analog_message(pin, level)) == Ok::<BoardView, FirmataError>(
            if reaches(b, (pin as u8) % 16 + 14) {
                b.with_pin_value((pin as u8) % 16 + 14, level)
            } else {
                b
            },
        ),
{
    law_seven_bit_roundtrip(level);
    let p = pin as u8;
    assert(p < 16 ==> (0xE0u8 | p) % 16 == p % 16 && 0xE0 <= (0xE0u8 | p) <= 0xEF) by (bit_vector);
    let msg = analog_message(pin, level);
    assert(is_analog_message(msg[0]));
}

/// Unfolds the port bits of eight pin states into a sum of their flags.
proof fn lemma_port_bits_sum(s: Seq<i32>)
    requires
        s.len() == 8,
    ensures
        port_bits(s, 8) == (if s[0] != 0 { 1int } else { 0 }) + 2 * (if s[1] != 0 { 1int } else { 0 })
            + 4 * (if s[2] != 0 { 1int } else { 0 }) + 8 * (if s[3] != 0 { 1int } else { 0 }) + 16 * (
        if s[4] != 0 { 1int } else { 0 }) + 32 * (if s[5] != 0 { 1int } else { 0 }) + 64 * (if s[6]
            != 0 { 1int } else { 0 }) + 128 * (if s[7] != 0 { 1int } else { 0 }),
{
    lemma2_to64();
    reveal_with_fuel(port_bits, 9);
}

/// The flag of state `s`: one where it is nonzero.
pub open spec fn flag(s: i32) -> i32 {
    if s != 0 {
        1
    } else {
        0
    }
}

/// Bit `i` of a sum of eight flags weighted by powers of two is the `i`th flag.
proof fn lemma_bits_of_flags(s: Seq<i32>, v: i32)
    requires
        s.len() == 8,
        v == flag(s[0]) + 2 * flag(s[1]) + 4 * flag(s[2]) + 8 * flag(s[3]) + 16 * flag(s[4]) + 32
            * flag(s[5]) + 64 * flag(s[6]) + 128 * flag(s[7]),
    ensures
        0 <= v < 256,
        forall|i: int| 0 <= i < 8 ==> #[trigger] bit(v, i) == flag(s[i]),
{
    let b0 = flag(s[0]);
    let b1 = flag(s[1]);
    let b2 = flag(s[2]);
    let b3 = flag(s[3]);
    let b4 = flag(s[4]);
    let b5 = flag(s[5]);
    let b6 = flag(s[6]);
    let b7 = flag(s[7]);
    assert(0 <= b0 <= 1 && 0 <= b1 <= 1 && 0 <= b2 <= 1 && 0 <= b3 <= 1 && 0 <= b4 <= 1 && 0 <= b5
        <= 1 && 0 <= b6 <= 1 && 0 <= b7 <= 1 && v == b0 + 2 * b1 + 4 * b2 + 8 * b3 + 16 * b4 + 32
        * b5 + 64 * b6 + 128 * b7 ==> 0 <= v < 256 && (v >> 0i32) & 1 == b0 && (v >> 1i32) & 1
        == b1 && (v >> 2i32) & 1 == b2 && (v >> 3i32) & 1 == b3 && (v >> 4i32) & 1 == b4 && (v
        >> 5i32) & 1 == b5 && (v >> 6i32) & 1 == b6 && (v >> 7i32) & 1 == b7) by (bit_vector);
    assert forall|i: int| 0 <= i < 8 implies #[trigger] bit(v, i) == flag(s[i]) by {
        if i == 0 {
        } else if i == 1 {
        } else if i == 2 {
        } else if i == 3 {
        } else if i == 4 {
        } else if i == 5 {
        } else if i == 6 {
        } else {
        }
    }
}

/// What a digital write sends for a port, when the board reports it back,
/// sets each existing input pin of that port to one where the written state
/// of that pin was nonzero and to zero where it was zero.
pub proof fn law_digital_roundtrip(b: BoardView, port: int, states: Seq<i32>)
    requires
        0 <= port < 16,
        states.len() == 8,
    ensures
        decodable(b, digital_message(port, port_bits(states, 8))),
        decode_outcome(b, digital_message(port, port_bits(states, 8))) matches Ok(after) && {
            &&& after.pins.len() == b.pins.len()
            &&& forall|i: int|
                0 <= i < 8 && reaches(b, 8 * port + i) && b.pins[8 * port + i].mode == INPUT
                    ==> #[trigger] after.pins[8 * port + i].value == flag(states[i])
        },
{
    lemma_port_bits_sum(states);
    let v = port_bits(states, 8) as i32;
    lemma_bits_of_flags(states, v);
    law_seven_bit_roundtrip(v);
    let p = port as u8;
    assert(p < 16 ==> (0x90u8 | p) % 16 == p && 0x90 <= (0x90u8 | p) <= 0x9F) by (bit_vector);
    let msg = digital_message(port, port_bits(states, 8));
    assert(is_digital_message(msg[0]));
    assert(join7(msg[1], msg[2]) == v);
}

/// The reply an I2C device sends for `data` from `register` of the device at
/// `address`: each number as two seven-bit bytes, low first.
pub open spec fn i2c_reply_message(address: int, register: int, data: Seq<u8>) -> Seq<u8> {
    seq![START_SYSEX, I2C_REPLY, low7(address), high7(address), low7(register), high7(register)]
        + split7(data) + seq![END_SYSEX]
}

proof fn lemma_i2c_bytes_of_split(address: int, register: int, data: Seq<u8>, k: int)
    requires
        0 <= k <= data.len(),
    ensures
        i2c_bytes(i2c_reply_message(address, register, data), 6 + 2 * k) == data.subrange(
            k,
            data.len() as int,
        ),
    decreases data.len() - k,
{
    let msg = i2c_reply_message(address, register, data);
    if k == data.len() {
        assert(data.subrange(k, data.len() as int) =~= Seq::<u8>::empty());
    } else {
        lemma_i2c_bytes_of_split(address, register, data, k + 1);
        law_seven_bit_byte_roundtrip(data[k]);
        assert(msg[6 + 2 * k] == data[k] % 128);
        assert(msg[7 + 2 * k] == data[k] / 128);
        assert(data.subrange(k, data.len() as int) =~= seq![data[k]] + data.subrange(
            k + 1,
            data.len() as int,
        ));
    }
}

/// An I2C reply is read back as the address, register and data it was sent
/// for, for numbers that fit in fourteen bits and at least one data byte.
pub proof fn law_i2c_reply_roundtrip(b: BoardView, address: i32, register: i32, data: Seq<u8>)
    requires
        0 <= address < 16384,
        0 <= register < 16384,
        data.len() >= 1,
    ensures
        decodable(b, i2c_reply_message(address as int, register as int, data)),
        decode_outcome(b, i2c_reply_message(address as int, register as int, data)) == Ok::<
            BoardView,
            FirmataError,
        >(
            BoardView {
                i2c_data: b.i2c_data.push(I2CReplyView { address, register, data }),
                ..b
            },
        ),
{
    let msg = i2c_reply_message(address as int, register as int, data);
    law_seven_bit_roundtrip(address);
    law_seven_bit_roundtrip(register);
    law_seven_bit_byte_roundtrip(data[0]);
    lemma_i2c_bytes_of_split(address as int, register as int, data, 1);
    assert(i2c_bytes(msg, 8) == i2c_bytes(msg, 6 + 2 * 1int));
    assert(data =~= seq![data[0]] + data.subrange(1, data.len() as int));
    assert(i2c_reply_of(msg) =~= I2CReplyView { address, register, data });
}

/// The message reader hands out only messages of known kinds, and every one
/// that is not a sysex message can be applied to any board.
pub proof fn law_frames_are_decodable(b: BoardView, f: Seq<u8>, message_id: u8)
    requires
        is_frame(f, message_id),
    ensures
        decode_outcome(b, f) != Err::<BoardView, FirmataError>(FirmataError::BadByte),
        f[0] != START_SYSEX ==> decodable(b, f),
{
}

/// Feeding two runs of bytes one after the other is feeding the first and
/// then, from where that left the reader, the second.
pub proof fn law_feed_append(pending: Seq<u8>, message_id: u8, a: Seq<u8>, b: Seq<u8>)
    ensures
        feed(pending, message_id, a + b) == ({
            let (p1, out1) = feed(pending, message_id, a);
            let (p2, out2) = feed(p1, message_id, b);
            (p2, out1 + out2)
        }),
    decreases b.len(),
{
    let (p1, out1) = feed(pending, message_id, a);
    if b.len() == 0 {
        assert(a + b =~= a);
        assert(out1 + Seq::<Seq<u8>>::empty() =~= out1);
    } else {
        law_feed_append(pending, message_id, a, b.drop_last());
        assert((a + b).drop_last() =~= a + b.drop_last());
        assert((a + b).last() == b.last());
        let (p2, out2) = feed(p1, message_id, b.drop_last());
        let (q, o) = step(p2, message_id, b.last());
        match o {
            Some(f) => {
                assert((out1 + out2).push(f) =~= out1 + out2.push(f));
            },
            None => {},
        }
    }
}

proof fn lemma_frame_prefixes(f: Seq<u8>, message_id: u8, k: int)
    requires
        is_frame(f, message_id),
        1 <= k <= f.len(),
    ensures
        feed(Seq::empty(), message_id, f.take(k)) == (if k < f.len() {
            (f.take(k), Seq::<Seq<u8>>::empty())
        } else {
            (Seq::<u8>::empty(), seq![f])
        }),
    decreases k,
{
    assert(f.take(k).drop_last() =~= f.take(k - 1));
    assert(f.take(k).last() == f[k - 1]);
    if k == 1 {
        assert(f.take(0) =~= Seq::<u8>::empty());
        assert(Seq::<u8>::empty().push(f[0]) =~= f.take(1));
        assert(!frame_complete(f.take(1)));
    } else {
        lemma_frame_prefixes(f, message_id, k - 1);
        assert(f.take(k - 1).push(f[k - 1]) =~= f.take(k));
        if k < f.len() {
            assert(!frame_complete(f.take(k)));
        } else {
            assert(f.take(k) =~= f);
            assert(Seq::<Seq<u8>>::empty().push(f) =~= seq![f]);
        }
    }
}

/// A message the reader would hand out, arriving while it scans, is handed
/// out whole at its last byte, and the reader then goes on with the bytes
/// after it as from the start.
pub proof fn law_frame_delivered_whole(f: Seq<u8>, rest: Seq<u8>, message_id: u8)
    requires
        is_frame(f, message_id),
    ensures
        feed(Seq::empty(), message_id, f) == (Seq::<u8>::empty(), seq![f]),
        feed(Seq::empty(), message_id, f + rest) == ({
            let (p, out) = feed(Seq::empty(), message_id, rest);
            (p, seq![f] + out)
        }),
{
    lemma_frame_prefixes(f, message_id, f.len() as int);
    assert(f.take(f.len() as int) =~= f);
    law_feed_append(Seq::empty(), message_id, f, rest);
}

/// No byte of `bytes` starts a message of kind `message_id`.
pub open spec fn starts_nothing(bytes: Seq<u8>, message_id: u8) -> bool {
    forall|i: int| 0 <= i < bytes.len() ==> !starts_frame(#[trigger] bytes[i], message_id)
}

/// Bytes that start no awaited message, received while the reader scans,
/// leave it scanning and hand out nothing.
pub proof fn law_junk_is_skipped(junk: Seq<u8>, message_id: u8)
    requires
        starts_nothing(junk, message_id),
    ensures
        feed(Seq::empty(), message_id, junk) == (Seq::<u8>::empty(), Seq::<Seq<u8>>::empty()),
    decreases junk.len(),
{
    if junk.len() > 0 {
        let rest = junk.drop_last();
        assert(starts_nothing(rest, message_id)) by {
            assert forall|i: int| 0 <= i < rest.len() implies !starts_frame(
                #[trigger] rest[i],
                message_id,
            ) by {
                assert(rest[i] == junk[i]);
            }
        }
        law_junk_is_skipped(rest, message_id);
        assert(!starts_frame(junk[junk.len() - 1], message_id));
    }
}

/// Skipped bytes, then a message, then more bytes: the reader hands out that
/// message whole first and goes on with the bytes after it as from the start.
pub proof fn law_junk_then_frame(junk: Seq<u8>, f: Seq<u8>, rest: Seq<u8>, message_id: u8)
    requires
        starts_nothing(junk, message_id),
        is_frame(f, message_id),
    ensures
        feed(Seq::empty(), message_id, junk + f + rest) == ({
            let (p, out) = feed(Seq::empty(), message_id, rest);
            (p, seq![f] + out)
        }),
{
    law_junk_is_skipped(junk, message_id);
    law_feed_append(Seq::empty(), message_id, junk, f + rest);
    law_frame_delivered_whole(f, rest, message_id);
    assert(junk + f + rest =~= junk + (f + rest));
    let (p, out) = feed(Seq::empty(), message_id, rest);
    assert(Seq::<Seq<u8>>::empty() + (seq![f] + out) =~= seq![f] + out);
}

} // verus!
