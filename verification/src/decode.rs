//! What a received message does to the state of a board.
use crate::board::{blank_pin, Board, BoardView, I2CReply, I2CReplyView, Mode, Pin, PinView};
use crate::constants::{
    ANALOG_MAPPING_RESPONSE, CAPABILITY_RESPONSE, CC_EVENT, CC_RESPONSE, END_SYSEX, I2C_REPLY,
    INPUT, PIN_SEPARATOR, PROTOCOL_VERSION, REPORT_FIRMWARE, START_SYSEX,
};
use crate::text::{format_octal_pair, octal_pair, string_from_utf8};
use vstd::prelude::*;
use vstd::utf8::{decode_utf8, valid_utf8};

verus! {

/// Why a received message was refused.
#[derive(Debug, Clone, Copy, PartialEq, Eq)]
pub enum FirmataError {
    /// A sysex message whose command this client does not know.
    UnknownSysexCode,
    /// A message whose first byte starts no message this client knows.
    BadByte,
}

/// A first byte that carries an analog pin value.
pub open spec fn is_analog_message(b: u8) -> bool {
    0xE0 <= b <= 0xEF
}

/// A first byte that carries the states of a digital port.
pub open spec fn is_digital_message(b: u8) -> bool {
    0x90 <= b <= 0x9F
}

/// A value sent as two seven-bit bytes, put back together.
pub open spec fn join7(lo: u8, hi: u8) -> i32 {
    (lo as i32) | ((hi as i32) << 7)
}

/// A byte sent as two seven-bit bytes, put back together.
pub open spec fn join7_byte(lo: u8, hi: u8) -> u8 {
    lo | ((hi << 7) as u8)
}

/// Bit `k` of `v`.
pub open spec fn bit(v: i32, k: int) -> i32 {
    (v >> (k as i32)) & 1
}

/// Whether the board's pin list reaches index `pin`, compared as the client
/// compares it: the pin count taken as an `i32`.
pub open spec fn reaches(b: BoardView, pin: int) -> bool {
    (b.pins.len() as i32) > pin
}

/// An analog message sets the value of pin `14 + channel`, where that pin exists.
pub open spec fn analog_update(b: BoardView, buf: Seq<u8>) -> BoardView {
    let pin = (buf[0] % 16) + 14;
    if reaches(b, pin) {
        b.with_pin_value(pin, join7(buf[1], buf[2]))
    } else {
        b
    }
}

/// A digital message sets each existing input pin of its port to its bit.
pub open spec fn digital_update(b: BoardView, buf: Seq<u8>) -> BoardView {
    let port = (buf[0] % 16) as int;
    let value = join7(buf[1], buf[2]);
    BoardView {
        pins: Seq::new(
            b.pins.len(),
            |j: int|
                if 8 * port <= j < 8 * port + 8 && reaches(b, j) && b.pins[j].mode == INPUT {
                    PinView { value: bit(value, j - 8 * port), ..b.pins[j] }
                } else {
                    b.pins[j]
                },
        ),
        ..b
    }
}

/// An analog mapping response marks pin `i` analog for each entry `i` that is
/// not the separator, where the board already has pins.
pub open spec fn analog_mapping_update(b: BoardView, buf: Seq<u8>) -> BoardView {
    if b.pins.len() > 0 {
        BoardView {
            pins: Seq::new(
                b.pins.len(),
                |j: int|
                    if j + 2 < buf.len() - 1 && buf[j + 2] != PIN_SEPARATOR {
                        PinView { analog: true, ..b.pins[j] }
                    } else {
                        b.pins[j]
                    },
            ),
            ..b
        }
    } else {
        b
    }
}

/// The modes of the pins that a capability response lists from index `i` on,
/// up to its last byte: a separator ends a pin, any other byte and the one
/// after it are a mode and its resolution.
pub open spec fn capability_modes(buf: Seq<u8>, i: int) -> Seq<Seq<Mode>>
    decreases buf.len() - i,
{
    if i >= buf.len() - 1 {
        seq![Seq::empty()]
    } else if buf[i] == PIN_SEPARATOR {
        seq![Seq::<Mode>::empty()] + capability_modes(buf, i + 1)
    } else {
        let rest = capability_modes(buf, i + 2);
        rest.update(0, seq![Mode { mode: buf[i], resolution: buf[i + 1] }] + rest[0])
    }
}

/// A pin with the given modes that nothing else is known of.
pub open spec fn pin_with_modes(modes: Seq<Mode>) -> PinView {
    PinView { modes: modes, ..blank_pin() }
}

/// The pins a capability response describes.
pub open spec fn capability_pins(buf: Seq<u8>) -> Seq<PinView> {
    capability_modes(buf, 2).map_values(|m: Seq<Mode>| pin_with_modes(m))
}

/// The data bytes of an I2C reply from index `i` on, two seven-bit bytes each.
pub open spec fn i2c_bytes(buf: Seq<u8>, i: int) -> Seq<u8>
    decreases buf.len() - i,
{
    if i >= buf.len() - 1 || buf[i] == END_SYSEX || i + 2 > buf.len() {
        Seq::empty()
    } else {
        seq![join7_byte(buf[i], buf[i + 1])] + i2c_bytes(buf, i + 2)
    }
}

/// The I2C reply that an I2C reply message carries.
pub open spec fn i2c_reply_of(buf: Seq<u8>) -> I2CReplyView {
    I2CReplyView {
        address: join7(buf[2], buf[3]),
        register: join7(buf[4], buf[5]),
        data: seq![join7_byte(buf[6], buf[7])] + i2c_bytes(buf, 8),
    }
}

/// The firmware name that a firmware report carries.
pub open spec fn firmware_name_of(buf: Seq<u8>) -> Seq<char> {
    decode_utf8(buf.subrange(4, buf.len() - 1))
}

/// What a sysex message does to the board.
pub open spec fn sysex_outcome(b: BoardView, buf: Seq<u8>) -> Result<BoardView, FirmataError> {
    if buf[1] == CC_RESPONSE {
        Ok(BoardView { cc_settings: b.cc_settings.insert(buf[2], buf[3]), ..b })
    } else if buf[1] == ANALOG_MAPPING_RESPONSE {
        Ok(analog_mapping_update(b, buf))
    } else if buf[1] == CAPABILITY_RESPONSE {
        Ok(BoardView { pins: capability_pins(buf), ..b })
    } else if buf[1] == REPORT_FIRMWARE {
        Ok(
            BoardView {
                firmware_version: octal_pair(buf[2], buf[3]),
                firmware_name: firmware_name_of(buf),
                ..b
            },
        )
    } else if buf[1] == I2C_REPLY {
        Ok(BoardView { i2c_data: b.i2c_data.push(i2c_reply_of(buf)), ..b })
    } else {
        Err(FirmataError::UnknownSysexCode)
    }
}

/// What the complete message `buf` does to the board `b`: the board after
/// it, or why it is refused.
pub open spec fn decode_outcome(b: BoardView, buf: Seq<u8>) -> Result<BoardView, FirmataError> {
    if buf[0] == PROTOCOL_VERSION {
        Ok(BoardView { protocol_version: octal_pair(buf[1], buf[2]), ..b })
    } else if is_analog_message(buf[0]) {
        Ok(analog_update(b, buf))
    } else if is_digital_message(buf[0]) {
        Ok(digital_update(b, buf))
    } else if buf[0] == CC_EVENT {
        Ok(b)
    } else if buf[0] == START_SYSEX {
        sysex_outcome(b, buf)
    } else {
        Err(FirmataError::BadByte)
    }
}

/// Every entry of an analog mapping response that is not the separator names
/// a pin the board has.
pub open spec fn analog_mapping_fits(b: BoardView, buf: Seq<u8>) -> bool {
    b.pins.len() > 0 ==> forall|i: int|
        2 <= i < buf.len() - 1 && buf[i] != PIN_SEPARATOR ==> i - 2 < b.pins.len()
}

/// The sysex messages that can be applied to the board `b`.
pub open spec fn sysex_decodable(b: BoardView, buf: Seq<u8>) -> bool {
    &&& buf.len() >= 2
    &&& buf[1] == CC_RESPONSE ==> buf.len() >= 4
    &&& buf[1] == ANALOG_MAPPING_RESPONSE ==> analog_mapping_fits(b, buf)
    &&& buf[1] == REPORT_FIRMWARE ==> buf.len() >= 5 && valid_utf8(buf.subrange(4, buf.len() - 1))
    &&& buf[1] == I2C_REPLY ==> buf.len() >= 8
}

/// The messages that can be applied to the board `b`: long enough for the
/// fields their kind reads, naming only pins the board has where they mark
/// analog pins, and with a firmware name in UTF-8.
pub open spec fn decodable(b: BoardView, buf: Seq<u8>) -> bool {
    &&& buf.len() >= 1
    &&& (buf[0] == PROTOCOL_VERSION || is_analog_message(buf[0]) || is_digital_message(buf[0]))
        ==> buf.len() >= 3
    &&& buf[0] == START_SYSEX ==> sysex_decodable(b, buf)
}

proof fn lemma_capability_modes_nonempty(buf: Seq<u8>, i: int)
    ensures
        capability_modes(buf, i).len() >= 1,
    decreases buf.len() - i,
{
    if i >= buf.len() - 1 {
    } else if buf[i] == PIN_SEPARATOR {
        lemma_capability_modes_nonempty(buf, i + 1);
    } else {
        lemma_capability_modes_nonempty(buf, i + 2);
    }
}

/// The pins of a capability response.
fn parse_capabilities(buf: &Vec<u8>) -> (pins: Vec<Pin>)
    requires
        buf@.len() >= 2,
    ensures
        pins@.map_values(|p: Pin| p@) == capability_pins(buf@),
{
    let mut pin: usize = 0;
    let mut i: usize = 2;
    let mut pins: Vec<Pin> = Vec::new();
    pins.push(Pin { modes: vec![], analog: false, value: 0, mode: 0 });
    let ghost full = capability_modes(buf@, 2);
    proof {
        lemma_capability_modes_nonempty(buf@, 2);
        assert(capability_modes(buf@, 2) =~= seq![Seq::<Mode>::empty()].drop_last() + seq![
            Seq::<Mode>::empty() + capability_modes(buf@, 2)[0],
        ] + capability_modes(buf@, 2).drop_first());
    }
    while i < buf.len() - 1
        invariant
            2 <= i <= buf@.len(),
            1 <= pins@.len() <= i - 1,
            pin == pins@.len() - 1,
            forall|j: int|
                0 <= j < pins@.len() ==> (#[trigger] pins@[j]).analog == false && pins@[j].value
                    == 0 && pins@[j].mode == 0,
            full == capability_modes(buf@, 2),
            full =~= pins@.map_values(|p: Pin| p.modes@).drop_last() + seq![
                pins@.last().modes@ + capability_modes(buf@, i as int)[0],
            ] + capability_modes(buf@, i as int).drop_first(),
        decreases buf@.len() - i,
    {
        let ghost old_modes = pins@.map_values(|p: Pin| p.modes@);
        let ghost old_last = pins@.last().modes@;
        proof {
            lemma_capability_modes_nonempty(buf@, i + 1);
            if i + 2 <= buf@.len() {
                lemma_capability_modes_nonempty(buf@, i + 2);
            }
        }
        if buf[i] == 127u8 {
            pin += 1;
            i += 1;
            pins.push(Pin { modes: vec![], analog: false, value: 0, mode: 0 });
            proof {
                let c1 = capability_modes(buf@, i as int);
                let new_modes = pins@.map_values(|p: Pin| p.modes@);
                assert(new_modes =~= old_modes.push(Seq::empty()));
                assert(new_modes.drop_last() =~= old_modes);
                assert(old_modes =~= old_modes.drop_last() + seq![old_last]);
                assert(c1 =~= seq![c1[0]] + c1.drop_first());
                assert(old_last + Seq::<Mode>::empty() =~= old_last);
                assert(pins@.last().modes@ + c1[0] =~= c1[0]);
            }
            continue;
        }
        let m = Mode { mode: buf[i], resolution: buf[i + 1] };
        pins[pin].modes.push(m);
        proof {
            let rest = capability_modes(buf@, i + 2);
            let new_modes = pins@.map_values(|p: Pin| p.modes@);
            assert(new_modes.drop_last() =~= old_modes.drop_last());
            assert(pins@.last().modes@ =~= old_last.push(m));
            assert(old_last + (seq![m] + rest[0]) =~= old_last.push(m) + rest[0]);
            assert(capability_modes(buf@, i as int).drop_first() =~= rest.drop_first());
        }
        i += 2;
    }
    proof {
        let m = pins@.map_values(|p: Pin| p.modes@);
        assert(capability_modes(buf@, i as int) =~= seq![Seq::<Mode>::empty()]);
        assert(m =~= m.drop_last() + seq![m.last()]);
        assert(pins@.map_values(|p: Pin| p@) =~= capability_pins(buf@));
    }
    pins
}

/// The received index `pin` (nonnegative) is in range where the pin count,
/// taken as an `i32`, exceeds it.
proof fn lemma_reaches_in_range(len: usize, pin: i32)
    requires
        0 <= pin,
        (len as i32) > pin,
    ensures
        (pin as usize) < len,
{
    assert(0 <= pin && (len as i32) > pin ==> (pin as usize) < len) by (bit_vector);
}

/// The I2C reply that an I2C reply message carries.
fn parse_i2c_reply(buf: &Vec<u8>) -> (r: I2CReply)
    requires
        buf@.len() >= 8,
    ensures
        r@ == i2c_reply_of(buf@),
{
    let len = buf.len();
    let mut reply = I2CReply {
        address: (buf[2] as i32) | ((buf[3] as i32) << 7),
        register: (buf[4] as i32) | ((buf[5] as i32) << 7),
        data: vec![buf[6] | buf[7] << 7],
    };
    let mut i: usize = 8;
    let ghost full = i2c_reply_of(buf@).data;
    assert(full =~= reply.data@ + i2c_bytes(buf@, 8));
    while i < len - 1
        invariant
            len == buf@.len(),
            8 <= i <= len,
            reply.address == join7(buf@[2], buf@[3]),
            reply.register == join7(buf@[4], buf@[5]),
            full == i2c_reply_of(buf@).data,
            full =~= reply.data@ + i2c_bytes(buf@, i as int),
        ensures
            reply.data@ =~= full,
        decreases len - i,
    {
        if buf[i] == 0xF7 {
            break;
        }
        if i + 2 > len {
            break;
        }
        let ghost before = reply.data@;
        reply.data.push(buf[i] | buf[i + 1] << 7);
        assert(before + i2c_bytes(buf@, i as int) =~= reply.data@ + i2c_bytes(buf@, i + 2));
        i += 2;
    }
    reply
}

/// The bytes of `buf` from `start` up to `end`.
fn copy_range(buf: &Vec<u8>, start: usize, end: usize) -> (r: Vec<u8>)
    requires
        start <= end <= buf@.len(),
    ensures
        r@ == buf@.subrange(start as int, end as int),
{
    let mut r: Vec<u8> = Vec::new();
    let mut i = start;
    while i < end
        invariant
            start <= i <= end <= buf@.len(),
            r@ =~= buf@.subrange(start as int, i as int),
        decreases end - i,
    {
        r.push(buf[i]);
        i += 1;
    }
    r
}

/// Whether every entry of an analog mapping response that is not the
/// separator names a pin of the board.
fn check_analog_mapping(pin_count: usize, buf: &Vec<u8>) -> (r: bool)
    requires
        buf@.len() >= 2,
    ensures
        r == (pin_count > 0 ==> forall|i: int|
            2 <= i < buf@.len() - 1 && #[trigger] buf@[i] != PIN_SEPARATOR ==> i - 2 < pin_count),
{
    if pin_count == 0 {
        return true;
    }
    let mut i: usize = 2;
    while i < buf.len() - 1
        invariant
            2 <= i,
            buf@.len() >= 2,
            pin_count > 0,
            forall|k: int| 2 <= k < i && k < buf@.len() - 1 && buf@[k] != PIN_SEPARATOR ==> k - 2 < pin_count,
        decreases buf@.len() - i,
    {
        if buf[i] != 127u8 && i - 2 >= pin_count {
            let ghost k = i as int;
            assert(2 <= k < buf@.len() - 1 && buf@[k] != PIN_SEPARATOR && !(k - 2 < pin_count));
            return false;
        }
        i += 1;
    }
    true
}

impl Board {
    /// Marks analog each pin that an analog mapping response names.
    fn mark_analog_pins(&mut self, buf: &Vec<u8>)
        requires
            buf@.len() >= 2,
            analog_mapping_fits(old(self)@, buf@),
        ensures
            final(self)@ == analog_mapping_update(old(self)@, buf@),
    {
        if self.pins.len() > 0 {
            let mut i: usize = 2;
            while i < buf.len() - 1
                invariant
                    2 <= i,
                    buf@.len() >= 2,
                    old(self)@.pins.len() > 0,
                    analog_mapping_fits(old(self)@, buf@),
                    self.pins@.len() == old(self).pins@.len(),
                    self@ =~= (BoardView {
                        pins: Seq::new(
                            old(self)@.pins.len(),
                            |j: int|
                                if j + 2 < i && j + 2 < buf@.len() - 1 && buf@[j + 2] != PIN_SEPARATOR {
                                    PinView { analog: true, ..old(self)@.pins[j] }
                                } else {
                                    old(self)@.pins[j]
                                },
                        ),
                        ..old(self)@
                    }),
                decreases buf@.len() - i,
            {
                let ghost prev = self@;
                if buf[i] != 127u8 {
                    assert(i - 2 < old(self)@.pins.len());
                    self.pins[i - 2].analog = true;
                    assert(self@.pins =~= prev.pins.update(
                        i - 2,
                        PinView { analog: true, ..prev.pins[i - 2] },
                    ));
                }
                i += 1;
            }
        }
        assert(self@ =~= analog_mapping_update(old(self)@, buf@));
    }

    /// Sets each existing input pin of a digital message's port to its bit.
    fn update_digital_port(&mut self, buf: &Vec<u8>)
        requires
            buf@.len() >= 3,
        ensures
            final(self)@ == digital_update(old(self)@, buf@),
    {
        let port = (buf[0] as i32) & 0x0F;
        let value = (buf[1] as i32) | ((buf[2] as i32) << 7);
        let b0 = buf[0];
        assert((b0 as i32) & 0x0F == (b0 % 16) as i32) by (bit_vector);
        let ghost goal = digital_update(old(self)@, buf@);
        let mut i: i32 = 0;
        while i < 8
            invariant
                0 <= i <= 8,
                0 <= port < 16,
                buf@.len() >= 3,
                self.pins@.len() == old(self).pins@.len(),
                port == buf@[0] % 16,
                value == join7(buf@[1], buf@[2]),
                goal == digital_update(old(self)@, buf@),
                self@ =~= (BoardView {
                    pins: Seq::new(
                        old(self)@.pins.len(),
                        |j: int|
                            if 8 * port <= j < 8 * port + i && reaches(old(self)@, j)
                                && old(self)@.pins[j].mode == INPUT {
                                goal.pins[j]
                            } else {
                                old(self)@.pins[j]
                            },
                    ),
                    ..old(self)@
                }),
            decreases 8 - i,
        {
            let pin = (8 * port) + i;
            let ghost prev = self@;
            assert(self.pins.len() as i32 == (old(self)@.pins.len() as i32));
            if self.pins.len() as i32 > pin {
                proof {
                    lemma_reaches_in_range(self.pins.len(), pin);
                }
                if self.pins[pin as usize].mode == INPUT {
                    assert(i & 0x07 == i) by (bit_vector)
                        requires
                            0 <= i < 8,
                    ;
                    self.pins[pin as usize].value = (value >> (i & 0x07)) & 0x01;
                    assert(self@.pins =~= prev.pins.update(
                        pin as int,
                        PinView { value: bit(value, i as int), ..prev.pins[pin as int] },
                    ));
                }
            }
            i += 1;
        }
        assert(self@ =~= goal);
    }

    /// Applies the complete received message `buf` to the board: a protocol
    /// version or firmware report sets the version (octal numbers joined by a
    /// dot) and name, an analog or digital message sets pin values, a
    /// settings response records the setting, an analog mapping or capability
    /// response describes the pins, and an I2C reply is queued. The message is
    /// handed back; messages of unknown kinds are refused and change nothing.
    pub fn decode(&mut self, buf: Vec<u8>) -> (r: Result<Vec<u8>, FirmataError>)
        requires
            decodable(old(self)@, buf@),
        ensures
            match decode_outcome(old(self)@, buf@) {
                Ok(after) => r matches Ok(v) && v@ == buf@ && final(self)@ == after,
                Err(e) => r == Err::<Vec<u8>, FirmataError>(e) && final(self)@ == old(self)@,
            },
    {
        let b0 = buf[0];
        if b0 == PROTOCOL_VERSION {
            self.protocol_version = format_octal_pair(buf[1], buf[2]);
            assert(self@ =~= (BoardView { protocol_version: octal_pair(buf@[1], buf@[2]), ..old(self)@ }));
            Ok(buf)
        } else if 0xE0 <= b0 && b0 <= 0xEF {
            let value = (buf[1] as i32) | ((buf[2] as i32) << 7);
            assert((b0 as i32) & 0x0F == (b0 % 16) as i32) by (bit_vector);
            let pin = ((b0 as i32) & 0x0F) + 14;
            if self.pins.len() as i32 > pin {
                proof {
                    lemma_reaches_in_range(self.pins.len(), pin);
                }
                self.pins[pin as usize].value = value;
            }
            assert(self@ =~= analog_update(old(self)@, buf@));
            Ok(buf)
        } else if 0x90 <= b0 && b0 <= 0x9F {
            self.update_digital_port(&buf);
            Ok(buf)
        } else if b0 == CC_EVENT {
            Ok(buf)
        } else if b0 == START_SYSEX {
            let b1 = buf[1];
            if b1 == CC_RESPONSE {
                self.cc_settings.set(buf[2], buf[3]);
                assert(self@ =~= (BoardView {
                    cc_settings: old(self)@.cc_settings.insert(buf@[2], buf@[3]),
                    ..old(self)@
                }));
                Ok(buf)
            } else if b1 == ANALOG_MAPPING_RESPONSE {
                self.mark_analog_pins(&buf);
                Ok(buf)
            } else if b1 == CAPABILITY_RESPONSE {
                self.pins = parse_capabilities(&buf);
                assert(self@ =~= (BoardView { pins: capability_pins(buf@), ..old(self)@ }));
                Ok(buf)
            } else if b1 == REPORT_FIRMWARE {
                self.firmware_version = format_octal_pair(buf[2], buf[3]);
                let name_bytes = copy_range(&buf, 4, buf.len() - 1);
                match string_from_utf8(name_bytes) {
                    Some(name) => {
                        self.firmware_name = name;
                    },
                    None => {},
                }
                assert(self@ =~= (BoardView {
                    firmware_version: octal_pair(buf@[2], buf@[3]),
                    firmware_name: firmware_name_of(buf@),
                    ..old(self)@
                }));
                Ok(buf)
            } else if b1 == I2C_REPLY {
                let reply = parse_i2c_reply(&buf);
                self.i2c_data.push(reply);
                assert(self@ =~= (BoardView {
                    i2c_data: old(self)@.i2c_data.push(i2c_reply_of(buf@)),
                    ..old(self)@
                }));
                Ok(buf)
            } else {
                Err(FirmataError::UnknownSysexCode)
            }
        } else {
            Err(FirmataError::BadByte)
        }
    }

    /// Whether the message `buf` can be applied to this board (see `decodable`).
    pub fn can_decode(&self, buf: &Vec<u8>) -> (r: bool)
        ensures
            r == decodable(self@, buf@),
    {
        let len = buf.len();
        if len < 1 {
            return false;
        }
        let b0 = buf[0];
        if b0 == PROTOCOL_VERSION || (0xE0 <= b0 && b0 <= 0xEF) || (0x90 <= b0 && b0 <= 0x9F) {
            return len >= 3;
        }
        if b0 != START_SYSEX {
            return true;
        }
        if len < 2 {
            return false;
        }
        let b1 = buf[1];
        if b1 == CC_RESPONSE {
            len >= 4
        } else if b1 == ANALOG_MAPPING_RESPONSE {
            check_analog_mapping(self.pins.len(), buf)
        } else if b1 == REPORT_FIRMWARE {
            if len < 5 {
                false
            } else {
                string_from_utf8(copy_range(buf, 4, len - 1)).is_some()
            }
        } else if b1 == I2C_REPLY {
            len >= 8
        } else {
            true
        }
    }

    /// Applies `buf` as `decode` does where it can be applied; gives `None`,
    /// and leaves the board unchanged, where it cannot.
    pub fn try_decode(&mut self, buf: Vec<u8>) -> (r: Option<Result<Vec<u8>, FirmataError>>)
        ensures
            r is None <==> !decodable(old(self)@, buf@),
            r is None ==> final(self)@ == old(self)@,
            r matches Some(res) ==> match decode_outcome(old(self)@, buf@) {
                Ok(after) => res matches Ok(v) && v@ == buf@ && final(self)@ == after,
                Err(e) => res == Err::<Vec<u8>, FirmataError>(e) && final(self)@ == old(self)@,
            },
    {
        if self.can_decode(&buf) {
            Some(self.decode(buf))
        } else {
            None
        }
    }
}

} // verus!
