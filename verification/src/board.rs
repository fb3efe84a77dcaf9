//! The state a client keeps of a board, and the messages that change it.
use crate::constants::{
    CC_BUTTON_DOWN, CC_BUTTON_JOYSTICK, CC_BUTTON_LEFT, CC_BUTTON_RIGHT, CC_BUTTON_UP,
    CC_DATA_STREAMING_ENABLED, HID_ENABLED, ANALOG_MAPPING_QUERY, ANALOG_MESSAGE, CAPABILITY_QUERY, CC_GET, CC_SET, DIGITAL_MESSAGE,
    END_SYSEX, I2C_CONFIG, I2C_MODE_READ, I2C_MODE_WRITE, I2C_REQUEST, PIN_MODE, REPORT_ANALOG,
    REPORT_DIGITAL, REPORT_FIRMWARE, START_SYSEX,
};
use crate::messages::{
    analog_message, digital_message, i2c_config_message, i2c_read_message, i2c_write_message,
    lemma_split7_i32, lemma_split7_u8, pin_mode_message, port_bits, query_message, startup_messages,
    report_analog_message, report_digital_message, settings_get_message, settings_set_message,
    split7,
};
use crate::settings::CCSettings;
use vstd::arithmetic::power2::{
    lemma2_to64, lemma_pow2_strictly_increases, lemma_pow2_unfold, pow2,
};
use vstd::prelude::*;

verus! {

/// A structure representing an I2C reply.
#[derive(Debug)]
pub struct I2CReply {
    pub address: i32,
    pub register: i32,
    pub data: Vec<u8>,
}

/// A structure representing an available pin mode.
#[derive(Debug, Clone, Copy, PartialEq, Eq)]
pub struct Mode {
    pub mode: u8,
    pub resolution: u8,
}

/// A structure representing the current state and configuration of a pin.
#[derive(Debug, Clone)]
pub struct Pin {
    pub modes: Vec<Mode>,
    pub analog: bool,
    pub value: i32,
    pub mode: u8,
}

/// A structure representing the state of a firmata board as the client
/// knows it.
#[derive(Debug)]
pub struct Board {
    pub pins: Vec<Pin>,
    pub i2c_data: Vec<I2CReply>,
    pub protocol_version: String,
    pub firmware_name: String,
    pub firmware_version: String,
    pub cc_settings: CCSettings,
}

/// An I2C reply as plain values.
#[verifier::ext_equal]
pub struct I2CReplyView {
    pub address: i32,
    pub register: i32,
    pub data: Seq<u8>,
}

/// A pin as plain values.
#[verifier::ext_equal]
pub struct PinView {
    pub modes: Seq<Mode>,
    pub analog: bool,
    pub value: i32,
    pub mode: u8,
}

/// A board as plain values.
#[verifier::ext_equal]
pub struct BoardView {
    pub pins: Seq<PinView>,
    pub i2c_data: Seq<I2CReplyView>,
    pub protocol_version: Seq<char>,
    pub firmware_name: Seq<char>,
    pub firmware_version: Seq<char>,
    pub cc_settings: Map<u8, u8>,
}

impl View for I2CReply {
    type V = I2CReplyView;

    open spec fn view(&self) -> I2CReplyView {
        I2CReplyView { address: self.address, register: self.register, data: self.data@ }
    }
}

impl View for Pin {
    type V = PinView;

    open spec fn view(&self) -> PinView {
        PinView { modes: self.modes@, analog: self.analog, value: self.value, mode: self.mode }
    }
}

impl View for Board {
    type V = BoardView;

    open spec fn view(&self) -> BoardView {
        BoardView {
            pins: self.pins@.map_values(|p: Pin| p@),
            i2c_data: self.i2c_data@.map_values(|r: I2CReply| r@),
            protocol_version: self.protocol_version@,
            firmware_name: self.firmware_name@,
            firmware_version: self.firmware_version@,
            cc_settings: self.cc_settings@,
        }
    }
}

/// A pin that nothing is known of yet.
pub open spec fn blank_pin() -> PinView {
    PinView { modes: Seq::empty(), analog: false, value: 0, mode: 0 }
}

impl BoardView {
    /// The board with pin `i` replaced by `p`.
    pub open spec fn with_pin(self, i: int, p: PinView) -> BoardView {
        BoardView { pins: self.pins.update(i, p), ..self }
    }

    /// The board with the value of pin `i` set to `value`.
    pub open spec fn with_pin_value(self, i: int, value: i32) -> BoardView {
        self.with_pin(i, PinView { value: value, ..self.pins[i] })
    }

    /// The values of the eight pins of digital port `port`.
    pub open spec fn port_states(self, port: int) -> Seq<i32> {
        Seq::new(8, |i: int| self.pins[8 * port + i].value)
    }

    /// The digital port that holds pin `pin`, and the pins of that port all exist.
    pub open spec fn has_port_of(self, pin: int) -> bool {
        0 <= pin && 8 * (pin / 8) + 8 <= self.pins.len()
    }
}

/// The state of a board before anything has been received from it.
pub open spec fn empty_board() -> BoardView {
    BoardView {
        pins: Seq::empty(),
        i2c_data: Seq::empty(),
        protocol_version: Seq::empty(),
        firmware_name: Seq::empty(),
        firmware_version: Seq::empty(),
        cc_settings: Map::empty(),
    }
}

impl Board {
    /// A board that nothing has been received from yet.
    pub fn new() -> (b: Board)
        ensures
            b@ == empty_board(),
    {
        let b = Board {
            firmware_name: String::new(),
            firmware_version: String::new(),
            protocol_version: String::new(),
            pins: Vec::new(),
            i2c_data: Vec::new(),
            cc_settings: CCSettings::new(),
        };
        assert(b@ =~= empty_board());
        b
    }

    /// The message that asks the device for the setting `config`.
    pub fn settings_get(&self, config: u8) -> (msg: Vec<u8>)
        ensures
            msg@ == settings_get_message(config),
    {
        let msg = vec![START_SYSEX, CC_GET, config, END_SYSEX];
        assert(msg@ =~= settings_get_message(config));
        msg
    }

    /// Records `value` for the device setting `config` and gives the message
    /// that sets it on the device.
    pub fn settings_set(&mut self, config: u8, value: u8) -> (msg: Vec<u8>)
        ensures
            final(self)@ == (BoardView {
                cc_settings: old(self)@.cc_settings.insert(config, value),
                ..old(self)@
            }),
            msg@ == settings_set_message(config, value),
    {
        self.cc_settings.set(config, value);
        let msg = vec![START_SYSEX, CC_SET, config, value, END_SYSEX];
        assert(msg@ =~= settings_set_message(config, value));
        assert(self@ =~= (BoardView {
            cc_settings: old(self)@.cc_settings.insert(config, value),
            ..old(self)@
        }));
        msg
    }

    /// The message that asks the board for its analog pin mapping.
    pub fn query_analog_mapping(&self) -> (msg: Vec<u8>)
        ensures
            msg@ == query_message(ANALOG_MAPPING_QUERY),
    {
        let msg = vec![START_SYSEX, ANALOG_MAPPING_QUERY, END_SYSEX];
        assert(msg@ =~= query_message(ANALOG_MAPPING_QUERY));
        msg
    }

    /// The message that asks the board for the capabilities of its pins.
    pub fn query_capabilities(&self) -> (msg: Vec<u8>)
        ensures
            msg@ == query_message(CAPABILITY_QUERY),
    {
        let msg = vec![START_SYSEX, CAPABILITY_QUERY, END_SYSEX];
        assert(msg@ =~= query_message(CAPABILITY_QUERY));
        msg
    }

    /// The message that asks the board for its firmware name and version.
    pub fn query_firmware(&self) -> (msg: Vec<u8>)
        ensures
            msg@ == query_message(REPORT_FIRMWARE),
    {
        let msg = vec![START_SYSEX, REPORT_FIRMWARE, END_SYSEX];
        assert(msg@ =~= query_message(REPORT_FIRMWARE));
        msg
    }

    /// The message that sets the delay, in microseconds, between writing an
    /// I2C register and reading it.
    pub fn i2c_config(&self, delay: i32) -> (msg: Vec<u8>)
        ensures
            msg@ == i2c_config_message(delay),
    {
        assert((delay & 0xFF) as u8 == (delay % 256) as u8) by (bit_vector);
        assert((delay >> 8 & 0xFF) as u8 == ((delay / 256) % 256) as u8) by (bit_vector);
        let msg = vec![
            START_SYSEX,
            I2C_CONFIG,
            (delay & 0xFF) as u8,
            (delay >> 8 & 0xFF) as u8,
            END_SYSEX,
        ];
        assert(msg@ =~= i2c_config_message(delay));
        msg
    }

    /// The message that reads `size` bytes from the I2C device at `address`.
    pub fn i2c_read(&self, address: i32, size: i32) -> (msg: Vec<u8>)
        ensures
            msg@ == i2c_read_message(address, size),
    {
        proof {
            lemma_split7_i32(size);
            assert((size as u8) & 0x7F == (size & 0x7f) as u8) by (bit_vector);
        }
        let msg = vec![
            START_SYSEX,
            I2C_REQUEST,
            address as u8,
            (I2C_MODE_READ << 3),
            ((size as u8) & 0x7F),
            (((size) >> 7) & 0x7F) as u8,
            END_SYSEX,
        ];
        assert(I2C_MODE_READ << 3 == 8u8) by (bit_vector);
        assert(msg@ =~= i2c_read_message(address, size));
        msg
    }

    /// The message that writes `data` to the I2C device at `address`.
    pub fn i2c_write(&self, address: i32, data: &[u8]) -> (msg: Vec<u8>)
        requires
            2 * data@.len() + 5 <= usize::MAX,
        ensures
            msg@ == i2c_write_message(address, data@),
    {
        let mut buf: Vec<u8> = Vec::new();
        buf.push(START_SYSEX);
        buf.push(I2C_REQUEST);
        buf.push(address as u8);
        assert(I2C_MODE_WRITE << 3 == 0u8) by (bit_vector);
        buf.push(I2C_MODE_WRITE << 3);
        let ghost head = buf@;
        let mut j: usize = 0;
        while j < data.len()
            invariant
                j <= data@.len(),
                head == seq![START_SYSEX, I2C_REQUEST, address as u8, (I2C_MODE_WRITE * 8) as u8],
                buf@ =~= head + split7(data@.take(j as int)),
            decreases data@.len() - j,
        {
            let i = data[j];
            proof {
                lemma_split7_u8(i);
            }
            buf.push(i & 0x7F);
            buf.push((((i as i32) >> 7) & 0x7F) as u8);
            j = j + 1;
            assert(split7(data@.take(j as int)) =~= split7(data@.take(j - 1)).push(i % 128).push(
                i / 128,
            ));
        }
        buf.push(END_SYSEX);
        assert(data@.take(data@.len() as int) =~= data@);
        assert(buf@ =~= i2c_write_message(address, data@));
        buf
    }

    /// The message that switches the reporting of digital port `pin` to `state`.
    pub fn report_digital(&self, pin: i32, state: i32) -> (msg: Vec<u8>)
        ensures
            msg@ == report_digital_message(pin, state),
    {
        let msg = vec![REPORT_DIGITAL | pin as u8, state as u8];
        assert(msg@ =~= report_digital_message(pin, state));
        msg
    }

    /// The message that switches the reporting of analog pin `pin` to `state`.
    pub fn report_analog(&self, pin: i32, state: i32) -> (msg: Vec<u8>)
        ensures
            msg@ == report_analog_message(pin, state),
    {
        let msg = vec![REPORT_ANALOG | pin as u8, state as u8];
        assert(msg@ =~= report_analog_message(pin, state));
        msg
    }

    /// Records `level` as the value of pin `pin` and gives the message that
    /// writes it to the analog pin.
    pub fn analog_write(&mut self, pin: i32, level: i32) -> (msg: Vec<u8>)
        requires
            0 <= pin < old(self).pins@.len(),
        ensures
            final(self)@ == old(self)@.with_pin_value(pin as int, level),
            msg@ == analog_message(pin, level),
    {
        self.pins[pin as usize].value = level;
        assert(self@ =~= old(self)@.with_pin_value(pin as int, level));
        proof {
            lemma_split7_i32(level);
        }
        let msg = vec![
            ANALOG_MESSAGE | pin as u8,
            (level & 0x7f) as u8,
            ((level >> 7) & 0x7f) as u8,
        ];
        assert(msg@ =~= analog_message(pin, level));
        msg
    }

    /// Records `level` as the value of pin `pin` and gives the message that
    /// writes the states of the pin's whole digital port: bit `i` of the port
    /// is set where the port's `i`th pin holds a nonzero value.
    pub fn digital_write(&mut self, pin: i32, level: i32) -> (msg: Vec<u8>)
        requires
            old(self)@.has_port_of(pin as int),
        ensures
            final(self)@ == old(self)@.with_pin_value(pin as int, level),
            msg@ == digital_message(
                pin / 8,
                port_bits(final(self)@.port_states(pin / 8), 8),
            ),
    {
        let port: usize = (pin / 8) as usize;
        let mut value: i32 = 0;
        let mut bit: i32 = 1;
        let mut i: usize = 0;

        self.pins[pin as usize].value = level;
        assert(self@ =~= old(self)@.with_pin_value(pin as int, level));
        let ghost states = self@.port_states(port as int);
        proof {
            lemma2_to64();
        }
        while i < 8
            invariant
                i <= 8,
                8 * port + 8 <= self.pins@.len(),
                port == pin / 8,
                states == self@.port_states(port as int),
                value == port_bits(states, i as nat),
                bit == pow2(i as nat),
                0 <= value < bit,
            decreases 8 - i,
        {
            proof {
                lemma_pow2_unfold((i + 1) as nat);
                lemma2_to64();
                if i + 1 < 8 {
                    lemma_pow2_strictly_increases((i + 1) as nat, 8);
                }
            }
            assert(self.pins@[(8 * port + i) as int]@ == self@.pins[8 * port + i]);
            if self.pins[8 * port + i].value != 0 {
                value = value + bit;
            }
            bit = bit * 2;
            i = i + 1;
        }
        proof {
            lemma_split7_i32(value);
        }
        let msg = vec![
            DIGITAL_MESSAGE | port as u8,
            (value & 0x7f) as u8,
            ((value >> 7) & 0x7f) as u8,
        ];
        assert(msg@ =~= digital_message(pin / 8, port_bits(states, 8)));
        msg
    }

    /// Records `mode` as the mode of pin `pin` and gives the message that sets it.
    pub fn set_pin_mode(&mut self, pin: i32, mode: u8) -> (msg: Vec<u8>)
        requires
            0 <= pin < old(self).pins@.len(),
        ensures
            final(self)@ == old(self)@.with_pin(
                pin as int,
                PinView { mode: mode, ..old(self)@.pins[pin as int] },
            ),
            msg@ == pin_mode_message(pin, mode),
    {
        self.pins[pin as usize].mode = mode;
        assert(self@ =~= old(self)@.with_pin(
            pin as int,
            PinView { mode: mode, ..old(self)@.pins[pin as int] },
        ));
        let msg = vec![PIN_MODE, pin as u8, mode];
        assert(msg@ =~= pin_mode_message(pin, mode));
        msg
    }
}

impl Board {
    /// The queries sent when a connection to a board opens, in order; the
    /// board answers each with one message.
    pub fn startup_queries() -> (qs: Vec<Vec<u8>>)
        ensures
            qs@.map_values(|q: Vec<u8>| q@) == startup_messages(),
    {
        let qs = vec![
            vec![START_SYSEX, REPORT_FIRMWARE, END_SYSEX],
            vec![START_SYSEX, ANALOG_MAPPING_QUERY, END_SYSEX],
            vec![START_SYSEX, CC_GET, HID_ENABLED, END_SYSEX],
            vec![START_SYSEX, CC_GET, CC_DATA_STREAMING_ENABLED, END_SYSEX],
            vec![START_SYSEX, CC_GET, CC_BUTTON_UP, END_SYSEX],
            vec![START_SYSEX, CC_GET, CC_BUTTON_DOWN, END_SYSEX],
            vec![START_SYSEX, CC_GET, CC_BUTTON_LEFT, END_SYSEX],
            vec![START_SYSEX, CC_GET, CC_BUTTON_RIGHT, END_SYSEX],
            vec![START_SYSEX, CC_GET, CC_BUTTON_JOYSTICK, END_SYSEX],
        ];
        assert(qs@.map_values(|q: Vec<u8>| q@) =~= startup_messages());
        qs
    }

    /// The pins the board has.
    pub fn pins(&self) -> (r: &Vec<Pin>)
        ensures
            r@ == self.pins@,
    {
        &self.pins
    }

    /// The protocol version the board reported.
    pub fn protocol_version(&self) -> (r: &String)
        ensures
            r@ == self@.protocol_version,
    {
        &self.protocol_version
    }

    /// The firmware name the board reported.
    pub fn firmware_name(&self) -> (r: &String)
        ensures
            r@ == self@.firmware_name,
    {
        &self.firmware_name
    }

    /// The firmware version the board reported.
    pub fn firmware_version(&self) -> (r: &String)
        ensures
            r@ == self@.firmware_version,
    {
        &self.firmware_version
    }

    /// The I2C replies received and not yet taken, oldest first.
    pub fn i2c_data(&mut self) -> (r: &mut Vec<I2CReply>)
        ensures
            *r == old(self).i2c_data,
            final(self).i2c_data == *final(r),
            final(self).pins == old(self).pins,
            final(self).protocol_version == old(self).protocol_version,
            final(self).firmware_name == old(self).firmware_name,
            final(self).firmware_version == old(self).firmware_version,
            final(self).cc_settings == old(self).cc_settings,
    {
        &mut self.i2c_data
    }
}

} // verus!
