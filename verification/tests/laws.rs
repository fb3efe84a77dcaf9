use firmata::frame::FrameReader;
use firmata::board::{Board, Pin};
use firmata::constants::{END_SYSEX, I2C_REPLY, OUTPUT, START_SYSEX};
use firmata::settings::CCSettings;

fn board_with_pins(n: usize) -> Board {
    let mut b = Board::new();
    for _ in 0..n {
        b.pins.push(Pin { modes: vec![], analog: false, value: 0, mode: 0 });
    }
    b
}

#[test]
fn read_after_write_of_a_setting() {
    let mut s = CCSettings::new();
    s.set(5, 9);
    s.set(6, 1);
    s.set(5, 2);
    assert_eq!(s.get(&5), Some(2));
    assert_eq!(s.get(&6), Some(1));
    assert_eq!(s.get(&7), None);
}

#[test]
fn analog_write_read_back() {
    let mut sender = board_with_pins(4);
    let msg = sender.analog_write(3, 12345);
    let mut receiver = board_with_pins(18);
    receiver.decode(msg).unwrap();
    assert_eq!(receiver.pins[17].value, 12345);
}

#[test]
fn digital_write_read_back() {
    let mut sender = board_with_pins(16);
    sender.pins[8].value = 3;
    sender.pins[11].value = -1;
    let msg = sender.digital_write(15, 9);
    let mut receiver = board_with_pins(16);
    receiver.pins[12].mode = OUTPUT;
    receiver.decode(msg).unwrap();
    let values: Vec<i32> = receiver.pins[8..16].iter().map(|p| p.value).collect();
    assert_eq!(values, vec![1, 0, 0, 1, 0, 0, 0, 1]);
}

#[test]
fn i2c_data_read_back() {
    let sender = Board::new();
    let data = [0x00, 0x7F, 0x80, 0xFF];
    let written = sender.i2c_write(0x22, &data);
    let mut reply = vec![START_SYSEX, I2C_REPLY, 0x22, 0x00, 0x01, 0x00];
    reply.extend_from_slice(&written[4..written.len() - 1]);
    reply.push(END_SYSEX);
    let mut receiver = Board::new();
    receiver.decode(reply).unwrap();
    assert_eq!(receiver.i2c_data[0].address, 0x22);
    assert_eq!(receiver.i2c_data[0].register, 1);
    assert_eq!(receiver.i2c_data[0].data, data.to_vec());
}

#[test]
fn junk_then_a_message() {
    let mut r = FrameReader::new(0);
    let stream = [0x42, 0xF7, 0x10, 0xEF, 0x05, 0x00, 0xF9, 0x02, 0x05];
    let mut out = vec![];
    for byte in stream {
        if let Some(f) = r.push(byte) {
            out.push(f);
        }
    }
    assert_eq!(out, vec![vec![0xEF, 0x05, 0x00], vec![0xF9, 0x02, 0x05]]);
    assert!(r.is_scanning());
}

#[test]
fn analog_write_on_the_last_channel_is_delivered() {
    let mut sender = board_with_pins(16);
    let msg = sender.analog_write(15, 300);
    let mut r = FrameReader::new(0);
    let mut frame = None;
    for byte in msg {
        frame = r.push(byte);
    }
    let mut receiver = board_with_pins(30);
    receiver.decode(frame.unwrap()).unwrap();
    assert_eq!(receiver.pins[29].value, 300);
}
