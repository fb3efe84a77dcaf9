//! A client for the Firmata protocol, split into the verified protocol logic
//! (message encoding, frame delimiting, decoding of received messages into
//! board state, the device settings store) and the transport, which callers
//! supply.

pub mod constants;
pub mod settings;
pub mod text;
pub mod messages;
pub mod board;
pub mod decode;
pub mod frame;
pub mod laws;
pub mod message_laws;
