# firmata

A client for the Firmata protocol.

- `src/` is the verified library: the protocol constants, the device
  settings store (`settings`), the bytes of every outgoing message
  (`messages`) and the board methods that produce them while recording their
  effect on the board state (`board`), the decoding of received messages into
  board state (`decode`), the delimiting of received messages in the byte
  stream (`frame`), octal and UTF-8 text (`text`), and properties that span
  several operations (`laws`).
- `app/` connects the library to a byte stream (`std::io::Read + Write`): it
  sends what the board methods produce, reads bytes into a `FrameReader`, and
  applies the messages it delivers. It offers the `Firmata` trait.
- `tests/` runs the library on concrete values.
