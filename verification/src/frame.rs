//! Delimiting received messages in the byte stream from a board.
use crate::constants::{ANALOG_MESSAGE, CC_EVENT, DIGITAL_MESSAGE, END_SYSEX, PROTOCOL_VERSION, START_SYSEX};
use vstd::prelude::*;

verus! {

/// A byte that can start a received message: a protocol version report, a
/// sysex message, a CC event, or an analog or digital message on any of the
/// sixteen channels.
pub open spec fn spec_is_identifier(b: u8) -> bool {
    ||| b == PROTOCOL_VERSION
    ||| b == START_SYSEX
    ||| b == CC_EVENT
    ||| ANALOG_MESSAGE <= b <= 0xEF
    ||| DIGITAL_MESSAGE <= b <= 0x9F
}

/// A byte that starts a message the reader waits for: one of kind
/// `message_id`, or of any kind where `message_id` is zero.
pub open spec fn starts_frame(b: u8, message_id: u8) -> bool {
    spec_is_identifier(b) && (b == message_id || message_id == 0)
}

/// A started message that is complete: three bytes, five for a CC event, and
/// for a sysex message four or more ending in the end-of-sysex byte.
pub open spec fn frame_complete(f: Seq<u8>) -> bool {
    &&& f.len() >= 3
    &&& if f[0] == CC_EVENT {
        f.len() == 5
    } else if f[0] == START_SYSEX {
        f.len() >= 4 && f.last() == END_SYSEX
    } else {
        f.len() == 3
    }
}

/// No nonempty proper prefix of `f` is a complete message.
pub open spec fn no_complete_prefix(f: Seq<u8>) -> bool {
    forall|k: int| 1 <= k < f.len() ==> !frame_complete(#[trigger] f.take(k))
}

/// A message the reader hands out: it starts as awaited, is complete, and
/// ends at the first byte that completes it.
pub open spec fn is_frame(f: Seq<u8>, message_id: u8) -> bool {
    &&& f.len() >= 1
    &&& starts_frame(f[0], message_id)
    &&& frame_complete(f)
    &&& no_complete_prefix(f)
}

/// What the reader does with one received byte: the pending message after
/// it, and the message it hands out, if any. A byte that starts no awaited
/// message while scanning is skipped; otherwise it joins the pending message,
/// and where that message is then complete it is handed out and the reader
/// scans again.
pub open spec fn step(pending: Seq<u8>, message_id: u8, byte: u8) -> (Seq<u8>, Option<Seq<u8>>) {
    if pending.len() == 0 && !starts_frame(byte, message_id) {
        (Seq::empty(), None)
    } else {
        let f = pending.push(byte);
        if frame_complete(f) {
            (Seq::empty(), Some(f))
        } else {
            (f, None)
        }
    }
}

/// What the reader does with the received bytes `bytes`, in order: the
/// pending message after them, and the messages it hands out.
pub open spec fn feed(pending: Seq<u8>, message_id: u8, bytes: Seq<u8>) -> (Seq<u8>, Seq<Seq<u8>>)
    decreases bytes.len(),
{
    if bytes.len() == 0 {
        (pending, Seq::empty())
    } else {
        let (p, out) = feed(pending, message_id, bytes.drop_last());
        let (q, o) = step(p, message_id, bytes.last());
        (
            q,
            match o {
                Some(f) => out.push(f),
                None => out,
            },
        )
    }
}

/// Whether `b` can start a received message.
pub fn is_identifier(b: u8) -> (r: bool)
    ensures
        r == spec_is_identifier(b),
{
    b == PROTOCOL_VERSION || b == START_SYSEX || b == CC_EVENT || (ANALOG_MESSAGE <= b && b <= 0xEF)
        || (DIGITAL_MESSAGE <= b && b <= 0x9F)
}

/// Whether a wait of `timeout` seconds (none where negative) has run out
/// after `elapsed_secs` whole seconds.
pub fn timed_out(elapsed_secs: u64, timeout: isize) -> (r: bool)
    ensures
        r == (timeout >= 0 && elapsed_secs > timeout),
{
    timeout >= 0 && elapsed_secs > timeout as u64
}

/// Collects the bytes received from a board into complete messages, skipping
/// bytes that start no awaited message.
pub struct FrameReader {
    message_id: u8,
    pending: Vec<u8>,
}

impl FrameReader {
    /// The kind of message awaited (zero for any).
    pub closed spec fn message_id(&self) -> u8 {
        self.message_id
    }

    /// The bytes of the message started so far (empty while scanning).
    pub closed spec fn pending(&self) -> Seq<u8> {
        self.pending@
    }

    #[verifier::type_invariant]
    closed spec fn inv(&self) -> bool {
        self.pending@.len() == 0 || (starts_frame(self.pending@[0], self.message_id)
            && !frame_complete(self.pending@) && no_complete_prefix(self.pending@))
    }

    /// A reader that waits for messages of kind `message_id` (any kind where zero).
    pub fn new(message_id: u8) -> (r: Self)
        ensures
            r.message_id() == message_id,
            r.pending() == Seq::<u8>::empty(),
    {
        FrameReader { message_id, pending: Vec::new() }
    }

    /// Whether no message has been started yet.
    pub fn is_scanning(&self) -> (r: bool)
        ensures
            r == (self.pending().len() == 0),
    {
        self.pending.len() == 0
    }

    /// Takes the next received byte, as `step` says.
    pub fn push(&mut self, byte: u8) -> (r: Option<Vec<u8>>)
        ensures
            final(self).message_id() == old(self).message_id(),
            final(self).pending() == step(old(self).pending(), old(self).message_id(), byte).0,
            r matches Some(v) ==> step(old(self).pending(), old(self).message_id(), byte).1
                == Some(v@),
            r is None ==> step(old(self).pending(), old(self).message_id(), byte).1 is None,
            r matches Some(v) ==> is_frame(v@, old(self).message_id()),
    {
        proof {
            use_type_invariant(&*self);
        }
        if self.pending.len() == 0 && !(is_identifier(byte) && (byte == self.message_id
            || self.message_id == 0)) {
            return None;
        }
        let mut f: Vec<u8> = Vec::new();
        std::mem::swap(&mut f, &mut self.pending);
        let ghost old_f = f@;
        f.push(byte);
        assert(forall|k: int| 1 <= k < old_f.len() ==> #[trigger] f@.take(k) == old_f.take(k));
        assert(f@.take(old_f.len() as int) =~= old_f);
        if is_complete(&f) {
            Some(f)
        } else {
            self.pending = f;
            None
        }
    }
}

/// Whether the started message `f` is complete.
pub fn is_complete(f: &Vec<u8>) -> (r: bool)
    requires
        f@.len() >= 1,
    ensures
        r == frame_complete(f@),
{
    let n = f.len();
    if n < 3 {
        false
    } else if f[0] == CC_EVENT {
        n == 5
    } else if f[0] == START_SYSEX {
        n >= 4 && f[n - 1] == END_SYSEX
    } else {
        n == 3
    }
}

} // verus!
