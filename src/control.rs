use vstd::prelude::*;
use crate::wire::{read_le_u32, u32_of_le};

verus! {

/// A gamepad button, as the operator's device names it.
#[derive(Clone, Copy, Debug, PartialEq, Eq, Structural)]
pub enum Button {
    South,
    East,
    North,
    West,
    C,
    Z,
    LeftTrigger,
    LeftTrigger2,
    RightTrigger,
    RightTrigger2,
    Select,
    Start,
    Mode,
    LeftThumb,
    RightThumb,
    DPadUp,
    DPadDown,
    DPadLeft,
    DPadRight,
    Unknown,
}

/// A gamepad axis, as the operator's device names it.
#[derive(Clone, Copy, Debug, PartialEq, Eq, Structural)]
pub enum Axis {
    LeftStickX,
    LeftStickY,
    LeftZ,
    RightStickX,
    RightStickY,
    RightZ,
    DPadX,
    DPadY,
    Unknown,
}

/// One operator input event. Analog values are IEEE 754 singles held as their
/// bit patterns.
#[derive(Clone, Copy, Debug, PartialEq, Eq, Structural)]
pub enum GpEvent {
    ButtonPressed(Button),
    ButtonRepeated(Button),
    ButtonReleased(Button),
    ButtonChanged(Button, u32),
    AxisChanged(Axis, u32),
    Connected,
    Disconnected,
    Dropped,
}

/// The length that the first four bytes of `s` declare.
pub open spec fn declared_len(s: Seq<u8>) -> int {
    u32_of_le(s.subrange(0, 4))
}

/// Whether `s` starts with a whole frame: a length prefix and that many bytes.
pub open spec fn frame_ready(s: Seq<u8>) -> bool {
    s.len() >= 4 && s.len() - 4 >= declared_len(s)
}

/// The payload of the frame at the start of `s`.
pub open spec fn frame_payload(s: Seq<u8>) -> Seq<u8> {
    s.subrange(4, 4 + declared_len(s))
}

/// What follows the frame at the start of `s`.
pub open spec fn after_frame(s: Seq<u8>) -> Seq<u8> {
    s.subrange(4 + declared_len(s), s.len() as int)
}

/// The payloads of a whole control stream, and whether it ends in a decode
/// error. A stream ends cleanly where fewer than four bytes are left for the
/// next prefix; it fails where a prefix declares more bytes than remain.
pub open spec fn split_frames(s: Seq<u8>) -> (Seq<Seq<u8>>, bool)
    decreases s.len(),
{
    if s.len() < 4 {
        (seq![], false)
    } else if !frame_ready(s) {
        (seq![], true)
    } else {
        let (rest, failed) = split_frames(after_frame(s));
        (seq![frame_payload(s)] + rest, failed)
    }
}

/// What one step of the control decoder gives.
#[derive(Debug)]
pub enum Decoded {
    /// The payload of the next frame.
    Frame(Vec<u8>),
    /// More bytes are needed for the next frame.
    NeedMore,
    /// The input ended between frames.
    End,
    /// The stream is malformed; nothing more is read from it.
    Error,
}

/// Splits the operator's byte stream into frames: a `u32` little-endian length,
/// then that many bytes of one encoded event. A frame cut short by the end of
/// the input, or one whose payload does not decode, fails the stream for good:
/// the decoder never looks for a later frame boundary.
pub struct ControlDecoder {
    pending: Vec<u8>,
    failed: bool,
}

fn copy_range(v: &Vec<u8>, from: usize, to: usize) -> (r: Vec<u8>)
    requires
        from <= to <= v@.len(),
    ensures
        r@ == v@.subrange(from as int, to as int),
{
    let mut r: Vec<u8> = Vec::new();
    let mut i: usize = from;
    while i < to
        invariant
            from <= i <= to <= v@.len(),
            r@ == v@.subrange(from as int, i as int),
        decreases to - i,
    {
        r.push(v[i]);
        proof {
            assert(r@ =~= v@.subrange(from as int, i + 1));
        }
        i = i + 1;
    }
    r
}

impl ControlDecoder {
    /// The bytes received and not yet taken as frames.
    pub closed spec fn pending(&self) -> Seq<u8> {
        self.pending@
    }

    /// Whether the stream has failed.
    pub closed spec fn has_failed(&self) -> bool {
        self.failed
    }

    /// A decoder that has received nothing.
    pub fn new() -> (r: ControlDecoder)
        ensures
            r.pending() == Seq::<u8>::empty(),
            !r.has_failed(),
    {
        ControlDecoder { pending: Vec::new(), failed: false }
    }

    /// Whether the stream has failed.
    pub fn failed(&self) -> (r: bool)
        ensures
            r == self.has_failed(),
    {
        self.failed
    }

    /// Takes in bytes read from the connection.
    pub fn push(&mut self, data: &[u8])
        ensures
            final(self).pending() == old(self).pending() + data@,
            final(self).has_failed() == old(self).has_failed(),
    {
        let mut i: usize = 0;
        while i < data.len()
            invariant
                i <= data@.len(),
                self.pending@ == old(self).pending@ + data@.subrange(0, i as int),
                self.failed == old(self).failed,
            decreases data@.len() - i,
        {
            self.pending.push(data[i]);
            proof {
                assert(self.pending@ =~= old(self).pending@ + data@.subrange(0, i + 1));
            }
            i = i + 1;
        }
        assert(data@.subrange(0, data@.len() as int) =~= data@);
    }

    /// Marks the stream failed: a whole frame whose payload did not decode.
    pub fn reject(&mut self)
        ensures
            final(self).pending() == old(self).pending(),
            final(self).has_failed(),
    {
        self.failed = true;
    }

    /// The next step of decoding. `at_end` says that the connection has no
    /// more input. A stream that failed gives `Error` from then on; a whole
    /// frame is taken off the front; otherwise the decoder waits for more
    /// bytes, or, at the end of the input, ends cleanly where fewer than four
    /// bytes are left and fails where a frame was cut short.
    pub fn next(&mut self, at_end: bool) -> (r: Decoded)
        ensures
            old(self).has_failed() ==> r is Error && *final(self) == *old(self),
            !old(self).has_failed() && frame_ready(old(self).pending()) ==> {
                &&& r matches Decoded::Frame(b) && b@ == frame_payload(old(self).pending())
                &&& final(self).pending() == after_frame(old(self).pending())
                &&& !final(self).has_failed()
            },
            !old(self).has_failed() && !frame_ready(old(self).pending()) ==> {
                &&& final(self).pending() == old(self).pending()
                &&& !at_end ==> r is NeedMore && !final(self).has_failed()
                &&& at_end && old(self).pending().len() < 4 ==> r is End && !final(self).has_failed()
                &&& at_end && old(self).pending().len() >= 4 ==> r is Error && final(self).has_failed()
            },
    {
        if self.failed {
            return Decoded::Error;
        }
        let n = self.pending.len();
        if n >= 4 {
            let len = read_le_u32(self.pending.as_slice(), 0) as usize;
            if n - 4 >= len {
                let payload = copy_range(&self.pending, 4, 4 + len);
                let rest = copy_range(&self.pending, 4 + len, n);
                self.pending = rest;
                return Decoded::Frame(payload);
            }
        }
        if !at_end {
            Decoded::NeedMore
        } else if n < 4 {
            Decoded::End
        } else {
            self.failed = true;
            Decoded::Error
        }
    }
}

/// Decodes a whole control stream: the payload of each frame in order, and
/// `End` or `Error` for how the stream ended.
pub fn decode_stream(bytes: &[u8]) -> (r: (Vec<Vec<u8>>, Decoded))
    ensures
        r.0@.map_values(|f: Vec<u8>| f@) == split_frames(bytes@).0,
        r.1 is Error <==> split_frames(bytes@).1,
        r.1 is End <==> !split_frames(bytes@).1,
{
    let mut d = ControlDecoder::new();
    d.push(bytes);
    assert(d.pending() =~= bytes@);
    let mut frames: Vec<Vec<u8>> = Vec::new();
    loop
        invariant
            !d.has_failed(),
            frames@.map_values(|f: Vec<u8>| f@) + split_frames(d.pending()).0 == split_frames(bytes@).0,
            split_frames(d.pending()).1 == split_frames(bytes@).1,
        decreases d.pending().len(),
    {
        let ghost before = d.pending();
        let step = d.next(true);
        match step {
            Decoded::Frame(b) => {
                let ghost done = frames@.map_values(|f: Vec<u8>| f@);
                let ghost later = split_frames(d.pending()).0;
                assert(split_frames(before).0 == seq![b@] + later);
                frames.push(b);
                assert(frames@.map_values(|f: Vec<u8>| f@) =~= done.push(b@));
                assert(done.push(b@) + later =~= done + (seq![b@] + later));
            },
            other => {
                assert(split_frames(before).0 =~= Seq::<Seq<u8>>::empty());
                assert(frames@.map_values(|f: Vec<u8>| f@) =~= frames@.map_values(|f: Vec<u8>| f@)
                    + split_frames(before).0);
                return (frames, other);
            },
        }
    }
}

/// A stream whose first prefix declares more bytes than follow it fails at
/// once: it yields no frame, and no later offset is read as a frame boundary.
pub proof fn lemma_overlong_prefix_fails(s: Seq<u8>)
    requires
        s.len() >= 4,
        declared_len(s) > s.len() - 4,
    ensures
        split_frames(s) == (Seq::<Seq<u8>>::empty(), true),
{
}

} // verus!
