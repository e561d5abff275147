//! The stream framer: one growable receive buffer per connection, fed by
//! whatever chunks the transport delivers, from which complete
//! CRLF-terminated frames are extracted one at a time. A frame longer than
//! the line-length limit is discarded, and the buffer still advances past
//! its terminator, so a flooding or malformed peer can neither grow memory
//! without bound nor stall the connection.

use vstd::prelude::*;
use bytes::BytesMut;
use crate::message::line_shape_ok;
use crate::message::message_decodes_to;
use crate::types::Message;
use vstd::utf8::decode_utf8;
use vstd::utf8::valid_utf8;

verus! {

/// The longest frame, in bytes before the CRLF, that is accepted rather
/// than discarded.
pub const MAX_FRAME_LEN: usize = 512;

/// A terminal or try-again condition reported to the connection's driver.
#[derive(Debug, Clone, Copy, PartialEq, Eq, Structural)]
pub enum IRCError {
    /// The peer closed the connection or transport I/O failed.
    ClientExited,
    /// No complete frame is in the buffer; more bytes are needed.
    NoMessageLeftInBuffer,
    /// A frame exceeded the line-length limit and was discarded; the
    /// buffer advanced past its terminator.
    LengthExceeded,
}

#[verifier::external_type_specification]
#[verifier::external_body]
pub struct ExBytesMut(BytesMut);

/// The bytes a receive buffer currently holds, oldest first.
pub uninterp spec fn buffer_bytes(b: BytesMut) -> Seq<u8>;

/// Relies on BytesMut::new: a fresh buffer holds no bytes.
#[verifier::external_body]
fn buf_new() -> (b: BytesMut)
    ensures
        buffer_bytes(b) == Seq::<u8>::empty(),
{
    BytesMut::new()
}

/// Relies on BytesMut::extend_from_slice: it appends the slice's bytes at
/// the end of the buffer.
#[verifier::external_body]
fn buf_extend(b: &mut BytesMut, data: &[u8])
    ensures
        buffer_bytes(*final(b)) == buffer_bytes(*old(b)) + data@,
{
    b.extend_from_slice(data);
}

/// Relies on Buf::chunk for BytesMut: the buffer is contiguous, so the
/// chunk is everything it holds.
#[verifier::external_body]
fn buf_chunk(b: &BytesMut) -> (r: &[u8])
    ensures
        r@ == buffer_bytes(*b),
{
    bytes::Buf::chunk(b)
}

/// Relies on Buf::advance for BytesMut: it discards exactly the first
/// `cnt` bytes, and panics when `cnt` exceeds what the buffer holds.
#[verifier::external_body]
fn buf_advance(b: &mut BytesMut, cnt: usize)
    requires
        cnt <= buffer_bytes(*old(b)).len(),
    ensures
        buffer_bytes(*final(b)) == buffer_bytes(*old(b)).skip(cnt as int),
{
    bytes::Buf::advance(b, cnt);
}

/// Index of the first CRLF pair in `b`; `b.len()` when none occurs.
pub open spec fn crlf_index(b: Seq<u8>) -> int
    decreases b.len(),
{
    if b.len() < 2 {
        b.len() as int
    } else if b[0] == 13 && b[1] == 10 {
        0
    } else {
        1 + crlf_index(b.skip(1))
    }
}

pub proof fn lemma_crlf_index(b: Seq<u8>)
    ensures
        0 <= crlf_index(b) <= b.len(),
        crlf_index(b) < b.len() ==> crlf_index(b) + 1 < b.len() && b[crlf_index(b)] == 13
            && b[crlf_index(b) + 1] == 10,
        forall|j: int|
            0 <= j < crlf_index(b) && j + 1 < b.len() ==> !(#[trigger] b[j] == 13 && b[j + 1]
                == 10),
    decreases b.len(),
{
    if b.len() < 2 {
    } else if b[0] == 13 && b[1] == 10 {
    } else {
        lemma_crlf_index(b.skip(1));
        let m = crlf_index(b);
        assert forall|j: int| 0 <= j < m && j + 1 < b.len() implies !(#[trigger] b[j] == 13 && b[j
            + 1] == 10) by {
            if j > 0 {
                assert(b.skip(1)[j - 1] == b[j]);
                assert(b.skip(1)[j] == b[j + 1]);
            }
        }
        if m < b.len() {
            assert(b.skip(1)[m - 1] == b[m]);
            assert(b.skip(1)[m] == b[m + 1]);
        }
    }
}

pub proof fn lemma_crlf_index_is(b: Seq<u8>, i: int)
    requires
        0 <= i <= b.len(),
        forall|j: int|
            0 <= j < i && j + 1 < b.len() ==> !(#[trigger] b[j] == 13 && b[j + 1] == 10),
        i < b.len() ==> i + 1 < b.len() && b[i] == 13 && b[i + 1] == 10,
    ensures
        crlf_index(b) == i,
    decreases b.len(),
{
    if b.len() < 2 {
        assert(i == b.len());
    } else if b[0] == 13 && b[1] == 10 {
        assert(i == 0);
    } else {
        assert(i > 0) by {
            if i == 0 {
                assert(b[0] == 13 && b[1] == 10);
            }
        }
        assert forall|j: int| 0 <= j < i - 1 && j + 1 < b.skip(1).len() implies !(#[trigger] b.skip(
            1,
        )[j] == 13 && b.skip(1)[j + 1] == 10) by {
            assert(b.skip(1)[j] == b[j + 1]);
            assert(b.skip(1)[j + 1] == b[j + 2]);
        }
        if i - 1 < b.skip(1).len() {
            assert(b.skip(1)[i - 1] == b[i]);
            assert(b.skip(1)[i] == b[i + 1]);
        }
        lemma_crlf_index_is(b.skip(1), i - 1);
    }
}

/// Whether a frame's bytes decode to a message: valid UTF-8 whose tag and
/// source sections, if present, are each followed by a space.
pub open spec fn frame_decodable(frame: Seq<u8>) -> bool {
    valid_utf8(frame) && line_shape_ok(decode_utf8(frame))
}

/// What driving extraction to the next message does to a buffer: frames
/// that are oversize or undecodable are discarded in order, until either a
/// decodable frame of admissible length is found or no complete frame is
/// left.
pub enum ScanOutcome {
    /// No complete frame remains; `rest` is what the buffer still holds.
    NeedMore { rest: Seq<u8> },
    /// A decodable frame of admissible length was found; `rest` is what
    /// the buffer holds after it and its terminator.
    Found { frame: Seq<u8>, rest: Seq<u8> },
}

pub open spec fn scan_frames(b: Seq<u8>) -> ScanOutcome
    decreases b.len(),
    via scan_frames_decreases
{
    let i = crlf_index(b);
    if i >= b.len() {
        ScanOutcome::NeedMore { rest: b }
    } else if i <= MAX_FRAME_LEN && frame_decodable(b.take(i)) {
        ScanOutcome::Found { frame: b.take(i), rest: b.skip(i + 2) }
    } else {
        scan_frames(b.skip(i + 2))
    }
}

#[via_fn]
proof fn scan_frames_decreases(b: Seq<u8>) {
    lemma_crlf_index(b);
}

/// First index of a CRLF pair in a byte slice; the slice's length when
/// none occurs.
fn find_crlf(data: &[u8]) -> (i: usize)
    ensures
        i as int == crlf_index(data@),
        i <= data@.len(),
{
    let n = data.len();
    if n < 2 {
        proof {
            lemma_crlf_index_is(data@, n as int);
        }
        return n;
    }
    let mut i: usize = 0;
    while i < n - 1
        invariant
            i <= n - 1,
            2 <= n == data@.len(),
            forall|j: int|
                0 <= j < i && j + 1 < data@.len() ==> !(#[trigger] data@[j] == 13 && data@[j + 1]
                    == 10),
        decreases n - i,
    {
        if data[i] == 13 && data[i + 1] == 10 {
            proof {
                lemma_crlf_index_is(data@, i as int);
            }
            return i;
        }
        i = i + 1;
    }
    proof {
        lemma_crlf_index_is(data@, n as int);
    }
    n
}

/// One connection's receive buffer and frame extraction.
pub struct Framer {
    in_buffer: BytesMut,
}

impl View for Framer {
    type V = Seq<u8>;

    closed spec fn view(&self) -> Seq<u8> {
        buffer_bytes(self.in_buffer)
    }
}

impl Framer {
    /// A framer with an empty receive buffer.
    pub fn new() -> (f: Framer)
        ensures
            f@ == Seq::<u8>::empty(),
    {
        Framer { in_buffer: buf_new() }
    }

    /// Append newly received bytes at the end of the buffer. Feeding a
    /// stream in chunks, at any split, builds the same buffer as feeding
    /// it at once.
    pub fn append(&mut self, data: &[u8])
        ensures
            final(self)@ == old(self)@ + data@,
    {
        buf_extend(&mut self.in_buffer, data);
    }

    /// Extract the first complete frame, if one is terminated: its bytes
    /// without the CRLF, the buffer advanced past the CRLF. An oversize
    /// frame is discarded with the buffer still advanced; with no CRLF in
    /// the buffer, the buffer is left untouched.
    pub fn try_extract_frame(&mut self) -> (r: Result<Vec<u8>, IRCError>)
        ensures
            ({
                let i = crlf_index(old(self)@);
                if i >= old(self)@.len() {
                    r matches Err(e) && e == IRCError::NoMessageLeftInBuffer && final(self)@ == old(
                        self,
                    )@
                } else if i > MAX_FRAME_LEN {
                    r matches Err(e) && e == IRCError::LengthExceeded && final(self)@ == old(
                        self,
                    )@.skip(i + 2)
                } else {
                    r matches Ok(frame) && frame@ == old(self)@.take(i) && final(self)@ == old(
                        self,
                    )@.skip(i + 2)
                }
            }),
    {
        let n: usize;
        let i: usize;
        {
            let data = buf_chunk(&self.in_buffer);
            n = data.len();
            i = find_crlf(data);
        }
        proof {
            lemma_crlf_index(old(self)@);
        }
        if i == n {
            return Err(IRCError::NoMessageLeftInBuffer);
        }
        if i > MAX_FRAME_LEN {
            buf_advance(&mut self.in_buffer, i + 2);
            return Err(IRCError::LengthExceeded);
        }
        let frame: Vec<u8>;
        {
            let data = buf_chunk(&self.in_buffer);
            frame = vstd::slice::slice_to_vec(vstd::slice::slice_subrange(data, 0, i));
        }
        buf_advance(&mut self.in_buffer, i + 2);
        Ok(frame)
    }

    /// Extract and decode one frame. A complete frame is always consumed;
    /// the result says whether it carried a message, was undecodable, or
    /// was oversize, and with no complete frame the buffer is untouched.
    pub fn parse_frame(&mut self) -> (r: Result<Option<Message>, IRCError>)
        ensures
            ({
                let i = crlf_index(old(self)@);
                let frame = old(self)@.take(i);
                if i >= old(self)@.len() {
                    r matches Err(e) && e == IRCError::NoMessageLeftInBuffer && final(self)@ == old(
                        self,
                    )@
                } else if i > MAX_FRAME_LEN {
                    r matches Err(e) && e == IRCError::LengthExceeded && final(self)@ == old(
                        self,
                    )@.skip(i + 2)
                } else {
                    &&& final(self)@ == old(self)@.skip(i + 2)
                    &&& frame_decodable(frame) ==> (r matches Ok(m) && m matches Some(msg)
                        && message_decodes_to(decode_utf8(frame), msg))
                    &&& !frame_decodable(frame) ==> (r matches Ok(m) && m is None)
                }
            }),
    {
        let frame = match self.try_extract_frame() {
            Ok(frame) => frame,
            Err(e) => {
                return Err(e);
            },
        };
        Ok(Message::from_bytes(frame.as_slice()))
    }

    /// Drive extraction to the next message: discard oversize and
    /// undecodable frames in order, and stop at the first decodable frame
    /// or when no complete frame is left.
    pub fn next_message(&mut self) -> (r: Result<Message, IRCError>)
        ensures
            ({
                match scan_frames(old(self)@) {
                    ScanOutcome::NeedMore { rest } => r matches Err(e) && e
                        == IRCError::NoMessageLeftInBuffer && final(self)@ == rest,
                    ScanOutcome::Found { frame, rest } => r matches Ok(msg) && message_decodes_to(
                        decode_utf8(frame),
                        msg,
                    ) && final(self)@ == rest,
                }
            }),
    {
        loop
            invariant
                scan_frames(old(self)@) == scan_frames(self@),
            decreases self@.len(),
        {
            proof {
                lemma_crlf_index(self@);
            }
            let ghost before = self@;
            match self.parse_frame() {
                Ok(Some(msg)) => {
                    proof {
                        let i = crlf_index(before);
                        assert(scan_frames(before) == (ScanOutcome::Found {
                            frame: before.take(i),
                            rest: before.skip(i + 2),
                        }));
                    }
                    return Ok(msg);
                },
                Ok(None) => {
                    proof {
                        let i = crlf_index(before);
                        assert(scan_frames(before) == scan_frames(before.skip(i + 2)));
                    }
                },
                Err(e) => {
                    if matches!(e, IRCError::NoMessageLeftInBuffer) {
                        return Err(IRCError::NoMessageLeftInBuffer);
                    }
                    proof {
                        let i = crlf_index(before);
                        assert(scan_frames(before) == scan_frames(before.skip(i + 2)));
                    }
                },
            }
        }
    }
}

/// Frame boundary: a stream split into chunks at any offset builds, chunk
/// by chunk, the very buffer the unsplit stream builds, so extraction sees
/// the same frames either way.
pub proof fn lemma_chunked_append(buf: Seq<u8>, a: Seq<u8>, b: Seq<u8>)
    ensures
        (buf + a) + b == buf + (a + b),
        scan_frames((buf + a) + b) == scan_frames(buf + (a + b)),
{
    assert((buf + a) + b =~= buf + (a + b));
}

} // verus!
