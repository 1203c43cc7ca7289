//! The framed channel's byte format: three big-endian `u32` values
//! (width, height, payload length) followed by the payload itself.
use vstd::prelude::*;
use byteorder::ByteOrder;

use crate::error::GError;
use crate::frame::ImageFrame;

verus! {

/// Number of bytes before the payload of a frame.
pub const HEADER_LEN: usize = 12;

/// The four big-endian bytes of `n`.
pub open spec fn be_bytes(n: u32) -> Seq<u8> {
    seq![
        (n / 0x100_0000) as u8,
        ((n / 0x1_0000) % 0x100) as u8,
        ((n / 0x100) % 0x100) as u8,
        (n % 0x100) as u8,
    ]
}

/// The integer that the first four bytes of `b` spell in big-endian order.
pub open spec fn be_value(b: Seq<u8>) -> int {
    b[0] * 0x100_0000 + b[1] * 0x1_0000 + b[2] * 0x100 + b[3]
}

/// Big-endian bytes of a sequence of words, one after another.
pub open spec fn words_bytes(words: Seq<u32>) -> Seq<u8>
    decreases words.len(),
{
    if words.len() == 0 {
        Seq::empty()
    } else {
        words_bytes(words.drop_last()) + be_bytes(words.last())
    }
}

/// The bytes of one frame on the wire.
pub open spec fn frame_bytes(width: u32, height: u32, payload: Seq<u8>) -> Seq<u8> {
    be_bytes(width) + be_bytes(height) + be_bytes(payload.len() as u32) + payload
}

/// The payload length that the header at the start of `b` declares.
pub open spec fn declared_len(b: Seq<u8>) -> int {
    be_value(b.subrange(8, 12))
}

/// Whether `b` starts with a whole frame: a header and the payload it declares.
pub open spec fn holds_frame(b: Seq<u8>) -> bool {
    b.len() >= HEADER_LEN && b.len() - HEADER_LEN >= declared_len(b)
}

/// The frame at the start of `b`: width, height and payload.
pub open spec fn frame_of(b: Seq<u8>) -> Option<(u32, u32, Seq<u8>)> {
    if holds_frame(b) {
        Some(
            (
                be_value(b.subrange(0, 4)) as u32,
                be_value(b.subrange(4, 8)) as u32,
                b.subrange(HEADER_LEN as int, HEADER_LEN + declared_len(b)),
            ),
        )
    } else {
        None
    }
}

/// Relies on byteorder's `NetworkEndian::read_u32`: the first four bytes of
/// `buf` read as a big-endian integer (it panics on fewer than four).
#[verifier::external_body]
fn read_be_u32(buf: &[u8]) -> (r: u32)
    requires
        buf@.len() >= 4,
    ensures
        r as int == be_value(buf@),
{
    byteorder::NetworkEndian::read_u32(buf)
}

/// Relies on byteorder's `NetworkEndian::write_u32`: `n` written as four
/// big-endian bytes.
#[verifier::external_body]
fn write_be_u32(n: u32) -> (r: [u8; 4])
    ensures
        r@ == be_bytes(n),
{
    let mut buf = [0u8; 4];
    byteorder::NetworkEndian::write_u32(&mut buf, n);
    buf
}

/// Reading back the big-endian bytes of a word gives the word.
pub proof fn lemma_be_value_of_bytes(n: u32)
    ensures
        be_value(be_bytes(n)) == n as int,
{
    let b = be_bytes(n);
    let x = n as int;
    assert(b[0] as int == x / 0x100_0000);
    assert(b[1] as int == (x / 0x1_0000) % 0x100);
    assert(b[2] as int == (x / 0x100) % 0x100);
    assert(b[3] as int == x % 0x100);
    assert(x / 0x100_0000 * 0x100_0000 + (x / 0x1_0000) % 0x100 * 0x1_0000 + (x / 0x100) % 0x100
        * 0x100 + x % 0x100 == x) by (nonlinear_arith)
        requires
            0 <= x < 0x1_0000_0000,
    ;
}

fn push_word(out: &mut Vec<u8>, n: u32)
    ensures
        final(out)@ == old(out)@ + be_bytes(n),
{
    let b = write_be_u32(n);
    out.push(b[0]);
    out.push(b[1]);
    out.push(b[2]);
    out.push(b[3]);
    assert(final(out)@ =~= old(out)@ + be_bytes(n));
}

/// The four big-endian bytes of one word, as sent for a camera request.
pub fn encode_u32(n: u32) -> (r: Vec<u8>)
    ensures
        r@ == be_bytes(n),
{
    let mut out: Vec<u8> = Vec::new();
    push_word(&mut out, n);
    assert(out@ =~= be_bytes(n));
    out
}

/// The word spelled by the first four bytes; an error where fewer arrived.
pub fn decode_u32(bytes: &[u8]) -> (r: Result<u32, GError>)
    ensures
        bytes@.len() < 4 ==> r == Err::<u32, GError>(GError::IpcError),
        bytes@.len() >= 4 ==> (r matches Ok(n) && n as int == be_value(bytes@)),
{
    if bytes.len() < 4 {
        Err(GError::IpcError)
    } else {
        Ok(read_be_u32(bytes))
    }
}

/// The handshake: each calibration dimension as a big-endian word, with no
/// framing around them.
pub fn encode_handshake(words: &[u32]) -> (r: Vec<u8>)
    ensures
        r@ == words_bytes(words@),
{
    let mut out: Vec<u8> = Vec::new();
    let mut i: usize = 0;
    while i < words.len()
        invariant
            i <= words@.len(),
            out@ == words_bytes(words@.subrange(0, i as int)),
        decreases words@.len() - i,
    {
        push_word(&mut out, words[i]);
        assert(words@.subrange(0, i + 1).drop_last() =~= words@.subrange(0, i as int));
        i = i + 1;
    }
    assert(words@.subrange(0, words@.len() as int) =~= words@);
    out
}

/// The bytes of `frame` on the wire. Fails where the payload is too long for
/// its length to be written as a `u32`.
pub fn encode_frame(frame: &ImageFrame) -> (r: Result<Vec<u8>, GError>)
    ensures
        frame.frame@.len() > u32::MAX ==> r == Err::<Vec<u8>, GError>(GError::IpcError),
        frame.frame@.len() <= u32::MAX ==> (r matches Ok(bytes) && bytes@ == frame_bytes(
            frame.width,
            frame.height,
            frame.frame@,
        )),
{
    let len = frame.frame.len();
    if len > u32::MAX as usize {
        return Err(GError::IpcError);
    }
    let mut out: Vec<u8> = Vec::new();
    push_word(&mut out, frame.width);
    push_word(&mut out, frame.height);
    push_word(&mut out, len as u32);
    out.extend_from_slice(frame.frame.as_slice());
    assert(out@ =~= frame_bytes(frame.width, frame.height, frame.frame@));
    Ok(out)
}

/// The header at the start of `bytes`: width, height and payload length.
pub fn decode_header(bytes: &[u8]) -> (r: Result<(u32, u32, u32), GError>)
    ensures
        bytes@.len() < HEADER_LEN ==> r == Err::<(u32, u32, u32), GError>(GError::IpcError),
        bytes@.len() >= HEADER_LEN ==> (r matches Ok((w, h, n)) && w as int == be_value(
            bytes@.subrange(0, 4),
        ) && h as int == be_value(bytes@.subrange(4, 8)) && n as int == declared_len(bytes@)),
{
    if bytes.len() < HEADER_LEN {
        return Err(GError::IpcError);
    }
    let w = read_be_u32(vstd::slice::slice_subrange(bytes, 0, 4));
    let h = read_be_u32(vstd::slice::slice_subrange(bytes, 4, 8));
    let n = read_be_u32(vstd::slice::slice_subrange(bytes, 8, 12));
    Ok((w, h, n))
}

/// The frame at the start of `bytes`, with the number of bytes it takes up.
/// Fails where the header or the payload it declares is not all there.
pub fn decode_frame(bytes: &[u8]) -> (r: Result<(ImageFrame, usize), GError>)
    ensures
        !holds_frame(bytes@) ==> r == Err::<(ImageFrame, usize), GError>(GError::IpcError),
        holds_frame(bytes@) ==> (r matches Ok((f, used)) && frame_of(bytes@) == Some(
            (f.width, f.height, f.frame@),
        ) && used == HEADER_LEN + declared_len(bytes@)),
{
    let (w, h, n) = match decode_header(bytes) {
        Ok(t) => t,
        Err(e) => return Err(e),
    };
    let n = n as usize;
    if bytes.len() - HEADER_LEN < n {
        return Err(GError::IpcError);
    }
    let payload = vstd::slice::slice_to_vec(
        vstd::slice::slice_subrange(bytes, HEADER_LEN, HEADER_LEN + n),
    );
    Ok((ImageFrame { frame: payload, width: w, height: h }, HEADER_LEN + n))
}


/// Collects a payload of a declared length from reads of any size.
pub struct PayloadReader {
    expected: usize,
    data: Vec<u8>,
}

impl PayloadReader {
    /// The declared length.
    pub closed spec fn expected(&self) -> nat {
        self.expected as nat
    }

    /// The bytes collected so far.
    pub closed spec fn collected(&self) -> Seq<u8> {
        self.data@
    }

    /// Never more bytes than declared.
    pub open spec fn wf(&self) -> bool {
        self.collected().len() <= self.expected()
    }

    /// A reader for a payload of `expected` bytes, with nothing collected yet.
    pub fn new(expected: u32) -> (r: PayloadReader)
        ensures
            r.wf(),
            r.expected() == expected as nat,
            r.collected() == Seq::<u8>::empty(),
    {
        PayloadReader { expected: expected as usize, data: Vec::new() }
    }

    /// How many bytes are still missing.
    pub fn remaining(&self) -> (r: usize)
        requires
            self.wf(),
        ensures
            r == self.expected() - self.collected().len(),
    {
        self.expected - self.data.len()
    }

    /// Whether the whole payload has arrived.
    pub fn is_complete(&self) -> (r: bool)
        requires
            self.wf(),
        ensures
            r == (self.collected().len() == self.expected()),
    {
        self.data.len() == self.expected
    }

    /// How many bytes the next read should ask for, given a buffer of `cap`.
    pub fn next_read_len(&self, cap: usize) -> (r: usize)
        requires
            self.wf(),
        ensures
            r == if cap < self.expected() - self.collected().len() {
                cap as int
            } else {
                self.expected() - self.collected().len()
            },
    {
        let rem = self.remaining();
        if cap < rem {
            cap
        } else {
            rem
        }
    }

    /// Takes what `chunk` holds of the missing bytes and says how many it took.
    /// A read of nothing while bytes are missing is the end of the stream,
    /// which fails the transfer.
    pub fn feed(&mut self, chunk: &[u8]) -> (r: Result<usize, GError>)
        requires
            old(self).wf(),
        ensures
            final(self).wf(),
            final(self).expected() == old(self).expected(),
            ({
                let missing = old(self).expected() - old(self).collected().len();
                if missing > 0 && chunk@.len() == 0 {
                    r == Err::<usize, GError>(GError::IpcError) && final(self).collected()
                        == old(self).collected()
                } else {
                    let k = if chunk@.len() < missing {
                        chunk@.len() as int
                    } else {
                        missing
                    };
                    r == Ok::<usize, GError>(k as usize) && final(self).collected()
                        == old(self).collected() + chunk@.subrange(0, k)
                }
            }),
    {
        let missing = self.expected - self.data.len();
        if missing > 0 && chunk.len() == 0 {
            return Err(GError::IpcError);
        }
        let k = if chunk.len() < missing {
            chunk.len()
        } else {
            missing
        };
        self.data.extend_from_slice(vstd::slice::slice_subrange(chunk, 0, k));
        assert(self.data@ =~= old(self).data@ + chunk@.subrange(0, k as int));
        Ok(k)
    }

    /// The payload, once it has fully arrived.
    pub fn finish(self) -> (r: Result<Vec<u8>, GError>)
        requires
            self.wf(),
        ensures
            self.collected().len() == self.expected() ==> (r matches Ok(v) && v@
                == self.collected()),
            self.collected().len() < self.expected() ==> r == Err::<Vec<u8>, GError>(
                GError::IpcError,
            ),
    {
        if self.data.len() == self.expected {
            Ok(self.data)
        } else {
            Err(GError::IpcError)
        }
    }
}

/// Decoding the bytes of a frame gives back its width, height and payload.
pub proof fn lemma_frame_round_trip(width: u32, height: u32, payload: Seq<u8>)
    requires
        payload.len() <= u32::MAX,
    ensures
        frame_of(frame_bytes(width, height, payload)) == Some((width, height, payload)),
{
    let b = frame_bytes(width, height, payload);
    lemma_be_value_of_bytes(width);
    lemma_be_value_of_bytes(height);
    lemma_be_value_of_bytes(payload.len() as u32);
    assert(b.subrange(0, 4) =~= be_bytes(width));
    assert(b.subrange(4, 8) =~= be_bytes(height));
    assert(b.subrange(8, 12) =~= be_bytes(payload.len() as u32));
    assert(b.subrange(12, 12 + payload.len() as int) =~= payload);
}

} // verus!
