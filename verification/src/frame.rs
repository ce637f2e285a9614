//! Reassembly of COBS-delimited frames from a byte stream.
//!
//! Bytes arrive one at a time. Every nonzero byte is gathered in a frame
//! buffer of fixed capacity; a zero byte ends the frame, whose COBS decoding
//! is handed on. A frame that outgrows the buffer is discarded.

use vstd::prelude::*;

verus! {

/// Capacity of the frame buffer, in bytes.
pub const FRAME_CAPACITY: usize = 256;

/// The byte that delimits frames on the wire.
pub const FRAME_DELIMITER: u8 = 0;

#[verifier::external_type_specification]
#[verifier::external_body]
#[verifier::reject_recursive_types(T)]
pub struct ExHeaplessVec<T, const N: usize>(heapless::Vec<T, N>);

#[verifier::external_type_specification]
#[verifier::external_body]
pub struct ExCobsDecodeError(cobs::DecodeError);

/// The bytes that a frame buffer holds, in order.
pub uninterp spec fn frame_contents(buf: heapless::Vec<u8, 256>) -> Seq<u8>;

/// The COBS decoding of an encoded frame (its delimiter left off), or none
/// where the bytes are no valid encoding.
pub uninterp spec fn cobs_decoding(encoded: Seq<u8>) -> Option<Seq<u8>>;

/// `heapless::Vec::new`: an empty buffer.
#[verifier::external_body]
fn buffer_new() -> (buf: heapless::Vec<u8, 256>)
    ensures
        frame_contents(buf) == Seq::<u8>::empty(),
{
    heapless::Vec::new()
}

/// `heapless::Vec::push`: appends `byte` where the buffer holds fewer than
/// 256 bytes; otherwise hands `byte` back and leaves the buffer as it was.
/// It checks the length before writing and does not panic.
#[verifier::external_body]
fn buffer_push(buf: &mut heapless::Vec<u8, 256>, byte: u8) -> (r: Result<(), u8>)
    ensures
        frame_contents(*old(buf)).len() < 256 ==> r is Ok && frame_contents(*final(buf))
            == frame_contents(*old(buf)).push(byte),
        frame_contents(*old(buf)).len() >= 256 ==> (r matches Err(b) && b == byte)
            && frame_contents(*final(buf)) == frame_contents(*old(buf)),
    no_unwind
{
    buf.push(byte)
}

/// `heapless::Vec::clear`: empties the buffer; it does not panic.
#[verifier::external_body]
fn buffer_clear(buf: &mut heapless::Vec<u8, 256>)
    ensures
        frame_contents(*final(buf)) == Seq::<u8>::empty(),
    no_unwind
{
    buf.clear()
}

/// `heapless::Vec::as_slice`, copied out: the bytes the buffer holds.
#[verifier::external_body]
fn buffer_bytes(buf: &heapless::Vec<u8, 256>) -> (bytes: Vec<u8>)
    ensures
        bytes@ == frame_contents(*buf),
{
    buf.as_slice().to_vec()
}

/// `cobs::decode_in_place`: decodes the frame in `buf` where it stands. On
/// success the decoded bytes are the first `n` of the buffer, and there are
/// no more of them than encoded bytes; an empty frame is refused.
#[verifier::external_body]
fn cobs_decode_in_place(buf: &mut Vec<u8>) -> (r: Result<usize, cobs::DecodeError>)
    ensures
        final(buf)@.len() == old(buf)@.len(),
        cobs_decoding(old(buf)@) == (match r {
            Ok(n) => Some(final(buf)@.take(n as int)),
            Err(_) => None::<Seq<u8>>,
        }),
        r matches Ok(n) ==> n <= old(buf)@.len(),
        old(buf)@.len() == 0 ==> r is Err,
{
    cobs::decode_in_place(buf.as_mut_slice())
}

/// Why a frame could not be decoded.
#[derive(Debug, Clone, Copy, PartialEq, Eq, Structural)]
pub enum FrameError {
    /// The bytes are no valid COBS encoding (an empty frame among them).
    InvalidEncoding,
}

/// The buffer after gathering one more nonzero byte: the byte is appended
/// where there is room; a full buffer is discarded together with the byte.
pub open spec fn spec_gather(buf: Seq<u8>, byte: u8) -> Seq<u8> {
    if buf.len() < FRAME_CAPACITY {
        buf.push(byte)
    } else {
        Seq::empty()
    }
}

/// What one received byte does to a reader holding `buf`: the buffer after
/// it, and the decoded frame that it completes, if any. A delimiter whose
/// frame decodes hands the decoding on and empties the buffer; one whose
/// frame does not decode leaves the buffer as it was.
pub open spec fn spec_on_byte(buf: Seq<u8>, byte: u8) -> (Seq<u8>, Option<Seq<u8>>) {
    if byte == FRAME_DELIMITER {
        match cobs_decoding(buf) {
            Some(decoded) => (Seq::empty(), Some(decoded)),
            None => (buf, None),
        }
    } else {
        (spec_gather(buf, byte), None)
    }
}

/// The buffer after receiving `bytes` in order, starting from `buf`.
pub open spec fn spec_feed(buf: Seq<u8>, bytes: Seq<u8>) -> Seq<u8>
    decreases bytes.len(),
{
    if bytes.len() == 0 {
        buf
    } else {
        spec_feed(spec_on_byte(buf, bytes[0]).0, bytes.drop_first())
    }
}

/// Decodes one COBS-encoded frame, its delimiter left off.
pub fn decode_frame(encoded: Vec<u8>) -> (r: Result<Vec<u8>, FrameError>)
    ensures
        match r {
            Ok(decoded) => cobs_decoding(encoded@) == Some(decoded@) && decoded@.len()
                <= encoded@.len(),
            Err(_) => cobs_decoding(encoded@) is None,
        },
        encoded@.len() == 0 ==> r is Err,
{
    let mut buf = encoded;
    match cobs_decode_in_place(&mut buf) {
        Ok(n) => {
            buf.truncate(n);
            Ok(buf)
        },
        Err(_) => Err(FrameError::InvalidEncoding),
    }
}

/// Gathers the bytes of one frame and decodes the frame at its delimiter.
pub struct FrameReader {
    frame: heapless::Vec<u8, 256>,
}

impl View for FrameReader {
    type V = Seq<u8>;

    closed spec fn view(&self) -> Seq<u8> {
        frame_contents(self.frame)
    }
}

impl FrameReader {
    #[verifier::type_invariant]
    spec fn within_capacity(self) -> bool {
        frame_contents(self.frame).len() <= FRAME_CAPACITY
    }

    /// A reader with nothing gathered.
    pub fn new() -> (r: FrameReader)
        ensures
            r@ == Seq::<u8>::empty(),
    {
        FrameReader { frame: buffer_new() }
    }

    /// The bytes gathered since the last frame.
    pub fn pending(&self) -> (bytes: Vec<u8>)
        ensures
            bytes@ == self@,
            bytes@.len() <= FRAME_CAPACITY,
    {
        proof {
            use_type_invariant(self);
        }
        buffer_bytes(&self.frame)
    }

    /// Takes the decoding of the gathered frame: a decoded frame empties the
    /// buffer and is handed on; an undecodable one leaves the buffer as it was.
    pub fn finish_frame(&mut self, decoded: Result<Vec<u8>, FrameError>) -> (r: Option<Vec<u8>>)
        ensures
            match decoded {
                Ok(d) => final(self)@ == Seq::<u8>::empty() && r == Some(d),
                Err(_) => final(self)@ == old(self)@ && r is None,
            },
    {
        match decoded {
            Ok(d) => {
                buffer_clear(&mut self.frame);
                Some(d)
            },
            Err(_) => None,
        }
    }

    /// Receives one byte. A nonzero byte is gathered, or, where the buffer is
    /// full, discarded with the whole frame. A zero byte ends the frame: its
    /// COBS decoding is returned and the buffer emptied, or, where the frame
    /// does not decode, nothing is returned and the buffer kept.
    pub fn on_byte(&mut self, byte: u8) -> (r: Option<Vec<u8>>)
        ensures
            final(self)@.len() <= FRAME_CAPACITY,
            final(self)@ == spec_on_byte(old(self)@, byte).0,
            spec_on_byte(old(self)@, byte).1 == (match r {
                Some(d) => Some(d@),
                None => None::<Seq<u8>>,
            }),
            byte == FRAME_DELIMITER && old(self)@.len() == 0 ==> r is None && final(self)@.len()
                == 0,
            r matches Some(d) ==> d@.len() <= old(self)@.len(),
            byte != FRAME_DELIMITER ==> r is None,
            byte != FRAME_DELIMITER && old(self)@.len() < FRAME_CAPACITY ==> final(self)@ == old(
                self,
            )@.push(byte),
            byte != FRAME_DELIMITER && old(self)@.len() >= FRAME_CAPACITY ==> final(self)@.len()
                == 0,
            byte == FRAME_DELIMITER ==> (match r {
                Some(d) => cobs_decoding(old(self)@) == Some(d@) && final(self)@.len() == 0,
                None => cobs_decoding(old(self)@) is None && final(self)@ == old(self)@,
            }),
    {
        proof {
            use_type_invariant(&*self);
        }
        if byte == FRAME_DELIMITER {
            let encoded = buffer_bytes(&self.frame);
            let decoded = decode_frame(encoded);
            proof {
                if old(self)@.len() == 0 {
                    assert(cobs_decoding(old(self)@) is None);
                }
            }
            self.finish_frame(decoded)
        } else {
            if buffer_push(&mut self.frame, byte).is_err() {
                buffer_clear(&mut self.frame);
            }
            None
        }
    }

    /// A failed read from the link: the frame in progress is dropped.
    pub fn on_read_error(&mut self)
        ensures
            final(self)@ == Seq::<u8>::empty(),
    {
        buffer_clear(&mut self.frame);
    }
}

/// Nonzero bytes that fit in the buffer are gathered in order.
pub proof fn lemma_feed_gathers(buf: Seq<u8>, bytes: Seq<u8>)
    requires
        buf.len() + bytes.len() <= FRAME_CAPACITY,
        forall|i: int| 0 <= i < bytes.len() ==> bytes[i] != FRAME_DELIMITER,
    ensures
        spec_feed(buf, bytes) == buf + bytes,
    decreases bytes.len(),
{
    if bytes.len() == 0 {
        assert(buf + bytes =~= buf);
    } else {
        let next = buf.push(bytes[0]);
        assert(spec_on_byte(buf, bytes[0]).0 == next);
        lemma_feed_gathers(next, bytes.drop_first());
        assert(next + bytes.drop_first() =~= buf + bytes);
    }
}

/// A frame of at most 256 nonzero bytes sent to a reader with nothing
/// gathered, then its delimiter, yields exactly the COBS decoding of the
/// frame and leaves the reader empty; where the frame does not decode,
/// nothing is yielded and its bytes stay gathered.
pub proof fn lemma_frame_round_trip(frame: Seq<u8>)
    requires
        frame.len() <= FRAME_CAPACITY,
        forall|i: int| 0 <= i < frame.len() ==> frame[i] != FRAME_DELIMITER,
    ensures
        spec_on_byte(spec_feed(Seq::empty(), frame), FRAME_DELIMITER) == (match cobs_decoding(
            frame,
        ) {
            Some(decoded) => (Seq::<u8>::empty(), Some(decoded)),
            None => (frame, None::<Seq<u8>>),
        }),
{
    lemma_feed_gathers(Seq::empty(), frame);
    assert(Seq::<u8>::empty() + frame =~= frame);
}

/// A run of 257 nonzero bytes overflows the buffer: the frame is dropped and
/// the reader holds nothing.
pub proof fn lemma_overlong_frame_dropped(run: Seq<u8>)
    requires
        run.len() == FRAME_CAPACITY + 1,
        forall|i: int| 0 <= i < run.len() ==> run[i] != FRAME_DELIMITER,
    ensures
        spec_feed(Seq::empty(), run) == Seq::<u8>::empty(),
{
    let head = run.take(FRAME_CAPACITY as int);
    let last = seq![run[FRAME_CAPACITY as int]];
    assert forall|i: int| 0 <= i < head.len() implies head[i] != FRAME_DELIMITER by {
        assert(head[i] == run[i]);
    }
    lemma_feed_gathers(Seq::empty(), head);
    assert(Seq::<u8>::empty() + head =~= head);
    lemma_feed_split(Seq::empty(), head, last);
    assert(head + last =~= run);
    assert(spec_on_byte(head, run[FRAME_CAPACITY as int]).0 == Seq::<u8>::empty());
    assert(last.drop_first() =~= Seq::<u8>::empty());
    assert(spec_feed(head, last) == spec_feed(Seq::<u8>::empty(), last.drop_first()));
}

/// Receiving `a` then `b` is receiving `a + b`.
pub proof fn lemma_feed_split(buf: Seq<u8>, a: Seq<u8>, b: Seq<u8>)
    ensures
        spec_feed(spec_feed(buf, a), b) == spec_feed(buf, a + b),
    decreases a.len(),
{
    if a.len() == 0 {
        assert(a + b =~= b);
    } else {
        let next = spec_on_byte(buf, a[0]).0;
        lemma_feed_split(next, a.drop_first(), b);
        assert((a + b).drop_first() =~= a.drop_first() + b);
        assert((a + b)[0] == a[0]);
    }
}

/// Only a delimiter completes a frame. A nonzero byte completes none: it is
/// appended where the buffer has room, and a full buffer is emptied. A
/// delimiter hands on exactly the COBS decoding of the gathered bytes,
/// emptying the buffer, or, where they do not decode, nothing, keeping them.
pub proof fn lemma_only_delimiter_completes_frame(buf: Seq<u8>, byte: u8)
    ensures
        byte != FRAME_DELIMITER ==> spec_on_byte(buf, byte).1 is None,
        byte != FRAME_DELIMITER && buf.len() < FRAME_CAPACITY ==> spec_on_byte(buf, byte).0
            == buf.push(byte),
        byte != FRAME_DELIMITER && buf.len() >= FRAME_CAPACITY ==> spec_on_byte(buf, byte).0.len()
            == 0,
        byte == FRAME_DELIMITER ==> spec_on_byte(buf, byte).1 == cobs_decoding(buf),
        byte == FRAME_DELIMITER && cobs_decoding(buf) is Some ==> spec_on_byte(buf, byte).0.len()
            == 0,
        byte == FRAME_DELIMITER && cobs_decoding(buf) is None ==> spec_on_byte(buf, byte).0 == buf,
{
}

} // verus!
