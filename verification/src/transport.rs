//! Frame transport: a compressed frame on a byte stream.
//!
//! On the wire a frame is its length as four bytes, most significant first,
//! then that many bytes of payload. The same byte order is written and read.
//! A stream hands bytes over in pieces of any size; the reader puts them
//! together and takes no byte beyond the end of the frame.

use crate::error::ProtocolError;
use vstd::prelude::*;
use vstd::slice::slice_subrange;

verus! {

/// The number of bytes of the length field.
pub const HEADER_LEN: usize = 4;

/// The longest payload that the length field can announce.
pub const MAX_PAYLOAD_LEN: u64 = 0xffff_ffff;

/// The length field for a payload of `n` bytes: `n` in base 256, most
/// significant byte first.
pub open spec fn length_field(n: nat) -> Seq<u8> {
    seq![
        (n / 0x100_0000 % 0x100) as u8,
        (n / 0x1_0000 % 0x100) as u8,
        (n / 0x100 % 0x100) as u8,
        (n % 0x100) as u8,
    ]
}

/// The payload length that the first four bytes of `stream` announce.
pub open spec fn announced(stream: Seq<u8>) -> nat {
    (stream[0] * 0x100_0000 + stream[1] * 0x1_0000 + stream[2] * 0x100 + stream[3]) as nat
}

/// A frame on the wire: the length field, then the payload.
pub open spec fn framed(payload: Seq<u8>) -> Seq<u8> {
    length_field(payload.len()) + payload
}

/// The part of `stream` that belongs to its first frame: all of it while the
/// frame is not whole, else the frame and no byte more.
pub open spec fn frame_prefix(stream: Seq<u8>) -> Seq<u8> {
    if stream.len() < HEADER_LEN || stream.len() <= HEADER_LEN + announced(stream) {
        stream
    } else {
        stream.subrange(0, HEADER_LEN + announced(stream))
    }
}

/// Whether `received` is one whole frame.
pub open spec fn is_whole_frame(received: Seq<u8>) -> bool {
    received.len() >= HEADER_LEN && received.len() == HEADER_LEN + announced(received)
}

/// How many bytes `received` still lacks to be a whole frame.
pub open spec fn missing(received: Seq<u8>) -> nat {
    if received.len() < HEADER_LEN {
        (HEADER_LEN - received.len()) as nat
    } else {
        (HEADER_LEN + announced(received) - received.len()) as nat
    }
}

/// The payload of a whole frame.
pub open spec fn payload_of(received: Seq<u8>) -> Seq<u8> {
    received.subrange(HEADER_LEN as int, received.len() as int)
}

/// The pieces `chunks` put end to end.
pub open spec fn joined(chunks: Seq<Seq<u8>>) -> Seq<u8>
    decreases chunks.len(),
{
    if chunks.len() == 0 {
        Seq::empty()
    } else {
        chunks[0] + joined(chunks.drop_first())
    }
}

/// What a reader holds after the pieces `chunks` have come in one by one,
/// when it held `received` before.
pub open spec fn absorbed(received: Seq<u8>, chunks: Seq<Seq<u8>>) -> Seq<u8>
    decreases chunks.len(),
{
    if chunks.len() == 0 {
        received
    } else {
        absorbed(frame_prefix(received + chunks[0]), chunks.drop_first())
    }
}

/// The length field announces the length it was made for.
pub proof fn lemma_length_field(n: nat)
    requires
        n <= MAX_PAYLOAD_LEN,
    ensures
        length_field(n).len() == HEADER_LEN,
        announced(length_field(n)) == n,
{
    let low = n / 0x100;
    let mid = low / 0x100;
    let top = mid / 0x100;
    assert(n == low * 0x100 + n % 0x100);
    assert(low == mid * 0x100 + low % 0x100);
    assert(mid == top * 0x100 + mid % 0x100);
    assert(n / 0x1_0000 == mid);
    assert(n / 0x100_0000 == top);
    assert(top < 0x100);
}

/// A framed payload is one whole frame, and its payload is the payload.
pub proof fn lemma_framed_whole(payload: Seq<u8>)
    requires
        payload.len() <= MAX_PAYLOAD_LEN,
    ensures
        is_whole_frame(framed(payload)),
        payload_of(framed(payload)) == payload,
{
    lemma_length_field(payload.len());
    let f = framed(payload);
    assert(f[0] == length_field(payload.len())[0]);
    assert(f[1] == length_field(payload.len())[1]);
    assert(f[2] == length_field(payload.len())[2]);
    assert(f[3] == length_field(payload.len())[3]);
    assert(payload_of(f) =~= payload);
}

/// What follows a whole frame on the stream is no part of it.
pub proof fn lemma_prefix_of_whole(frame: Seq<u8>, rest: Seq<u8>)
    requires
        is_whole_frame(frame),
    ensures
        frame_prefix(frame + rest) == frame,
{
    let s = frame + rest;
    assert(s[0] == frame[0] && s[1] == frame[1] && s[2] == frame[2] && s[3] == frame[3]);
    assert(frame_prefix(s) =~= frame);
}

/// Taking a frame's part of a stream piece by piece is taking it at once.
pub proof fn lemma_prefix_step(stream: Seq<u8>, chunk: Seq<u8>)
    ensures
        frame_prefix(frame_prefix(stream) + chunk) == frame_prefix(stream + chunk),
{
    let whole = stream + chunk;
    if stream.len() >= HEADER_LEN {
        let kept = frame_prefix(stream);
        let next = kept + chunk;
        assert(whole[0] == stream[0] && whole[1] == stream[1] && whole[2] == stream[2]
            && whole[3] == stream[3]);
        assert(kept[0] == stream[0] && kept[1] == stream[1] && kept[2] == stream[2] && kept[3]
            == stream[3]);
        assert(next[0] == stream[0] && next[1] == stream[1] && next[2] == stream[2] && next[3]
            == stream[3]);
        assert(frame_prefix(next) =~= frame_prefix(whole));
    } else {
        assert(frame_prefix(stream) == stream);
    }
}

/// A reader that takes pieces one by one holds the first frame's part of all
/// that came.
pub proof fn lemma_absorbed(stream: Seq<u8>, chunks: Seq<Seq<u8>>)
    ensures
        absorbed(frame_prefix(stream), chunks) == frame_prefix(stream + joined(chunks)),
    decreases chunks.len(),
{
    if chunks.len() == 0 {
        assert(stream + joined(chunks) =~= stream);
    } else {
        lemma_prefix_step(stream, chunks[0]);
        lemma_absorbed(stream + chunks[0], chunks.drop_first());
        assert(stream + chunks[0] + joined(chunks.drop_first()) =~= stream + joined(chunks));
    }
}

/// A frame that was sent is received as it was, however the stream cuts it
/// into pieces and whatever follows it: the reader ends with one whole frame
/// whose payload is the payload sent.
pub proof fn lemma_framing_round_trip(payload: Seq<u8>, rest: Seq<u8>, chunks: Seq<Seq<u8>>)
    requires
        payload.len() <= MAX_PAYLOAD_LEN,
        joined(chunks) == framed(payload) + rest,
    ensures
        absorbed(Seq::empty(), chunks) == framed(payload),
        is_whole_frame(absorbed(Seq::empty(), chunks)),
        payload_of(absorbed(Seq::empty(), chunks)) == payload,
{
    let empty = Seq::<u8>::empty();
    lemma_absorbed(empty, chunks);
    assert(empty + joined(chunks) =~= joined(chunks));
    lemma_framed_whole(payload);
    lemma_prefix_of_whole(framed(payload), rest);
}

/// Four bytes are the length field of the length they announce.
pub proof fn lemma_announced_field(field: Seq<u8>)
    requires
        field.len() == HEADER_LEN,
    ensures
        announced(field) <= MAX_PAYLOAD_LEN,
        length_field(announced(field)) == field,
{
    let n = announced(field);
    let low = field[0] * 0x1_0000 + field[1] * 0x100 + field[2];
    let mid = field[0] * 0x100 + field[1];
    assert(n == low * 0x100 + field[3]);
    assert(n / 0x100 == low && n % 0x100 == field[3]);
    assert(low == mid * 0x100 + field[2]);
    assert(n / 0x1_0000 == mid);
    assert(n / 0x100_0000 == field[0]);
    assert(length_field(n) =~= field);
}

/// Reads the length that the four bytes at `at` announce.
pub(crate) fn read_length(bytes: &[u8], at: usize) -> (n: u32)
    requires
        at + HEADER_LEN <= bytes@.len(),
    ensures
        n == announced(bytes@.subrange(at as int, at + HEADER_LEN)),
{
    assert(bytes@.len() <= usize::MAX) by {
        vstd::slice::axiom_spec_len(bytes);
    }
    let b0 = bytes[at] as u32;
    let b1 = bytes[at + 1] as u32;
    let b2 = bytes[at + 2] as u32;
    let b3 = bytes[at + 3] as u32;
    b0 * 0x100_0000 + b1 * 0x1_0000 + b2 * 0x100 + b3
}

/// Writes the length field for a payload of `n` bytes.
pub(crate) fn put_length(n: u32, out: &mut Vec<u8>)
    ensures
        final(out)@ == old(out)@ + length_field(n as nat),
{
    out.push((n / 0x100_0000) as u8);
    out.push((n / 0x1_0000 % 0x100) as u8);
    out.push((n / 0x100 % 0x100) as u8);
    out.push((n % 0x100) as u8);
    assert(final(out)@ =~= old(out)@ + length_field(n as nat));
}

/// Builds the bytes to send for one compressed frame.
///
/// `Ok` with the framed payload when its length fits the length field;
/// `FrameTooLarge` when it does not.
pub fn frame_packet(payload: &[u8]) -> (r: Result<Vec<u8>, ProtocolError>)
    ensures
        match r {
            Ok(packet) => payload@.len() <= MAX_PAYLOAD_LEN && packet@ == framed(payload@),
            Err(err) => err == ProtocolError::FrameTooLarge && payload@.len() > MAX_PAYLOAD_LEN,
        },
{
    let n = payload.len();
    if n as u64 > MAX_PAYLOAD_LEN {
        return Err(ProtocolError::FrameTooLarge);
    }
    let mut packet: Vec<u8> = Vec::new();
    put_length(n as u32, &mut packet);
    packet.extend_from_slice(payload);
    assert(packet@ =~= framed(payload@));
    Ok(packet)
}

/// The sending side: what is still to be written of the bytes to send. A
/// stream may take fewer bytes than it is handed; the writer keeps count until
/// all are out.
pub struct FrameWriter {
    packet: Vec<u8>,
    sent: usize,
}

impl FrameWriter {
    #[verifier::type_invariant]
    spec fn inv(&self) -> bool {
        self.sent <= self.packet@.len()
    }

    /// All the bytes of the frame on the wire.
    pub closed spec fn packet(&self) -> Seq<u8> {
        self.packet@
    }

    /// The bytes that the stream has taken so far.
    pub closed spec fn flushed(&self) -> Seq<u8> {
        self.packet@.subrange(0, self.sent as int)
    }

    /// The bytes that are still to be written.
    pub closed spec fn unsent(&self) -> Seq<u8> {
        self.packet@.subrange(self.sent as int, self.packet@.len() as int)
    }

    /// Starts sending `payload`: nothing is written yet.
    pub fn new(payload: &[u8]) -> (r: Result<FrameWriter, ProtocolError>)
        ensures
            match r {
                Ok(w) => payload@.len() <= MAX_PAYLOAD_LEN && w.packet() == framed(payload@)
                    && w.flushed() == Seq::<u8>::empty() && w.unsent() == framed(payload@),
                Err(err) => err == ProtocolError::FrameTooLarge && payload@.len()
                    > MAX_PAYLOAD_LEN,
            },
    {
        match frame_packet(payload) {
            Ok(packet) => {
                let w = FrameWriter { packet, sent: 0 };
                assert(w.flushed() =~= Seq::<u8>::empty());
                assert(w.unsent() =~= framed(payload@));
                Ok(w)
            },
            Err(err) => Err(err),
        }
    }

    /// Starts sending bytes that are ready for the wire: nothing is written
    /// yet.
    pub fn from_packet(packet: Vec<u8>) -> (w: FrameWriter)
        ensures
            w.packet() == packet@,
            w.flushed() == Seq::<u8>::empty(),
            w.unsent() == packet@,
    {
        let w = FrameWriter { packet, sent: 0 };
        assert(w.flushed() =~= Seq::<u8>::empty());
        assert(w.unsent() =~= packet@);
        w
    }

    /// The bytes to hand to the stream next.
    pub fn pending(&self) -> (bytes: &[u8])
        ensures
            bytes@ == self.unsent(),
    {
        proof {
            use_type_invariant(self);
        }
        slice_subrange(self.packet.as_slice(), self.sent, self.packet.len())
    }

    /// Whether the whole frame has been written.
    pub fn is_done(&self) -> (done: bool)
        ensures
            done == (self.unsent().len() == 0),
            done == (self.flushed() == self.packet()),
    {
        proof {
            use_type_invariant(self);
            if self.sent == self.packet@.len() {
                assert(self.flushed() =~= self.packet());
            }
        }
        self.sent == self.packet.len()
    }

    /// Notes that the stream took the first `written` of the pending bytes;
    /// a count beyond what was pending counts as all of it.
    pub fn advance(&mut self, written: usize)
        ensures
            final(self).packet() == old(self).packet(),
            final(self).flushed() + final(self).unsent() == old(self).packet(),
            final(self).flushed() == old(self).flushed() + old(self).unsent().take(
                if written <= old(self).unsent().len() {
                    written as int
                } else {
                    old(self).unsent().len() as int
                },
            ),
    {
        proof {
            use_type_invariant(&*self);
        }
        let left = self.packet.len() - self.sent;
        let step = if written <= left {
            written
        } else {
            left
        };
        self.sent = self.sent + step;
        assert(final(self).flushed() + final(self).unsent() =~= old(self).packet());
        assert(final(self).flushed() =~= old(self).flushed() + old(self).unsent().take(
            step as int,
        ));
    }
}

/// The receiving side of one frame: the bytes that have come so far.
pub struct FrameReader {
    buffer: Vec<u8>,
}

impl View for FrameReader {
    type V = Seq<u8>;

    /// The bytes received so far, length field included.
    closed spec fn view(&self) -> Seq<u8> {
        self.buffer@
    }
}

impl FrameReader {
    /// A reader never holds a byte beyond the end of its frame.
    pub open spec fn wf(&self) -> bool {
        frame_prefix(self@) == self@
    }

    /// A reader that has received nothing.
    pub fn new() -> (reader: FrameReader)
        ensures
            reader@ == Seq::<u8>::empty(),
            reader.wf(),
    {
        FrameReader { buffer: Vec::new() }
    }

    /// The payload length that the length field announces, once it is here.
    fn announced_len(&self) -> (n: u64)
        requires
            self.buffer@.len() >= HEADER_LEN,
        ensures
            n == announced(self.buffer@),
    {
        let b0 = self.buffer[0] as u64;
        let b1 = self.buffer[1] as u64;
        let b2 = self.buffer[2] as u64;
        let b3 = self.buffer[3] as u64;
        b0 * 0x100_0000 + b1 * 0x1_0000 + b2 * 0x100 + b3
    }

    /// How many bytes are still missing; zero when the frame is whole.
    pub fn wanted(&self) -> (n: u64)
        requires
            self.wf(),
        ensures
            n == missing(self@),
    {
        let have = self.buffer.len();
        if have < HEADER_LEN {
            (HEADER_LEN - have) as u64
        } else {
            HEADER_LEN as u64 + self.announced_len() - have as u64
        }
    }

    /// Whether the frame is whole.
    pub fn is_complete(&self) -> (done: bool)
        requires
            self.wf(),
        ensures
            done == is_whole_frame(self@),
    {
        self.wanted() == 0
    }

    /// Takes from `chunk` what belongs to the frame and says how many bytes
    /// that was: bytes beyond the end of the frame are left to the caller.
    pub fn push(&mut self, chunk: &[u8]) -> (taken: usize)
        requires
            old(self).wf(),
        ensures
            final(self).wf(),
            final(self)@ == frame_prefix(old(self)@ + chunk@),
            final(self)@ == old(self)@ + chunk@.take(taken as int),
            taken <= chunk@.len(),
            taken == chunk@.len() || is_whole_frame(final(self)@),
    {
        let ghost before = self.buffer@;
        let want = self.wanted();
        let head: usize = if (chunk.len() as u64) < want {
            chunk.len()
        } else {
            want as usize
        };
        if self.buffer.len() >= HEADER_LEN {
            // The length is known: take up to the end of the frame.
            self.buffer.extend_from_slice(slice_subrange(chunk, 0, head));
            proof {
                let s = before + chunk@;
                assert(s[0] == before[0] && s[1] == before[1] && s[2] == before[2] && s[3]
                    == before[3]);
                let now = self.buffer@;
                assert(now[0] == before[0] && now[1] == before[1] && now[2] == before[2]
                    && now[3] == before[3]);
                assert(now =~= frame_prefix(s));
                assert(now =~= before + chunk@.take(head as int));
            }
            return head;
        }
        // First what is missing of the length field.
        self.buffer.extend_from_slice(slice_subrange(chunk, 0, head));
        let ghost mid = self.buffer@;
        proof {
            assert(mid =~= before + chunk@.take(head as int));
            assert(mid.len() <= HEADER_LEN);
            assert(frame_prefix(mid) == mid) by {
                if mid.len() == HEADER_LEN {
                    assert(mid.len() <= HEADER_LEN + announced(mid));
                }
            }
        }
        if self.buffer.len() < HEADER_LEN {
            assert(mid =~= before + chunk@);
            return head;
        }
        // Then what the length field announces.
        let body_want = self.announced_len();
        let left = chunk.len() - head;
        let body: usize = if (left as u64) < body_want {
            left
        } else {
            body_want as usize
        };
        self.buffer.extend_from_slice(slice_subrange(chunk, head, head + body));
        proof {
            let s = before + chunk@;
            let now = self.buffer@;
            assert(now =~= before + chunk@.take(head + body));
            assert(s[0] == mid[0] && s[1] == mid[1] && s[2] == mid[2] && s[3] == mid[3]);
            assert(now[0] == mid[0] && now[1] == mid[1] && now[2] == mid[2] && now[3] == mid[3]);
            assert(now =~= frame_prefix(s));
        }
        head + body
    }

    /// Ends the reading, as when the stream has closed.
    ///
    /// `Ok` with the payload when the frame is whole; `IncompleteFrame` when
    /// bytes are still missing.
    pub fn finish(self) -> (r: Result<Vec<u8>, ProtocolError>)
        requires
            self.wf(),
        ensures
            match r {
                Ok(payload) => is_whole_frame(self@) && payload@ == payload_of(self@),
                Err(err) => err == ProtocolError::IncompleteFrame && !is_whole_frame(self@),
            },
    {
        if !self.is_complete() {
            return Err(ProtocolError::IncompleteFrame);
        }
        let n = self.buffer.len();
        let mut payload: Vec<u8> = Vec::new();
        payload.extend_from_slice(slice_subrange(self.buffer.as_slice(), HEADER_LEN, n));
        assert(payload@ =~= payload_of(self@));
        Ok(payload)
    }
}

/// Reads one frame from bytes that are all at hand.
///
/// `Ok` with the payload and the number of bytes that the frame took when
/// `bytes` starts with a whole frame; `IncompleteFrame` when it ends before
/// the frame does.
pub fn read_frame(bytes: &[u8]) -> (r: Result<(Vec<u8>, usize), ProtocolError>)
    ensures
        match r {
            Ok((payload, used)) => {
                &&& used <= bytes@.len()
                &&& bytes@.take(used as int) == frame_prefix(bytes@)
                &&& is_whole_frame(frame_prefix(bytes@))
                &&& payload@ == payload_of(frame_prefix(bytes@))
            },
            Err(err) => err == ProtocolError::IncompleteFrame && !is_whole_frame(
                frame_prefix(bytes@),
            ),
        },
{
    let mut reader = FrameReader::new();
    let used = reader.push(bytes);
    assert(Seq::<u8>::empty() + bytes@ =~= bytes@);
    assert(Seq::<u8>::empty() + bytes@.take(used as int) =~= bytes@.take(used as int));
    match reader.finish() {
        Ok(payload) => Ok((payload, used)),
        Err(err) => Err(err),
    }
}

} // verus!
