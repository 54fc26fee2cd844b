//! The lossless frame format: a raw frame as bytes, and back.
//!
//! A compressed frame of this format is the signature `RDF1`, the width and
//! the height as four bytes each, most significant first, and then the pixels
//! row by row, red, green and blue of each. Nothing is lost, and the same
//! frame always gives the same bytes. Lossy formats are the work of an image
//! codec outside this library; their bytes do not start with the signature.

use crate::error::ProtocolError;
use crate::pixel::{flat, lemma_flat, lemma_flat_injective, put_flat, take_flat, FrameView, PixelFrame};
use crate::text::{ascii, matches_at, put_text, text_at};
use crate::transport::{
    announced, lemma_announced_field, lemma_length_field, length_field, put_length, read_length,
};
use vstd::prelude::*;
use vstd::string::*;

verus! {

/// The number of bytes before the pixels: signature, width and height.
pub const PREAMBLE_LEN: usize = 12;

/// The signature that starts every frame of the lossless format.
pub open spec fn signature() -> Seq<u8> {
    ascii("RDF1"@)
}

/// The bytes of the frame `v` in the lossless format.
pub open spec fn encoded(v: FrameView) -> Seq<u8> {
    signature() + length_field(v.width) + length_field(v.height) + flat(v.pixels, false)
}

/// What bytes are read as: the frame that they are the bytes of, or
/// `CorruptFrame` when they are the bytes of none.
pub open spec fn decoded(bytes: Seq<u8>) -> Result<FrameView, ProtocolError> {
    if exists|v: FrameView| v.valid() && encoded(v) == bytes {
        Ok(choose|v: FrameView| v.valid() && encoded(v) == bytes)
    } else {
        Err(ProtocolError::CorruptFrame)
    }
}

/// The signature is four ASCII characters.
proof fn lemma_signature()
    ensures
        is_ascii("RDF1"),
        signature().len() == 4,
{
    reveal_strlit("RDF1");
}

/// Where each part of an encoded frame stands.
pub proof fn lemma_encoded_parts(v: FrameView)
    requires
        v.valid(),
    ensures
        encoded(v).len() == PREAMBLE_LEN + 3 * (v.width * v.height),
        matches_at(encoded(v), 0, signature()),
        announced(encoded(v).subrange(4, 8)) == v.width,
        announced(encoded(v).subrange(8, 12)) == v.height,
        encoded(v).subrange(PREAMBLE_LEN as int, encoded(v).len() as int) == flat(
            v.pixels,
            false,
        ),
{
    lemma_signature();
    lemma_length_field(v.width);
    lemma_length_field(v.height);
    lemma_flat(v.pixels, false);
    let e = encoded(v);
    assert(e.subrange(0, 4) =~= signature());
    assert(e.subrange(4, 8) =~= length_field(v.width));
    assert(e.subrange(8, 12) =~= length_field(v.height));
    assert(e.subrange(12, e.len() as int) =~= flat(v.pixels, false));
}

/// Two frames with the same bytes are the same frame.
pub proof fn lemma_encoded_injective(a: FrameView, b: FrameView)
    requires
        a.valid(),
        b.valid(),
        encoded(a) == encoded(b),
    ensures
        a == b,
{
    lemma_encoded_parts(a);
    lemma_encoded_parts(b);
    lemma_flat_injective(a.pixels, b.pixels, false);
}

/// Decoding what was encoded gives the frame back: the same width, the same
/// height and the same pixels.
pub proof fn lemma_codec_round_trip(v: FrameView)
    requires
        v.valid(),
    ensures
        decoded(encoded(v)) == Ok::<FrameView, ProtocolError>(v),
{
    let found = choose|w: FrameView| w.valid() && encoded(w) == encoded(v);
    lemma_encoded_injective(found, v);
}

/// Tests whether `bytes` start with the signature of the lossless format.
pub fn has_signature(bytes: &[u8]) -> (r: bool)
    ensures
        r == matches_at(bytes@, 0, signature()),
{
    proof {
        lemma_signature();
    }
    text_at(bytes, 0, "RDF1")
}

impl PixelFrame {
    /// Encodes the frame in the lossless format.
    pub fn to_raw_compressed(&self) -> (bytes: Vec<u8>)
        ensures
            bytes@ == encoded(self@),
    {
        let mut bytes: Vec<u8> = Vec::new();
        proof {
            lemma_signature();
        }
        put_text(&mut bytes, "RDF1");
        put_length(self.width(), &mut bytes);
        put_length(self.height(), &mut bytes);
        put_flat(self.pixels(), false, &mut bytes);
        assert(bytes@ =~= encoded(self@));
        bytes
    }

    /// Decodes a frame of the lossless format.
    ///
    /// `Ok` exactly when `bytes` are the bytes of a frame, which is then the
    /// result; `CorruptFrame` for every other byte string.
    pub fn from_raw_compressed(bytes: &[u8]) -> (r: Result<PixelFrame, ProtocolError>)
        ensures
            match r {
                Ok(frame) => frame@.valid() && encoded(frame@) == bytes@ && decoded(bytes@) == Ok::<
                    FrameView,
                    ProtocolError,
                >(frame@),
                Err(err) => err == ProtocolError::CorruptFrame && decoded(bytes@) is Err,
            },
    {
        let n = bytes.len();
        proof {
            assert forall|v: FrameView| v.valid() && encoded(v) == bytes@ implies n
                >= PREAMBLE_LEN && matches_at(bytes@, 0, signature()) && announced(
                bytes@.subrange(4, 8),
            ) == v.width && announced(bytes@.subrange(8, 12)) == v.height && n - PREAMBLE_LEN == 3
                * (v.width * v.height) by {
                lemma_encoded_parts(v);
            }
        }
        if n < PREAMBLE_LEN || !has_signature(bytes) {
            return Err(ProtocolError::CorruptFrame);
        }
        let width = read_length(bytes, 4);
        let height = read_length(bytes, 8);
        assert(width * height <= u64::MAX) by (nonlinear_arith)
            requires
                width <= u32::MAX,
                height <= u32::MAX,
        ;
        let places: u64 = width as u64 * height as u64;
        let body = n - PREAMBLE_LEN;
        if body % 3 != 0 || (body / 3) as u64 != places {
            return Err(ProtocolError::CorruptFrame);
        }
        let pixels = take_flat(bytes, PREAMBLE_LEN, false);
        match PixelFrame::new(width, height, pixels) {
            Some(frame) => {
                proof {
                    lemma_signature();
                    lemma_announced_field(bytes@.subrange(4, 8));
                    lemma_announced_field(bytes@.subrange(8, 12));
                    assert(bytes@ =~= bytes@.subrange(0, 4) + bytes@.subrange(4, 8)
                        + bytes@.subrange(8, 12) + bytes@.subrange(12, n as int));
                    assert(encoded(frame@) =~= bytes@);
                    assert forall|v: FrameView| v.valid() && encoded(v) == bytes@ implies v
                        == frame@ by {
                        lemma_encoded_injective(v, frame@);
                    }
                }
                Ok(frame)
            },
            None => Err(ProtocolError::CorruptFrame),
        }
    }
}

} // verus!
