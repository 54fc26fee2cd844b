//! What a frame can do, and where frames come from.
//!
//! The three traits name the abilities of a frame on its way from capture to
//! display: to become bytes, to come back from bytes, and to become a display
//! buffer. `PixelFrame` has all three.

use crate::codec::{decoded, encoded};
use crate::error::ProtocolError;
use crate::pixel::{display_words, flat, FrameView, PixelFrame};
use vstd::prelude::*;

verus! {

/// The kind of source that frames are captured from.
#[derive(Clone, Copy, Debug, PartialEq, Eq, Hash, Structural)]
pub enum SourceType {
    Screen,
    Camera,
}

impl Default for SourceType {
    /// The screen.
    fn default() -> (source: SourceType)
        ensures
            source == SourceType::Screen,
    {
        SourceType::Screen
    }
}

/// A frame that can be sent.
pub trait InputFrame {
    /// The pixels of the frame, row by row.
    spec fn input_pixels(&self) -> FrameView;

    /// The frame as flat bytes: blue, green, red of each pixel, row by row.
    fn to_raw(&self) -> (bytes: Vec<u8>)
        ensures
            bytes@ == flat(self.input_pixels().pixels, true),
    ;

    /// The frame as a compressed frame of the lossless format.
    fn to_raw_compressed(&self) -> (bytes: Vec<u8>)
        ensures
            bytes@ == encoded(self.input_pixels()),
    ;
}

/// A frame that can be received.
pub trait OutputFrame: Sized {
    /// The pixels of the frame, row by row.
    spec fn output_pixels(&self) -> FrameView;

    /// Decodes a frame from its bytes; the same as `from_raw_compressed`.
    fn from_raw(vec: &[u8]) -> (r: Result<Self, ProtocolError>)
        ensures
            match r {
                Ok(frame) => decoded(vec@) == Ok::<FrameView, ProtocolError>(
                    frame.output_pixels(),
                ),
                Err(err) => err == ProtocolError::CorruptFrame && decoded(vec@) is Err,
            },
    {
        Self::from_raw_compressed(vec)
    }

    /// Decodes a compressed frame of the lossless format.
    ///
    /// `Ok` exactly when `vec` holds the bytes of a frame, which is then the
    /// result; `CorruptFrame` for every other byte string.
    fn from_raw_compressed(vec: &[u8]) -> (r: Result<Self, ProtocolError>)
        ensures
            match r {
                Ok(frame) => decoded(vec@) == Ok::<FrameView, ProtocolError>(
                    frame.output_pixels(),
                ),
                Err(err) => err == ProtocolError::CorruptFrame && decoded(vec@) is Err,
            },
    ;

    /// The number of pixels in a row.
    fn width(&self) -> (w: u32)
        ensures
            w == self.output_pixels().width,
    ;

    /// The number of rows.
    fn height(&self) -> (h: u32)
        ensures
            h == self.output_pixels().height,
    ;
}

/// A frame that can be shown.
pub trait DisplayFrame {
    /// The pixels of the frame, row by row.
    spec fn display_pixels(&self) -> FrameView;

    /// Appends the display words of the frame to `vec`, row by row.
    fn u32frame(&self, vec: &mut Vec<u32>)
        ensures
            final(vec)@ == old(vec)@ + display_words(self.display_pixels().pixels),
    ;
}

impl InputFrame for PixelFrame {
    open spec fn input_pixels(&self) -> FrameView {
        self@
    }

    fn to_raw(&self) -> (bytes: Vec<u8>) {
        PixelFrame::to_raw(self)
    }

    fn to_raw_compressed(&self) -> (bytes: Vec<u8>) {
        PixelFrame::to_raw_compressed(self)
    }
}

impl OutputFrame for PixelFrame {
    open spec fn output_pixels(&self) -> FrameView {
        self@
    }

    fn from_raw_compressed(vec: &[u8]) -> (r: Result<Self, ProtocolError>) {
        PixelFrame::from_raw_compressed(vec)
    }

    fn width(&self) -> (w: u32) {
        PixelFrame::width(self)
    }

    fn height(&self) -> (h: u32) {
        PixelFrame::height(self)
    }
}

impl DisplayFrame for PixelFrame {
    open spec fn display_pixels(&self) -> FrameView {
        self@
    }

    fn u32frame(&self, vec: &mut Vec<u32>) {
        PixelFrame::u32frame(self, vec)
    }
}

} // verus!
