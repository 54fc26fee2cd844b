//! Raw pixel frames, their flat byte forms and their display packing.
//!
//! A frame holds its pixels row by row, the top row first. The display word
//! of a pixel is the four bytes `[red, green, blue, 0]` read most significant
//! first, so red sits in the top byte.

use vstd::prelude::*;

verus! {

/// One pixel as a red, green, blue triple.
#[derive(Clone, Copy, Debug, PartialEq, Eq, Hash, Structural)]
pub struct Rgb {
    pub r: u8,
    pub g: u8,
    pub b: u8,
}

/// What a frame is: its size and its pixels, row by row.
pub struct FrameView {
    pub width: nat,
    pub height: nat,
    pub pixels: Seq<Rgb>,
}

impl FrameView {
    /// Whether this is a frame that can exist: both sides fit 32 bits and
    /// there is one pixel for every place.
    pub open spec fn valid(self) -> bool {
        &&& self.width <= u32::MAX
        &&& self.height <= u32::MAX
        &&& self.pixels.len() == self.width * self.height
    }

    /// The pixel in column `x` of row `y`.
    pub open spec fn at(self, x: nat, y: nat) -> Rgb {
        self.pixels[(y * self.width + x) as int]
    }
}

/// The three bytes of a pixel: blue, green, red when `blue_first`, else red,
/// green, blue.
pub open spec fn triple(p: Rgb, blue_first: bool) -> Seq<u8> {
    if blue_first {
        seq![p.b, p.g, p.r]
    } else {
        seq![p.r, p.g, p.b]
    }
}

/// The bytes of `pixels`, three for each, in order.
pub open spec fn flat(pixels: Seq<Rgb>, blue_first: bool) -> Seq<u8>
    decreases pixels.len(),
{
    if pixels.len() == 0 {
        Seq::empty()
    } else {
        flat(pixels.drop_last(), blue_first) + triple(pixels.last(), blue_first)
    }
}

/// The display word of a pixel: the bytes `[r, g, b, 0]`, most significant
/// first.
pub open spec fn display_word(p: Rgb) -> u32 {
    (p.r * 0x100_0000 + p.g * 0x1_0000 + p.b * 0x100) as u32
}

/// The display words of `pixels`, in order.
pub open spec fn display_words(pixels: Seq<Rgb>) -> Seq<u32> {
    Seq::new(pixels.len(), |i: int| display_word(pixels[i]))
}

/// The flat bytes of `pixels` are three for each, and pixel `i` stands at
/// `3 * i`.
pub proof fn lemma_flat(pixels: Seq<Rgb>, blue_first: bool)
    ensures
        flat(pixels, blue_first).len() == 3 * pixels.len(),
        forall|i: int|
            #![trigger pixels[i]]
            0 <= i < pixels.len() ==> flat(pixels, blue_first).subrange(3 * i, 3 * i + 3)
                == triple(pixels[i], blue_first),
    decreases pixels.len(),
{
    if pixels.len() > 0 {
        let init = pixels.drop_last();
        lemma_flat(init, blue_first);
        let f = flat(pixels, blue_first);
        assert forall|i: int| #![trigger pixels[i]] 0 <= i < pixels.len() implies f.subrange(
            3 * i,
            3 * i + 3,
        ) == triple(pixels[i], blue_first) by {
            if i < init.len() {
                assert(init[i] == pixels[i]);
                assert(f.subrange(3 * i, 3 * i + 3) =~= flat(init, blue_first).subrange(
                    3 * i,
                    3 * i + 3,
                ));
            } else {
                assert(f.subrange(3 * i, 3 * i + 3) =~= triple(pixels.last(), blue_first));
            }
        }
    }
}

/// Pixels with the same flat bytes are the same pixels.
pub proof fn lemma_flat_injective(a: Seq<Rgb>, b: Seq<Rgb>, blue_first: bool)
    requires
        flat(a, blue_first) == flat(b, blue_first),
    ensures
        a == b,
{
    lemma_flat(a, blue_first);
    lemma_flat(b, blue_first);
    assert(a.len() == b.len());
    assert forall|i: int| 0 <= i < a.len() implies a[i] == b[i] by {
        let (ta, tb) = (triple(a[i], blue_first), triple(b[i], blue_first));
        assert(ta == tb);
        assert(ta[0] == tb[0] && ta[1] == tb[1] && ta[2] == tb[2]);
    }
    assert(a =~= b);
}

/// The place of a pixel in the row-by-row order lies within the frame.
pub proof fn lemma_place(width: nat, height: nat, x: nat, y: nat)
    requires
        x < width,
        y < height,
    ensures
        y * width + x < width * height,
        y * width <= width * height,
{
    assert(y * width + width <= height * width) by (nonlinear_arith)
        requires
            y + 1 <= height,
    ;
    assert(height * width == width * height) by (nonlinear_arith);
}

/// Packs one pixel into its display word.
pub fn pack_pixel(p: Rgb) -> (w: u32)
    ensures
        w == display_word(p),
{
    let r: u32 = p.r as u32;
    let g: u32 = p.g as u32;
    let b: u32 = p.b as u32;
    r * 0x100_0000 + g * 0x1_0000 + b * 0x100
}

/// Reads one pixel from the three bytes at `at`.
pub(crate) fn pixel_at(bytes: &[u8], at: usize, blue_first: bool) -> (p: Rgb)
    requires
        at + 3 <= bytes@.len(),
    ensures
        triple(p, blue_first) == bytes@.subrange(at as int, at + 3),
{
    assert(bytes@.len() <= usize::MAX) by {
        vstd::slice::axiom_spec_len(bytes);
    }
    let p = if blue_first {
        Rgb { r: bytes[at + 2], g: bytes[at + 1], b: bytes[at] }
    } else {
        Rgb { r: bytes[at], g: bytes[at + 1], b: bytes[at + 2] }
    };
    assert(triple(p, blue_first) =~= bytes@.subrange(at as int, at + 3));
    p
}

/// Appends the flat bytes of `pixels` to `out`.
pub fn put_flat(pixels: &[Rgb], blue_first: bool, out: &mut Vec<u8>)
    ensures
        final(out)@ == old(out)@ + flat(pixels@, blue_first),
{
    let ghost before = out@;
    let mut i: usize = 0;
    assert(pixels@.subrange(0, 0) =~= Seq::empty());
    while i < pixels.len()
        invariant
            i <= pixels@.len(),
            out@ == before + flat(pixels@.subrange(0, i as int), blue_first),
        decreases pixels@.len() - i,
    {
        let p = pixels[i];
        let ghost next = pixels@.subrange(0, i + 1);
        proof {
            assert(next.drop_last() =~= pixels@.subrange(0, i as int));
            assert(next.last() == p);
        }
        if blue_first {
            out.push(p.b);
            out.push(p.g);
            out.push(p.r);
        } else {
            out.push(p.r);
            out.push(p.g);
            out.push(p.b);
        }
        assert(out@ =~= before + flat(next, blue_first));
        i += 1;
    }
    assert(pixels@.subrange(0, i as int) =~= pixels@);
}

/// Reads the pixels that the flat bytes `bytes[from..]` hold.
pub(crate) fn take_flat(bytes: &[u8], from: usize, blue_first: bool) -> (pixels: Vec<Rgb>)
    requires
        from <= bytes@.len(),
        (bytes@.len() - from) % 3 == 0,
    ensures
        flat(pixels@, blue_first) == bytes@.subrange(from as int, bytes@.len() as int),
        3 * pixels@.len() == bytes@.len() - from,
{
    let n = bytes.len();
    let mut pixels: Vec<Rgb> = Vec::new();
    let mut at: usize = from;
    assert(bytes@.subrange(from as int, from as int) =~= Seq::empty());
    while at < n
        invariant
            from <= at <= n,
            n == bytes@.len(),
            (n - at) % 3 == 0,
            3 * pixels@.len() == at - from,
            flat(pixels@, blue_first) == bytes@.subrange(from as int, at as int),
        decreases n - at,
    {
        let ghost before = pixels@;
        let p = pixel_at(bytes, at, blue_first);
        pixels.push(p);
        proof {
            assert(pixels@.drop_last() =~= before);
            assert(bytes@.subrange(from as int, at + 3) =~= bytes@.subrange(
                from as int,
                at as int,
            ) + bytes@.subrange(at as int, at + 3));
        }
        at += 3;
    }
    pixels
}

/// A raw frame: its size and one pixel for every place, row by row.
#[derive(Debug, PartialEq, Eq)]
pub struct PixelFrame {
    width: u32,
    height: u32,
    pixels: Vec<Rgb>,
}

impl View for PixelFrame {
    type V = FrameView;

    closed spec fn view(&self) -> FrameView {
        FrameView {
            width: self.width as nat,
            height: self.height as nat,
            pixels: self.pixels@,
        }
    }
}

impl PixelFrame {
    #[verifier::type_invariant]
    spec fn inv(&self) -> bool {
        self.pixels@.len() == self.width * self.height
    }

    /// A frame of the given size with the given pixels, row by row.
    ///
    /// `Some` exactly when there is one pixel for every place.
    pub fn new(width: u32, height: u32, pixels: Vec<Rgb>) -> (r: Option<PixelFrame>)
        ensures
            match r {
                Some(frame) => frame@.valid() && frame@ == (FrameView {
                    width: width as nat,
                    height: height as nat,
                    pixels: pixels@,
                }),
                None => pixels@.len() != width * height,
            },
    {
        assert(width * height <= u64::MAX) by (nonlinear_arith)
            requires
                width <= u32::MAX,
                height <= u32::MAX,
        ;
        let places: u64 = width as u64 * height as u64;
        if pixels.len() as u64 != places {
            return None;
        }
        Some(PixelFrame { width, height, pixels })
    }

    /// A frame of the given size from flat bytes, three for each pixel: blue,
    /// green, red when `blue_first`, else red, green, blue.
    ///
    /// `Some` exactly when there are three bytes for every place.
    pub fn from_flat(width: u32, height: u32, bytes: &[u8], blue_first: bool) -> (r: Option<
        PixelFrame,
    >)
        ensures
            match r {
                Some(frame) => frame@.valid() && frame@.width == width && frame@.height == height
                    && flat(frame@.pixels, blue_first) == bytes@,
                None => bytes@.len() != 3 * (width * height),
            },
    {
        if bytes.len() % 3 != 0 {
            return None;
        }
        let pixels = take_flat(bytes, 0, blue_first);
        assert(bytes@.subrange(0, bytes@.len() as int) =~= bytes@);
        PixelFrame::new(width, height, pixels)
    }

    /// The number of pixels in a row.
    pub fn width(&self) -> (w: u32)
        ensures
            w == self@.width,
            self@.valid(),
    {
        proof {
            use_type_invariant(self);
        }
        self.width
    }

    /// The number of rows.
    pub fn height(&self) -> (h: u32)
        ensures
            h == self@.height,
            self@.valid(),
    {
        proof {
            use_type_invariant(self);
        }
        self.height
    }

    /// The pixels, row by row.
    pub fn pixels(&self) -> (p: &[Rgb])
        ensures
            p@ == self@.pixels,
            self@.valid(),
    {
        proof {
            use_type_invariant(self);
        }
        self.pixels.as_slice()
    }

    /// The pixel in column `x` of row `y`, if the frame has that place.
    pub fn pixel(&self, x: u32, y: u32) -> (r: Option<Rgb>)
        ensures
            r == (if x < self@.width && y < self@.height {
                Some(self@.at(x as nat, y as nat))
            } else {
                None
            }),
    {
        proof {
            use_type_invariant(self);
        }
        if x >= self.width || y >= self.height {
            return None;
        }
        let places = self.pixels.len();
        proof {
            lemma_place(self.width as nat, self.height as nat, x as nat, y as nat);
            assert(y * self.width + x < places);
        }
        let place = y as usize * self.width as usize + x as usize;
        Some(self.pixels[place])
    }

    /// The frame as flat bytes, blue, green, red for each pixel.
    pub fn to_raw(&self) -> (bytes: Vec<u8>)
        ensures
            bytes@ == flat(self@.pixels, true),
    {
        let mut bytes: Vec<u8> = Vec::new();
        put_flat(self.pixels.as_slice(), true, &mut bytes);
        assert(bytes@ =~= flat(self@.pixels, true));
        bytes
    }

    /// Appends the display words of the frame to `out`, row by row.
    pub fn u32frame(&self, out: &mut Vec<u32>)
        ensures
            final(out)@ == old(out)@ + display_words(self@.pixels),
    {
        let ghost before = out@;
        let mut i: usize = 0;
        while i < self.pixels.len()
            invariant
                i <= self.pixels@.len(),
                self@.pixels == self.pixels@,
                out@ == before + display_words(self.pixels@.subrange(0, i as int)),
            decreases self.pixels@.len() - i,
        {
            out.push(pack_pixel(self.pixels[i]));
            i += 1;
            assert(out@ =~= before + display_words(self.pixels@.subrange(0, i as int)));
        }
        assert(self.pixels@.subrange(0, i as int) =~= self.pixels@);
    }

    /// The display buffer of the frame: one word for each pixel, row by row.
    pub fn to_display_buffer(&self) -> (words: Vec<u32>)
        ensures
            words@ == display_words(self@.pixels),
            words@.len() == self@.width * self@.height,
    {
        proof {
            use_type_invariant(self);
        }
        let mut words: Vec<u32> = Vec::new();
        self.u32frame(&mut words);
        assert(words@ =~= display_words(self@.pixels));
        words
    }
}

} // verus!
