//! Graphics primitives: styled text spans, barcodes, 2D codes, images,
//! and the pixel-format conversions between bit-packed and byte-per-pixel
//! buffers, including rotation, flipping and nearest-neighbor scaling.
use vstd::prelude::*;

use crate::context::{Context, Font, HumanReadableInterface, TextJustify, TextStrikethrough, TextUnderline};

verus! {

/// A run of text with its resolved style, produced when a text command
/// meets the current context and consumed by the layout engine.
pub struct TextSpan {
    pub font: Font,
    pub size: u32,
    pub text: String,
    pub bold: bool,
    pub italic: bool,
    /// Underline thickness in pixels; zero for none.
    pub underline: u32,
    /// Strikethrough thickness in pixels; zero for none.
    pub strikethrough: u32,
    pub stretch_width: u8,
    pub stretch_height: u8,
    pub inverted: bool,
    pub upside_down: bool,
    pub justify: TextJustify,
    /// Width in pixels of one character cell of this span.
    pub character_width: u32,
    /// Height in pixels of one character cell of this span.
    pub character_height: u32,
}

impl TextSpan {
    /// Field-wise equality of two spans, the text compared by contents.
    pub open spec fn is_copy_of(self, other: TextSpan) -> bool {
        &&& self.font == other.font
        &&& self.size == other.size
        &&& self.text@ == other.text@
        &&& self.bold == other.bold
        &&& self.italic == other.italic
        &&& self.underline == other.underline
        &&& self.strikethrough == other.strikethrough
        &&& self.stretch_width == other.stretch_width
        &&& self.stretch_height == other.stretch_height
        &&& self.inverted == other.inverted
        &&& self.upside_down == other.upside_down
        &&& self.justify == other.justify
        &&& self.character_width == other.character_width
        &&& self.character_height == other.character_height
    }
}

impl Clone for TextSpan {
    fn clone(&self) -> (r: Self)
        ensures
            r.is_copy_of(*self),
    {
        TextSpan {
            font: self.font,
            size: self.size,
            text: clone_string(&self.text),
            bold: self.bold,
            italic: self.italic,
            underline: self.underline,
            strikethrough: self.strikethrough,
            stretch_width: self.stretch_width,
            stretch_height: self.stretch_height,
            inverted: self.inverted,
            upside_down: self.upside_down,
            justify: self.justify,
            character_width: self.character_width,
            character_height: self.character_height,
        }
    }
}

/// Copies a string, keeping its contents.
pub fn clone_string(s: &String) -> (r: String)
    ensures
        r@ == s@,
{
    let copy: String = String::new();
    copy.concat(s.as_str())
}

/// Copies a byte vector, keeping its contents.
pub fn clone_bytes(v: &Vec<u8>) -> (r: Vec<u8>)
    ensures
        r@ == v@,
{
    let mut r: Vec<u8> = Vec::new();
    let mut i: usize = 0;
    while i < v.len()
        invariant
            i <= v@.len(),
            r@ == v@.subrange(0, i as int),
        decreases v@.len() - i,
    {
        r.push(v[i]);
        i += 1;
        proof {
            assert(r@ =~= v@.subrange(0, i as int));
        }
    }
    proof {
        assert(r@ =~= v@);
    }
    r
}

/// A one-dimensional bar pattern plus the text printed beside it.
pub struct Barcode {
    /// One byte per horizontal module: zero is a gap, nonzero a bar.
    pub points: Vec<u8>,
    pub point_width: u8,
    pub point_height: u8,
    pub hri: HumanReadableInterface,
    pub text: TextSpan,
}

#[derive(Clone, Copy, PartialEq, Eq, Structural, Debug)]
pub struct Rectangle {
    pub x: u32,
    pub y: u32,
    pub w: u32,
    pub h: u32,
}

#[derive(Clone, Copy, PartialEq, Eq, Structural, Debug)]
pub struct Line {
    pub ax: u32,
    pub ay: u32,
    pub bx: u32,
    pub by: u32,
}

#[derive(Clone, Copy, PartialEq, Eq, Structural, Debug)]
pub enum VectorGraphic {
    Rectangle(Rectangle),
    Line(Line),
}

/// A two-dimensional module matrix flattened row-major.
pub struct Code2D {
    pub points: Vec<u8>,
    /// Number of modules per row.
    pub width: u32,
    pub point_width: u32,
    pub point_height: u32,
}

#[derive(Clone, Copy, PartialEq, Eq, Structural, Debug)]
pub enum PixelType {
    /// One byte per pixel.
    MonochromeByte,
    /// One bit per pixel in a single color; the number selects the color.
    Monochrome(u8),
    /// First number selects the color, second how many tones the data holds.
    MultipleTone(u8, u8),
    Unknown,
}

/// How an image takes part in the text flow.
#[derive(Clone, Copy, PartialEq, Eq, Structural, Debug)]
pub enum ImageFlow {
    /// Placed at the cursor like a glyph, advancing x.
    Inline,
    /// Placed on its own band, advancing y.
    Block,
    /// Placed without moving the cursor at all.
    Off,
}

pub struct Image {
    pub pixels: Vec<u8>,
    pub x: u32,
    pub y: u32,
    pub w: u32,
    pub h: u32,
    pub pixel_type: PixelType,
    pub stretch: (u8, u8),
    pub flow: ImageFlow,
    pub upside_down: bool,
}

impl Image {
    pub open spec fn is_copy_of(self, other: Image) -> bool {
        &&& self.pixels@ == other.pixels@
        &&& self.x == other.x
        &&& self.y == other.y
        &&& self.w == other.w
        &&& self.h == other.h
        &&& self.pixel_type == other.pixel_type
        &&& self.stretch == other.stretch
        &&& self.flow == other.flow
        &&& self.upside_down == other.upside_down
    }
}

impl Clone for Image {
    fn clone(&self) -> (r: Self)
        ensures
            r.is_copy_of(*self),
    {
        Image {
            pixels: clone_bytes(&self.pixels),
            x: self.x,
            y: self.y,
            w: self.w,
            h: self.h,
            pixel_type: self.pixel_type,
            stretch: self.stretch,
            flow: self.flow,
            upside_down: self.upside_down,
        }
    }
}

/// Key of an image placed in printer storage.
#[derive(Clone, Copy, PartialEq, Eq, Structural, Debug)]
pub struct ImageRef {
    pub kc1: u8,
    pub kc2: u8,
    pub storage: ImageRefStorage,
}

#[derive(Clone, Copy, PartialEq, Eq, Structural, Debug)]
pub enum ImageRefStorage {
    Disc,
    Ram,
}

impl ImageRef {
    /// Reads a storage key from the first two payload bytes.
    pub fn from_data(data: &Vec<u8>, storage: ImageRefStorage) -> (r: Option<ImageRef>)
        ensures
            data@.len() < 2 ==> r is None,
            data@.len() >= 2 ==> r == Some(
                ImageRef { kc1: data@[0], kc2: data@[1], storage },
            ),
    {
        if data.len() < 2 {
            return None;
        }
        Some(ImageRef { kc1: data[0], kc2: data[1], storage })
    }
}

/// What a graphics-producing command hands to the renderer.
pub enum GraphicsCommand {
    Error(String),
    Code2D(Code2D),
    Barcode(Barcode),
    Image(Image),
    Rectangle(Rectangle),
    Line(Line),
}

// ---------------------------------------------------------------------
// Bit-packed pixel decoding
// ---------------------------------------------------------------------
/// Pixel value of bit `j` (counting from the most significant bit) of a
/// packed byte: a set bit prints, so it becomes 0 (black); a clear bit
/// stays paper-white, 255.
pub open spec fn bit_pixel(b: u8, j: int) -> u8 {
    if (b >> (7 - j) as u8) & 1 == 1 {
        0
    } else {
        255
    }
}

/// The first `k` pixels of a packed byte, most significant bit first.
pub open spec fn byte_pixels(b: u8, k: int) -> Seq<u8> {
    Seq::new(k as nat, |j: int| bit_pixel(b, j))
}

/// Pixels emitted for the byte that closes a row of width `w`: the row's
/// remainder modulo eight, or a full eight when the width is a multiple.
pub open spec fn row_padding(w: int) -> int {
    if w % 8 == 0 {
        8
    } else {
        w % 8
    }
}

/// Grayscale expansion of bit-packed rows of width `w`, starting `col`
/// pixels into the current row: every byte yields eight pixels except the
/// byte that reaches the end of a row, which yields only the row's
/// remainder.
pub open spec fn unpack_bits(data: Seq<u8>, w: int, col: int) -> Seq<u8>
    decreases data.len(),
{
    if data.len() == 0 {
        Seq::empty()
    } else if col + 8 >= w {
        byte_pixels(data[0], row_padding(w)) + unpack_bits(data.skip(1), w, 0)
    } else {
        byte_pixels(data[0], 8) + unpack_bits(data.skip(1), w, col + 8)
    }
}

/// Expands bit-packed pixels to one grayscale byte per pixel.
pub fn bitpacked_to_grayscale(pixels: &Vec<u8>, w: u32) -> (r: Vec<u8>)
    ensures
        r@ == unpack_bits(pixels@, w as int, 0),
{
    let mut bytes: Vec<u8> = Vec::new();
    let padding: u32 = if w % 8 == 0 {
        8
    } else {
        w % 8
    };
    let mut col: u32 = 0;
    let mut i: usize = 0;

    proof {
        assert(pixels@.skip(0) =~= pixels@);
        assert(Seq::<u8>::empty() + unpack_bits(pixels@, w as int, 0) =~= unpack_bits(
            pixels@,
            w as int,
            0,
        ));
    }
    while i < pixels.len()
        invariant
            i <= pixels@.len(),
            padding == row_padding(w as int),
            col < w || (col == 0 && w == 0),
            col % 8 == 0,
            unpack_bits(pixels@, w as int, 0) == bytes@ + unpack_bits(
                pixels@.skip(i as int),
                w as int,
                col as int,
            ),
        decreases pixels@.len() - i,
    {
        let byte = pixels[i];
        let ghost pre = bytes@;
        let ghost col0 = col as int;
        let ghost rest = pixels@.skip(i as int);
        proof {
            assert(rest.len() > 0);
            assert(rest[0] == pixels@[i as int]);
            assert(rest.skip(1) =~= pixels@.skip(i + 1));
        }
        if w < 8 || col >= w - 8 {
            proof {
                assert(col + 8 >= w);
            }
            let mut n: u32 = 0;
            while n < padding
                invariant
                    n <= padding,
                    padding <= 8,
                    bytes@ == pre + byte_pixels(byte, n as int),
                decreases padding - n,
            {
                let px: u8 = if (byte >> (7 - n) as u8) & 1 == 1 {
                    0
                } else {
                    255
                };
                bytes.push(px);
                n += 1;
                proof {
                    assert(bytes@ =~= pre + byte_pixels(byte, n as int));
                }
            }
            col = 0;
        } else {
            let mut n: u32 = 0;
            while n < 8
                invariant
                    n <= 8,
                    bytes@ == pre + byte_pixels(byte, n as int),
                decreases 8 - n,
            {
                let px: u8 = if (byte >> (7 - n) as u8) & 1 == 1 {
                    0
                } else {
                    255
                };
                bytes.push(px);
                n += 1;
                proof {
                    assert(bytes@ =~= pre + byte_pixels(byte, n as int));
                }
            }
            col = col + 8;
        }
        i += 1;
        proof {
            let k: int = if col0 + 8 >= w {
                row_padding(w as int)
            } else {
                8
            };
            assert(unpack_bits(rest, w as int, col0) == byte_pixels(byte, k) + unpack_bits(
                rest.skip(1),
                w as int,
                col as int,
            ));
            assert(bytes@ == pre + byte_pixels(byte, k));
            assert(bytes@ + unpack_bits(pixels@.skip(i as int), w as int, col as int) =~= pre
                + unpack_bits(rest, w as int, col0));
        }
    }
    proof {
        assert(pixels@.skip(i as int) =~= Seq::<u8>::empty());
        assert(bytes@ =~= unpack_bits(pixels@, w as int, 0));
    }
    bytes
}

/// Bytes per packed row of `w` pixels.
pub open spec fn bytes_per_row(w: int) -> int {
    (w + 7) / 8
}

/// Unpacking whole rows yields exactly width-times-height pixels.
pub proof fn lemma_unpack_row(data: Seq<u8>, w: int, k: int)
    requires
        w > 0,
        0 <= k < bytes_per_row(w),
        data.len() >= bytes_per_row(w) - k,
    ensures
        unpack_bits(data, w, 8 * k).len() == (w - 8 * k) + unpack_bits(
            data.skip(bytes_per_row(w) - k),
            w,
            0,
        ).len(),
    decreases bytes_per_row(w) - k,
{
    let bpr = bytes_per_row(w);
    assert(8 * bpr >= w && 8 * bpr <= w + 7);
    if k == bpr - 1 {
        assert(8 * k + 8 >= w);
        assert(row_padding(w) == w - 8 * k);
        assert(data.skip(1) =~= data.skip(bpr - k));
    } else {
        assert(8 * (k + 1) < w);
        lemma_unpack_row(data.skip(1), w, k + 1);
        assert(data.skip(1).skip(bpr - k - 1) =~= data.skip(bpr - k));
    }
}

/// Bit-unpack length: expanding `h` full packed rows of width `w` yields
/// exactly `w * h` grayscale bytes.
pub proof fn lemma_unpack_len(data: Seq<u8>, w: int, h: int)
    requires
        w > 0,
        h >= 0,
        data.len() == h * bytes_per_row(w),
    ensures
        unpack_bits(data, w, 0).len() == w * h,
    decreases h,
{
    let bpr = bytes_per_row(w);
    if h == 0 {
        assert(data.len() == 0) by (nonlinear_arith)
            requires
                data.len() == h * bpr,
                h == 0,
        ;
    } else {
        assert(data.len() >= bpr) by (nonlinear_arith)
            requires
                data.len() == h * bpr,
                h >= 1,
                bpr > 0,
        ;
        lemma_unpack_row(data, w, 0);
        assert(data.skip(bpr).len() == (h - 1) * bpr) by (nonlinear_arith)
            requires
                data.len() == h * bpr,
                h >= 1,
                bpr > 0,
        ;
        lemma_unpack_len(data.skip(bpr), w, h - 1);
        assert(w + w * (h - 1) == w * h) by (nonlinear_arith);
    }
}

/// Packs eight grayscale pixels starting at `base` back into one byte:
/// bit `j` (from the most significant) is set exactly when the pixel is 0.
pub open spec fn repack_byte(s: Seq<u8>, base: int) -> u8 {
    (((if s[base] == 0 {
        128int
    } else {
        0
    }) + (if s[base + 1] == 0 {
        64int
    } else {
        0
    }) + (if s[base + 2] == 0 {
        32int
    } else {
        0
    }) + (if s[base + 3] == 0 {
        16int
    } else {
        0
    }) + (if s[base + 4] == 0 {
        8int
    } else {
        0
    }) + (if s[base + 5] == 0 {
        4int
    } else {
        0
    }) + (if s[base + 6] == 0 {
        2int
    } else {
        0
    }) + (if s[base + 7] == 0 {
        1int
    } else {
        0
    })) as u8)
}

/// Packs a grayscale buffer back into bit-packed bytes, most significant
/// bit first.
pub open spec fn repack_bits(s: Seq<u8>) -> Seq<u8> {
    Seq::new((s.len() / 8) as nat, |i: int| repack_byte(s, 8 * i))
}

proof fn lemma_repack_one(b: u8)
    ensures
        repack_byte(byte_pixels(b, 8), 0) == b,
{
    assert(byte_pixels(b, 8)[0] == bit_pixel(b, 0));
    assert(byte_pixels(b, 8)[1] == bit_pixel(b, 1));
    assert(byte_pixels(b, 8)[2] == bit_pixel(b, 2));
    assert(byte_pixels(b, 8)[3] == bit_pixel(b, 3));
    assert(byte_pixels(b, 8)[4] == bit_pixel(b, 4));
    assert(byte_pixels(b, 8)[5] == bit_pixel(b, 5));
    assert(byte_pixels(b, 8)[6] == bit_pixel(b, 6));
    assert(byte_pixels(b, 8)[7] == bit_pixel(b, 7));
    assert((((if (b >> 7) & 1 == 1 {
        128u8
    } else {
        0u8
    }) + (if (b >> 6) & 1 == 1 {
        64u8
    } else {
        0u8
    }) + (if (b >> 5) & 1 == 1 {
        32u8
    } else {
        0u8
    }) + (if (b >> 4) & 1 == 1 {
        16u8
    } else {
        0u8
    }) + (if (b >> 3) & 1 == 1 {
        8u8
    } else {
        0u8
    }) + (if (b >> 2) & 1 == 1 {
        4u8
    } else {
        0u8
    }) + (if (b >> 1) & 1 == 1 {
        2u8
    } else {
        0u8
    }) + (if (b >> 0) & 1 == 1 {
        1u8
    } else {
        0u8
    })) as u8) == b) by (bit_vector);
}


/// Packs the first `k` pixels at `base` into one byte, most significant
/// bit first, with the remaining low bits clear.
pub open spec fn repack_partial(s: Seq<u8>, base: int, k: int) -> u8 {
    (((if 0 < k && base < s.len() && s[base] == 0 {
        128int
    } else {
        0int
    }) + (if 1 < k && base + 1 < s.len() && s[base + 1] == 0 {
        64int
    } else {
        0int
    }) + (if 2 < k && base + 2 < s.len() && s[base + 2] == 0 {
        32int
    } else {
        0int
    }) + (if 3 < k && base + 3 < s.len() && s[base + 3] == 0 {
        16int
    } else {
        0int
    }) + (if 4 < k && base + 4 < s.len() && s[base + 4] == 0 {
        8int
    } else {
        0int
    }) + (if 5 < k && base + 5 < s.len() && s[base + 5] == 0 {
        4int
    } else {
        0int
    }) + (if 6 < k && base + 6 < s.len() && s[base + 6] == 0 {
        2int
    } else {
        0int
    }) + (if 7 < k && base + 7 < s.len() && s[base + 7] == 0 {
        1int
    } else {
        0int
    })) as u8)
}

/// Packs grayscale pixels back into bit-packed rows of width `w`,
/// following the same row walk as the unpacking: eight pixels per byte
/// except at each row's end, where only the row's remainder is taken
/// and the pad bits stay clear.
pub open spec fn repack_ragged(s: Seq<u8>, w: int, col: int) -> Seq<u8>
    decreases s.len(),
{
    if s.len() == 0 {
        Seq::empty()
    } else {
        let k: int = if col + 8 >= w {
            row_padding(w)
        } else {
            8
        };
        if s.len() <= k {
            seq![repack_partial(s, 0, k)]
        } else {
            seq![repack_partial(s, 0, k)] + repack_ragged(
                s.skip(k),
                w,
                if col + 8 >= w {
                    0
                } else {
                    col + 8
                },
            )
        }
    }
}

/// Whether every row-closing byte keeps its pad bits — the bits past
/// the row's width — clear, walking the rows as the unpacking does.
pub open spec fn pads_zero(data: Seq<u8>, w: int, col: int) -> bool
    decreases data.len(),
{
    if data.len() == 0 {
        true
    } else if col + 8 >= w {
        (row_padding(w) < 8 ==> data[0] & (((1u8 << ((8 - row_padding(w)) as u8)) - 1) as u8)
            == 0) && pads_zero(data.skip(1), w, 0)
    } else {
        pads_zero(data.skip(1), w, col + 8)
    }
}

proof fn lemma_repack_partial(b: u8, kk: u8, s: Seq<u8>)
    requires
        1 <= kk <= 8,
        kk < 8 ==> b & (((1u8 << ((8 - kk) as u8)) - 1) as u8) == 0,
        s.len() >= kk,
        forall|j: int| 0 <= j < kk ==> s[j] == bit_pixel(b, j),
    ensures
        repack_partial(s, 0, kk as int) == b,
{
    {
        assert((((if 0 < kk && (b >> 7) & 1 == 1 {
            128int
        } else {
            0int
        }) + (if 1 < kk && (b >> 6) & 1 == 1 {
            64int
        } else {
            0int
        }) + (if 2 < kk && (b >> 5) & 1 == 1 {
            32int
        } else {
            0int
        }) + (if 3 < kk && (b >> 4) & 1 == 1 {
            16int
        } else {
            0int
        }) + (if 4 < kk && (b >> 3) & 1 == 1 {
            8int
        } else {
            0int
        }) + (if 5 < kk && (b >> 2) & 1 == 1 {
            4int
        } else {
            0int
        }) + (if 6 < kk && (b >> 1) & 1 == 1 {
            2int
        } else {
            0int
        }) + (if 7 < kk && (b >> 0) & 1 == 1 {
            1int
        } else {
            0int
        })) as u8) == b) by (bit_vector)
            requires
                1 <= kk <= 8,
                kk < 8 ==> b & (((1u8 << ((8 - kk) as u8)) - 1) as u8) == 0,
        ;
    }
}

/// Bit-unpack round trip for every width: when each row-closing byte
/// keeps its pad bits clear, repacking the grayscale expansion along
/// the same row walk recovers the packed input exactly. (A set pad bit
/// is not represented in the expansion, so it cannot return: width 1
/// with the single byte 255 unpacks to one black pixel and repacks to
/// 128.)
pub proof fn lemma_bitpack_roundtrip_ragged(data: Seq<u8>, w: int, col: int)
    requires
        w >= 0,
        pads_zero(data, w, col),
    ensures
        repack_ragged(unpack_bits(data, w, col), w, col) =~= data,
    decreases data.len(),
{
    if data.len() > 0 {
        let b = data[0];
        let rest = data.skip(1);
        let k: int = if col + 8 >= w {
            row_padding(w)
        } else {
            8
        };
        let col2: int = if col + 8 >= w {
            0
        } else {
            col + 8
        };
        assert(1 <= k <= 8);
        lemma_bitpack_roundtrip_ragged(rest, w, col2);
        let u = unpack_bits(data, w, col);
        let ur = unpack_bits(rest, w, col2);
        assert(u == byte_pixels(b, k) + ur);
        assert(u.len() == k + ur.len());
        assert forall|j: int| 0 <= j < k implies u[j] == bit_pixel(b, j) by {
            assert(byte_pixels(b, k)[j] == bit_pixel(b, j));
        }
        lemma_repack_partial(b, k as u8, u);
        assert(repack_partial(u, 0, k) == b);
        if ur.len() == 0 {
            assert(u.len() == k);
            assert(repack_ragged(u, w, col) =~= seq![b]);
            assert(rest =~= Seq::<u8>::empty());
        } else {
            assert(u.skip(k) =~= ur);
            assert(repack_ragged(u, w, col) =~= seq![b] + repack_ragged(ur, w, col2));
        }
    }
}

/// Bit-unpack round trip: when the width is a whole number of bytes,
/// repacking the grayscale expansion recovers the packed input exactly.
/// (For other widths the packed input's trailing bits inside each row's
/// last byte are not represented in the output, so they cannot return.)
pub proof fn lemma_bitpack_roundtrip(data: Seq<u8>, w: int, col: int)
    requires
        w % 8 == 0,
        col % 8 == 0,
    ensures
        unpack_bits(data, w, col).len() == 8 * data.len(),
        repack_bits(unpack_bits(data, w, col)) =~= data,
    decreases data.len(),
{
    if data.len() == 0 {
    } else {
        let b = data[0];
        let rest = data.skip(1);
        let col2: int = if col + 8 >= w {
            0
        } else {
            col + 8
        };
        assert(row_padding(w) == 8);
        assert(col2 % 8 == 0);
        lemma_bitpack_roundtrip(rest, w, col2);
        let u = unpack_bits(data, w, col);
        let ur = unpack_bits(rest, w, col2);
        assert(u == byte_pixels(b, 8) + ur);
        assert(u.len() == 8 + ur.len());
        lemma_repack_one(b);
        assert forall|i: int| 0 <= i < u.len() / 8 implies repack_bits(u)[i] == data[i] by {
            if i == 0 {
                assert forall|j: int| 0 <= j < 8 implies u[j] == byte_pixels(b, 8)[j] by {}
                assert(repack_byte(u, 0) == repack_byte(byte_pixels(b, 8), 0));
            } else {
                assert forall|j: int| 0 <= j < 8 implies u[8 * i + j] == #[trigger] ur[8 * (i - 1)
                    + j] by {
                    assert(u[8 + (8 * (i - 1) + j)] == ur[8 * (i - 1) + j]);
                }
                assert(repack_byte(u, 8 * i) == repack_byte(ur, 8 * (i - 1)));
                assert(repack_bits(ur)[i - 1] == rest[i - 1]);
            }
        }
    }
}

// ---------------------------------------------------------------------
// Matrix transforms on byte-per-pixel buffers
// ---------------------------------------------------------------------
/// Source index read for destination index `d` of a 90-degree clockwise
/// rotation of an `h`-row, `w`-column matrix. The output has `w` rows of
/// `h` entries each.
pub open spec fn rotate_src(d: int, w: int, h: int) -> int {
    (h - 1 - d % h) * w + d / h
}

/// Rotates a row-major `h` by `w` pixel matrix a quarter turn clockwise.
pub fn rotate_90_clockwise(data: Vec<u8>, width: u32, height: u32) -> (r: Vec<u8>)
    requires
        data@.len() == width * height,
    ensures
        r@.len() == data@.len(),
        forall|d: int|
            0 <= d < r@.len() ==> r@[d] == data@[rotate_src(d, width as int, height as int)],
{
    let w = width as usize;
    let h = height as usize;
    let total: usize = data.len();
    let mut r: Vec<u8> = Vec::new();
    let mut dy: usize = 0;
    while dy < w
        invariant
            dy <= w,
            w == width,
            h == height,
            data@.len() == w * h,
            total == data@.len(),
            r@.len() == dy * h,
            forall|d: int| 0 <= d < r@.len() ==> r@[d] == data@[rotate_src(d, w as int, h as int)],
        decreases w - dy,
    {
        let mut dx: usize = 0;
        while dx < h
            invariant
                dy < w,
                dx <= h,
                w == width,
                h == height,
                data@.len() == w * h,
                total == data@.len(),
                r@.len() == dy * h + dx,
                forall|d: int|
                    0 <= d < r@.len() ==> r@[d] == data@[rotate_src(d, w as int, h as int)],
            decreases h - dx,
        {
            proof {
                assert((h - 1 - dx) * w + dy < w * h) by (nonlinear_arith)
                    requires
                        0 <= dx < h,
                        0 <= dy < w,
                ;
                assert(rotate_src(dy * h + dx, w as int, h as int) == (h - 1 - dx) * w + dy)
                    by (nonlinear_arith)
                    requires
                        0 <= dx < h,
                        0 <= dy,
                ;
            }
            let src: usize = (h - 1 - dx) * w + dy;
            r.push(data[src]);
            dx += 1;
        }
        dy += 1;
        proof {
            assert((dy - 1) * h + h == dy * h) by (nonlinear_arith);
        }
    }
    proof {
        assert(w * h == data@.len());
    }
    r
}

/// Source index read for destination index `d` of a horizontal flip of a
/// matrix with rows of `w` entries.
pub open spec fn flip_src(d: int, w: int) -> int {
    (d / w) * w + (w - 1 - d % w)
}

/// Mirrors each row of a row-major `h` by `w` pixel matrix.
pub fn flip_right_to_left(data: Vec<u8>, width: u32, height: u32) -> (r: Vec<u8>)
    requires
        data@.len() == width * height,
    ensures
        r@.len() == data@.len(),
        forall|d: int| 0 <= d < r@.len() ==> r@[d] == data@[flip_src(d, width as int)],
{
    let w = width as usize;
    let h = height as usize;
    let total: usize = data.len();
    let mut r: Vec<u8> = Vec::new();
    let mut y: usize = 0;
    while y < h
        invariant
            y <= h,
            w == width,
            h == height,
            data@.len() == w * h,
            total == data@.len(),
            r@.len() == y * w,
            forall|d: int| 0 <= d < r@.len() ==> r@[d] == data@[flip_src(d, w as int)],
        decreases h - y,
    {
        let mut x: usize = 0;
        while x < w
            invariant
                y < h,
                x <= w,
                w == width,
                h == height,
                data@.len() == w * h,
                total == data@.len(),
                r@.len() == y * w + x,
                forall|d: int| 0 <= d < r@.len() ==> r@[d] == data@[flip_src(d, w as int)],
            decreases w - x,
        {
            proof {
                assert(y * w + (w - 1 - x) < h * w) by (nonlinear_arith)
                    requires
                        0 <= x < w,
                        0 <= y < h,
                ;
                assert(flip_src(y * w + x, w as int) == y * w + (w - 1 - x)) by (nonlinear_arith)
                    requires
                        0 <= x < w,
                        0 <= y,
                ;
            }
            let src: usize = y * w + (w - 1 - x);
            r.push(data[src]);
            x += 1;
        }
        y += 1;
        proof {
            assert((y - 1) * w + w == y * w) by (nonlinear_arith);
        }
    }
    proof {
        assert(h * w == w * h) by (nonlinear_arith);
    }
    r
}

/// Source index read for destination index `d` of nearest-neighbor
/// scaling by `fx` horizontally and `fy` vertically, where the scaled
/// rows are `nw` entries long.
pub open spec fn scale_src(d: int, w: int, nw: int, fx: int, fy: int) -> int {
    ((d / nw) / fy) * w + (d % nw) / fx
}

/// Doubles a row-major pixel matrix along either axis by duplicating
/// pixels, nearest-neighbor fashion. Returns the new width, the new
/// height and the scaled buffer; only the first `width * height` input
/// bytes are read.
pub fn scale_pixels(bytes: &Vec<u8>, original_width: u32, original_height: u32, scale_x: bool, scale_y: bool) -> (r: (
    u32,
    u32,
    Vec<u8>,
))
    requires
        bytes@.len() >= original_width * original_height,
        original_width * 2 <= u32::MAX,
        original_height * 2 <= u32::MAX,
    ensures
        r.0 == if scale_x {
            2 * original_width
        } else {
            original_width as int
        },
        r.1 == if scale_y {
            2 * original_height
        } else {
            original_height as int
        },
        r.2@.len() == r.0 * r.1,
        forall|d: int|
            0 <= d < r.2@.len() ==> r.2@[d] == bytes@[scale_src(
                d,
                original_width as int,
                r.0 as int,
                if scale_x {
                    2int
                } else {
                    1int
                },
                if scale_y {
                    2int
                } else {
                    1int
                },
            )],
{
    let w = original_width as usize;
    let h = original_height as usize;
    let fx: usize = if scale_x {
        2
    } else {
        1
    };
    let fy: usize = if scale_y {
        2
    } else {
        1
    };
    let nw: usize = w * fx;
    let new_width: u32 = if scale_x {
        original_width * 2
    } else {
        original_width
    };
    let new_height: u32 = if scale_y {
        original_height * 2
    } else {
        original_height
    };
    let total: usize = bytes.len();
    let mut out: Vec<u8> = Vec::new();
    let mut y: usize = 0;
    proof {
        assert(0 * fy * nw == 0) by (nonlinear_arith);
    }
    while y < h
        invariant
            y <= h,
            w == original_width,
            h == original_height,
            nw == w * fx,
            fx == if scale_x { 2int } else { 1int },
            fy == if scale_y { 2int } else { 1int },
            bytes@.len() >= w * h,
            total == bytes@.len(),
            out@.len() == y * fy * nw,
            forall|d: int|
                0 <= d < out@.len() ==> out@[d] == bytes@[scale_src(
                    d,
                    w as int,
                    nw as int,
                    fx as int,
                    fy as int,
                )],
        decreases h - y,
    {
        let mut pass: usize = 0;
        while pass < fy
            invariant
                y < h,
                pass <= fy,
                w == original_width,
                h == original_height,
                nw == w * fx,
                fx == if scale_x { 2int } else { 1int },
                fy == if scale_y { 2int } else { 1int },
                bytes@.len() >= w * h,
                total == bytes@.len(),
                out@.len() == (y * fy + pass) * nw,
                forall|d: int|
                    0 <= d < out@.len() ==> out@[d] == bytes@[scale_src(
                        d,
                        w as int,
                        nw as int,
                        fx as int,
                        fy as int,
                    )],
            decreases fy - pass,
        {
            let mut x: usize = 0;
            while x < w
                invariant
                    y < h,
                    pass < fy,
                    x <= w,
                    w == original_width,
                    h == original_height,
                    nw == w * fx,
                    fx == if scale_x { 2int } else { 1int },
                    fy == if scale_y { 2int } else { 1int },
                    bytes@.len() >= w * h,
                    total == bytes@.len(),
                    out@.len() == (y * fy + pass) * nw + x * fx,
                    forall|d: int|
                        0 <= d < out@.len() ==> out@[d] == bytes@[scale_src(
                            d,
                            w as int,
                            nw as int,
                            fx as int,
                            fy as int,
                        )],
                decreases w - x,
            {
                let mut rep: usize = 0;
                while rep < fx
                    invariant
                        y < h,
                        pass < fy,
                        x < w,
                        rep <= fx,
                        w == original_width,
                        h == original_height,
                        nw == w * fx,
                        fx == if scale_x { 2int } else { 1int },
                        fy == if scale_y { 2int } else { 1int },
                        bytes@.len() >= w * h,
                        total == bytes@.len(),
                        out@.len() == (y * fy + pass) * nw + x * fx + rep,
                        forall|d: int|
                            0 <= d < out@.len() ==> out@[d] == bytes@[scale_src(
                                d,
                                w as int,
                                nw as int,
                                fx as int,
                                fy as int,
                            )],
                    decreases fx - rep,
                {
                    proof {
                        assert(y * w + x < w * h) by (nonlinear_arith)
                            requires
                                0 <= x < w,
                                0 <= y < h,
                        ;
                        let d = (y * fy + pass) * nw + x * fx + rep;
                        assert(x * fx + rep < nw) by (nonlinear_arith)
                            requires
                                nw == w * fx,
                                0 <= x < w,
                                0 <= rep < fx,
                        ;
                        assert(0 <= y * fy + pass) by (nonlinear_arith)
                            requires
                                0 <= y,
                                0 <= pass,
                        ;
                        assert(d / (nw as int) == y * fy + pass && d % (nw as int) == x * fx + rep)
                            by (nonlinear_arith)
                            requires
                                0 <= x * fx + rep < nw,
                                d == (y * fy + pass) * nw + x * fx + rep,
                                0 <= y * fy + pass,
                        ;
                        assert((x * fx + rep) / (fx as int) == x) by (nonlinear_arith)
                            requires
                                0 <= rep < fx,
                                0 <= x,
                        ;
                        assert((y * fy + pass) / (fy as int) == y) by (nonlinear_arith)
                            requires
                                0 <= pass < fy,
                                0 <= y,
                        ;
                        assert(scale_src(d, w as int, nw as int, fx as int, fy as int) == y * w
                            + x);
                        assert(w * h <= bytes@.len());
                    }
                    let src: usize = y * w + x;
                    out.push(bytes[src]);
                    rep += 1;
                }
                x += 1;
                proof {
                    assert((y * fy + pass) * nw + (x - 1) * fx + fx == (y * fy + pass) * nw + x
                        * fx) by (nonlinear_arith);
                }
            }
            pass += 1;
            proof {
                assert((y * fy + (pass - 1)) * nw + w * fx == (y * fy + pass) * nw)
                    by (nonlinear_arith)
                    requires
                        nw == w * fx,
                ;
            }
        }
        y += 1;
        proof {
            assert(((y - 1) * fy + fy) * nw == y * fy * nw) by (nonlinear_arith);
        }
    }
    proof {
        assert(h * fy * nw == (if scale_x { 2 * original_width } else { original_width as int })
            * (if scale_y { 2 * original_height } else { original_height as int }))
            by (nonlinear_arith)
            requires
                nw == w * fx,
                w == original_width,
                h == original_height,
                fx == if scale_x { 2int } else { 1int },
                fy == if scale_y { 2int } else { 1int },
        ;
    }
    (new_width, new_height, out)
}

/// Composition of the rotate and flip steps of column-to-raster
/// conversion: the unpacked-pixel index that lands at destination `d`.
pub open spec fn col_raster_src(d: int, fw: int, fh: int) -> int {
    rotate_src(flip_src(d, fw), fh, fw)
}

/// Converts column-order bit-packed data (one bit per pixel, columns of
/// `final_height` bits) into a row-major grayscale raster: unpack, rotate
/// a quarter turn clockwise, mirror horizontally, then scale if asked.
/// When the data does not hold exactly the expected number of columns,
/// the unpacked pixels are returned untransformed.
pub fn column_to_raster(pixels: &Vec<u8>, stretch: (u8, u8), final_width: u32, final_height: u32) -> (r: (
    u32,
    u32,
    Vec<u8>,
))
    requires
        final_width * 2 <= u32::MAX,
        final_height * 2 <= u32::MAX,
    ensures
        unpack_bits(pixels@, final_height as int, 0).len() != final_width * final_height ==> r.0
            == final_width && r.1 == final_height && r.2@ == unpack_bits(
            pixels@,
            final_height as int,
            0,
        ),
        unpack_bits(pixels@, final_height as int, 0).len() == final_width * final_height && !(
        stretch.0 > 1 || stretch.1 > 1) ==> r.0 == final_width && r.1 == final_height
            && r.2@.len() == final_width * final_height && (forall|d: int|
            0 <= d < r.2@.len() ==> r.2@[d] == unpack_bits(pixels@, final_height as int, 0)[
                col_raster_src(d, final_width as int, final_height as int)]),
        unpack_bits(pixels@, final_height as int, 0).len() == final_width * final_height && (
        stretch.0 > 1 || stretch.1 > 1) ==> {
            &&& r.0 == if stretch.0 > 1 {
                2 * final_width
            } else {
                final_width as int
            }
            &&& r.1 == if stretch.1 > 1 {
                2 * final_height
            } else {
                final_height as int
            }
            &&& r.2@.len() == r.0 * r.1
            &&& (forall|d: int|
                0 <= d < r.2@.len() ==> r.2@[d] == unpack_bits(pixels@, final_height as int, 0)[
                    col_raster_src(
                        scale_src(
                            d,
                            final_width as int,
                            r.0 as int,
                            if stretch.0 > 1 {
                                2int
                            } else {
                                1int
                            },
                            if stretch.1 > 1 {
                                2int
                            } else {
                                1int
                            },
                        ),
                        final_width as int,
                        final_height as int,
                    )])
        },
{
    let unpacked = bitpacked_to_grayscale(pixels, final_height);
    proof {
        assert((final_width as int) * (final_height as int) < 0x10000000000000000)
            by (nonlinear_arith)
            requires
                final_width < 0x100000000,
                final_height < 0x100000000,
        ;
    }
    let expected: u64 = (final_width as u64) * (final_height as u64);
    if unpacked.len() as u64 != expected {
        return (final_width, final_height, unpacked);
    }
    proof {
        assert(final_height as int * final_width as int == final_width as int
            * final_height as int) by (nonlinear_arith);
    }
    let rot = rotate_90_clockwise(unpacked, final_height, final_width);
    let ghost u = unpack_bits(pixels@, final_height as int, 0);
    let flip = flip_right_to_left(rot, final_width, final_height);
    proof {
        let fwi = final_width as int;
        let fhi = final_height as int;
        assert forall|d: int| 0 <= d < flip@.len() implies 0 <= #[trigger] flip_src(d, fwi)
            < rot@.len() by {
            assert(fwi > 0 && fhi > 0) by (nonlinear_arith)
                requires
                    0 <= d < fwi * fhi,
                    fwi >= 0,
                    fhi >= 0,
            ;
            assert(0 <= d / fwi < fhi && 0 <= d % fwi < fwi) by (nonlinear_arith)
                requires
                    0 <= d < fwi * fhi,
                    fwi > 0,
            ;
            assert((d / fwi) * fwi + (fwi - 1 - d % fwi) < fhi * fwi) by (nonlinear_arith)
                requires
                    0 <= d / fwi < fhi,
                    0 <= d % fwi < fwi,
            ;
        }
        assert forall|d: int| 0 <= d < flip@.len() implies #[trigger] flip@[d] == u[
            col_raster_src(d, fwi, fhi)] by {
            let e = flip_src(d, fwi);
            assert(0 <= e < rot@.len());
            assert(flip@[d] == rot@[e]);
            assert(rot@[e] == u[rotate_src(e, fhi, fwi)]);
        }
    }
    if stretch.0 > 1 || stretch.1 > 1 {
        let scaled = scale_pixels(&flip, final_width, final_height, stretch.0 > 1, stretch.1 > 1);
        proof {
            let fwi = final_width as int;
            let fhi = final_height as int;
            let fx: int = if stretch.0 > 1 {
                2
            } else {
                1
            };
            let fy: int = if stretch.1 > 1 {
                2
            } else {
                1
            };
            let nw = scaled.0 as int;
            let nh = scaled.1 as int;
            assert forall|d: int| 0 <= d < scaled.2@.len() implies 0 <= #[trigger] scale_src(
                d,
                fwi,
                nw,
                fx,
                fy,
            ) < flip@.len() by {
                assert(nw > 0 && nh > 0) by (nonlinear_arith)
                    requires
                        0 <= d < nw * nh,
                        nw >= 0,
                        nh >= 0,
                ;
                assert(0 <= d / nw < nh && 0 <= d % nw < nw) by (nonlinear_arith)
                    requires
                        0 <= d < nw * nh,
                        nw > 0,
                ;
                assert(0 <= (d / nw) / fy < fhi) by (nonlinear_arith)
                    requires
                        0 <= d / nw < nh,
                        nh == fy * fhi,
                        fy >= 1,
                ;
                assert(0 <= (d % nw) / fx < fwi) by (nonlinear_arith)
                    requires
                        0 <= d % nw < nw,
                        nw == fx * fwi,
                        fx >= 1,
                ;
                assert(((d / nw) / fy) * fwi + (d % nw) / fx < fhi * fwi) by (nonlinear_arith)
                    requires
                        0 <= (d / nw) / fy < fhi,
                        0 <= (d % nw) / fx < fwi,
                ;
                assert(fwi * fhi == fhi * fwi) by (nonlinear_arith);
            }
        }
        scaled
    } else {
        (final_width, final_height, flip)
    }
}

/// Decimal digits of `n`, as ASCII bytes, most significant first.
pub open spec fn dec_rep(n: int) -> Seq<u8>
    recommends
        n >= 0,
    decreases n,
{
    if n < 10 {
        seq![(48 + if n >= 0 {
            n
        } else {
            0
        }) as u8]
    } else {
        dec_rep(n / 10) + seq![(48 + n % 10) as u8]
    }
}

/// Appends the decimal digits of `n` to `out`.
pub fn push_decimal(out: &mut Vec<u8>, n: u32)
    ensures
        final(out)@ == old(out)@ + dec_rep(n as int),
    decreases n,
{
    if n < 10 {
        out.push(48 + n as u8);
        proof {
            assert(out@ =~= old(out)@ + dec_rep(n as int));
        }
    } else {
        push_decimal(out, n / 10);
        out.push(48 + (n % 10) as u8);
        proof {
            assert(out@ =~= old(out)@ + dec_rep(n as int));
        }
    }
}

/// Copies the bytes of `data` from `start` to the end.
pub fn tail_from(data: &Vec<u8>, start: usize) -> (r: Vec<u8>)
    requires
        start <= data@.len(),
    ensures
        r@ == data@.subrange(start as int, data@.len() as int),
{
    let mut r: Vec<u8> = Vec::new();
    let mut i: usize = start;
    while i < data.len()
        invariant
            start <= i <= data@.len(),
            r@ == data@.subrange(start as int, i as int),
        decreases data@.len() - i,
    {
        r.push(data[i]);
        i += 1;
        proof {
            assert(r@ =~= data@.subrange(start as int, i as int));
        }
    }
    r
}

impl Image {
    /// A portable-bitmap rendering of the raw pixel buffer, used for
    /// debugging: the PBM magic and dimensions followed by the bytes.
    pub fn as_pbm(&self) -> (r: Vec<u8>)
        ensures
            r@ == seq![0x50u8, 0x34u8, 0x0Au8] + dec_rep(self.w as int) + seq![32u8] + dec_rep(
                self.h as int,
            ) + self.pixels@,
    {
        let mut data: Vec<u8> = Vec::new();
        data.push(0x50);
        data.push(0x34);
        data.push(0x0A);
        push_decimal(&mut data, self.w);
        data.push(32);
        push_decimal(&mut data, self.h);
        let ghost head = data@;
        let mut i: usize = 0;
        while i < self.pixels.len()
            invariant
                i <= self.pixels@.len(),
                data@ == head + self.pixels@.subrange(0, i as int),
            decreases self.pixels@.len() - i,
        {
            data.push(self.pixels[i]);
            i += 1;
            proof {
                assert(data@ =~= head + self.pixels@.subrange(0, i as int));
            }
        }
        proof {
            assert(self.pixels@.subrange(0, self.pixels@.len() as int) =~= self.pixels@);
            assert(data@ =~= seq![0x50u8, 0x34u8, 0x0Au8] + dec_rep(self.w as int) + seq![32u8]
                + dec_rep(self.h as int) + self.pixels@);
        }
        data
    }

    /// One grayscale byte per pixel: the buffer itself when it is already
    /// byte-per-pixel, else the bit-packed rows expanded.
    pub fn as_grayscale(&self) -> (r: Vec<u8>)
        ensures
            self.pixel_type == PixelType::MonochromeByte ==> r@ == self.pixels@,
            self.pixel_type != PixelType::MonochromeByte ==> r@ == unpack_bits(
                self.pixels@,
                self.w as int,
                0,
            ),
    {
        if self.pixel_type == PixelType::MonochromeByte {
            return clone_bytes(&self.pixels);
        }
        bitpacked_to_grayscale(&self.pixels, self.w)
    }

    /// Reads an image from a raster-format parameter block: pixel-type
    /// byte, two stretch bytes, a color byte, then width and height as
    /// little-endian pairs, then the pixel bytes. Doubles the buffer
    /// along an axis when the stretch bytes ask for it and the buffer
    /// holds a full byte-per-pixel grid.
    pub fn from_raster_data(data: &Vec<u8>) -> (r: Option<Image>)
        ensures
            data@.len() < 8 ==> r is None,
            data@.len() >= 8 ==> r is Some && raster_parse_ok(data@, r->Some_0, ImageFlow::Block),
    {
        if data.len() < 8 {
            return None;
        }
        let a = data[0];
        let bx = data[1];
        let by = data[2];
        let c = data[3];
        let x1 = data[4];
        let x2 = data[5];
        let y1 = data[6];
        let y2 = data[7];
        let width: u32 = x1 as u32 + x2 as u32 * 256;
        let height: u32 = y1 as u32 + y2 as u32 * 256;

        let pixel_type = match a {
            48 => PixelType::Monochrome(c),
            52 => PixelType::MultipleTone(c, 1),
            _ => PixelType::Unknown,
        };

        let rest = tail_from(data, 8);
        proof {
            assert(width as int * height as int <= 65535 * 65535) by (nonlinear_arith)
                requires
                    width <= 65535,
                    height <= 65535,
            ;
        }
        let grid: usize = (width as usize) * (height as usize);
        let (w, h, px) = if (bx > 1 || by > 1) && rest.len() >= grid {
            scale_pixels(&rest, width, height, bx > 1, by > 1)
        } else {
            (width, height, rest)
        };

        Some(
            Image {
                pixels: px,
                x: 0,
                y: 0,
                w,
                h,
                pixel_type,
                stretch: (bx, by),
                flow: ImageFlow::Block,
                upside_down: false,
            },
        )
    }

    /// Reads an image from a column-format parameter block; same layout
    /// as the raster form, but the image takes part in the line flow.
    pub fn from_column_data(data: &Vec<u8>) -> (r: Option<Image>)
        ensures
            data@.len() < 8 ==> r is None,
            data@.len() >= 8 ==> r is Some && raster_parse_ok(data@, r->Some_0, ImageFlow::Inline),
    {
        if data.len() < 8 {
            return None;
        }
        let a = data[0];
        let bx = data[1];
        let by = data[2];
        let c = data[3];
        let x1 = data[4];
        let x2 = data[5];
        let y1 = data[6];
        let y2 = data[7];
        let width: u32 = x1 as u32 + x2 as u32 * 256;
        let height: u32 = y1 as u32 + y2 as u32 * 256;

        let pixel_type = match a {
            48 => PixelType::Monochrome(c),
            52 => PixelType::MultipleTone(c, 1),
            _ => PixelType::Unknown,
        };

        let rest = tail_from(data, 8);
        proof {
            assert(width as int * height as int <= 65535 * 65535) by (nonlinear_arith)
                requires
                    width <= 65535,
                    height <= 65535,
            ;
        }
        let grid: usize = (width as usize) * (height as usize);
        let (w, h, px) = if (bx > 1 || by > 1) && rest.len() >= grid {
            scale_pixels(&rest, width, height, bx > 1, by > 1)
        } else {
            (width, height, rest)
        };

        Some(
            Image {
                pixels: px,
                x: 0,
                y: 0,
                w,
                h,
                pixel_type,
                stretch: (bx, by),
                flow: ImageFlow::Inline,
                upside_down: false,
            },
        )
    }

    /// Reads a keyed image definition: pixel-type byte, two key-code
    /// bytes, a tone-count byte, width and height pairs, one reserved
    /// byte, then pixels. Returns the storage key with the image.
    pub fn from_raster_data_with_ref(data: &Vec<u8>, storage: ImageRefStorage) -> (r: Option<
        (ImageRef, Image),
    >)
        ensures
            data@.len() < 9 ==> r is None,
            data@.len() >= 9 ==> r is Some && keyed_parse_ok(
                data@,
                storage,
                9,
                ImageFlow::Block,
                r->Some_0.0,
                r->Some_0.1,
            ),
    {
        if data.len() < 9 {
            return None;
        }
        let a = data[0];
        let kc1 = data[1];
        let kc2 = data[2];
        let b = data[3];
        let x1 = data[4];
        let x2 = data[5];
        let y1 = data[6];
        let y2 = data[7];
        let width: u32 = x1 as u32 + x2 as u32 * 256;
        let height: u32 = y1 as u32 + y2 as u32 * 256;

        let pixel_type = match a {
            48 => PixelType::Monochrome(1),
            52 => PixelType::MultipleTone(1, b),
            _ => PixelType::Unknown,
        };

        let pixels = tail_from(data, 9);

        Some(
            (
                ImageRef { kc1, kc2, storage },
                Image {
                    pixels,
                    x: 0,
                    y: 0,
                    w: width,
                    h: height,
                    pixel_type,
                    stretch: (1, 1),
                    flow: ImageFlow::Block,
                    upside_down: false,
                },
            ),
        )
    }

    /// Reads a keyed column-format image definition; the pixels start
    /// right after the eight header bytes.
    pub fn from_column_data_with_ref(data: &Vec<u8>, storage: ImageRefStorage) -> (r: Option<
        (ImageRef, Image),
    >)
        ensures
            data@.len() < 8 ==> r is None,
            data@.len() >= 8 ==> r is Some && keyed_parse_ok(
                data@,
                storage,
                8,
                ImageFlow::Inline,
                r->Some_0.0,
                r->Some_0.1,
            ),
    {
        if data.len() < 8 {
            return None;
        }
        let a = data[0];
        let kc1 = data[1];
        let kc2 = data[2];
        let b = data[3];
        let x1 = data[4];
        let x2 = data[5];
        let y1 = data[6];
        let y2 = data[7];
        let width: u32 = x1 as u32 + x2 as u32 * 256;
        let height: u32 = y1 as u32 + y2 as u32 * 256;

        let pixel_type = match a {
            48 => PixelType::Monochrome(1),
            52 => PixelType::MultipleTone(1, b),
            _ => PixelType::Unknown,
        };

        let pixels = tail_from(data, 8);

        Some(
            (
                ImageRef { kc1, kc2, storage },
                Image {
                    pixels,
                    x: 0,
                    y: 0,
                    w: width,
                    h: height,
                    pixel_type,
                    stretch: (1, 1),
                    flow: ImageFlow::Inline,
                    upside_down: false,
                },
            ),
        )
    }
}

/// The pixel type selected by the first byte of an image parameter block.
pub open spec fn parsed_pixel_type(a: u8, c: u8, tones: u8) -> PixelType {
    if a == 48 {
        PixelType::Monochrome(c)
    } else if a == 52 {
        PixelType::MultipleTone(c, tones)
    } else {
        PixelType::Unknown
    }
}

/// What `from_raster_data` and `from_column_data` promise of a parsed
/// image, given the raw parameter block.
pub open spec fn raster_parse_ok(data: Seq<u8>, img: Image, flow: ImageFlow) -> bool {
    let w0 = data[4] + 256 * data[5];
    let h0 = data[6] + 256 * data[7];
    let rest = data.subrange(8, data.len() as int);
    let scaled = (data[1] > 1 || data[2] > 1) && rest.len() >= w0 * h0;
    &&& img.x == 0
    &&& img.y == 0
    &&& img.pixel_type == parsed_pixel_type(data[0], data[3], 1)
    &&& img.stretch == (data[1], data[2])
    &&& img.flow == flow
    &&& !img.upside_down
    &&& !scaled ==> img.w == w0 && img.h == h0 && img.pixels@ == rest
    &&& scaled ==> {
        &&& img.w == if data[1] > 1 {
            2 * w0
        } else {
            w0
        }
        &&& img.h == if data[2] > 1 {
            2 * h0
        } else {
            h0
        }
        &&& img.pixels@.len() == img.w * img.h
        &&& (forall|d: int|
            0 <= d < img.pixels@.len() ==> img.pixels@[d] == rest[scale_src(
                d,
                w0,
                img.w as int,
                if data[1] > 1 {
                    2int
                } else {
                    1int
                },
                if data[2] > 1 {
                    2int
                } else {
                    1int
                },
            )])
    }
}

/// What the keyed image readers promise: the storage key from bytes one
/// and two, and an unscaled image whose pixels start at `start`.
pub open spec fn keyed_parse_ok(
    data: Seq<u8>,
    storage: ImageRefStorage,
    start: int,
    flow: ImageFlow,
    key: ImageRef,
    img: Image,
) -> bool {
    &&& key == (ImageRef { kc1: data[1], kc2: data[2], storage })
    &&& img.x == 0
    &&& img.y == 0
    &&& img.w == data[4] + 256 * data[5]
    &&& img.h == data[6] + 256 * data[7]
    &&& img.pixel_type == parsed_pixel_type(data[0], 1, data[3])
    &&& img.stretch == (1u8, 1u8)
    &&& img.flow == flow
    &&& !img.upside_down
    &&& img.pixels@ == data.subrange(start, data.len() as int)
}

/// The style fields a span takes over from the context when it is
/// created: sizes in pixels, line thicknesses from the point measures,
/// stretch factors from the size multipliers.
pub open spec fn span_styled_from(r: TextSpan, c: Context, font: Font) -> bool {
    &&& r.font == font
    &&& r.size == c.text.font_size * c.graphics.dots_per_inch / 96
    &&& r.bold == c.text.bold
    &&& r.italic == c.text.italic
    &&& r.underline == match c.text.underline {
        TextUnderline::On => c.graphics.dots_per_inch as int / 96,
        TextUnderline::Double => 2 * c.graphics.dots_per_inch as int / 96,
        TextUnderline::Off => 0int,
    }
    &&& r.strikethrough == match c.text.strikethrough {
        TextStrikethrough::On => c.graphics.dots_per_inch as int / 96,
        TextStrikethrough::Double => 2 * c.graphics.dots_per_inch as int / 96,
        TextStrikethrough::Off => 0int,
    }
    &&& r.stretch_width == c.text.width_mult
    &&& r.stretch_height == c.text.height_mult
    &&& r.inverted == c.text.invert
    &&& r.upside_down == c.text.upside_down
    &&& r.justify == c.text.justify
    &&& r.character_width == c.text.character_width * c.text.width_mult
    &&& r.character_height == c.text.character_height * c.text.height_mult
}

impl TextSpan {
    /// Resolves a run of text against the current text style.
    pub fn new(text: String, context: &Context) -> (r: TextSpan)
        ensures
            r.text@ == text@,
            span_styled_from(r, *context, context.text.font),
    {
        TextSpan::styled(text, context, context.text.font)
    }

    /// Resolves the human-readable text of a barcode, which uses the
    /// barcode font instead of the text font.
    pub fn new_for_barcode(text: String, context: &Context) -> (r: TextSpan)
        ensures
            r.text@ == text@,
            span_styled_from(r, *context, context.barcode.font),
    {
        TextSpan::styled(text, context, context.barcode.font)
    }

    fn styled(text: String, context: &Context, font: Font) -> (r: TextSpan)
        ensures
            r.text@ == text@,
            span_styled_from(r, *context, font),
    {
        let dpi = context.graphics.dots_per_inch as u32;
        let one_point: u32 = dpi / 96;
        let two_points: u32 = (2 * dpi) / 96;
        let underline: u32 = match context.text.underline {
            TextUnderline::On => one_point,
            TextUnderline::Double => two_points,
            TextUnderline::Off => 0,
        };
        let strikethrough: u32 = match context.text.strikethrough {
            TextStrikethrough::On => one_point,
            TextStrikethrough::Double => two_points,
            TextStrikethrough::Off => 0,
        };
        proof {
            assert(context.text.font_size as int * context.graphics.dots_per_inch as int <= 255
                * 65535) by (nonlinear_arith)
                requires
                    context.text.font_size <= 255,
                    context.graphics.dots_per_inch <= 65535,
            ;
            assert(context.text.character_width as int * context.text.width_mult as int <= 255
                * 255 && context.text.character_height as int * context.text.height_mult as int
                <= 255 * 255) by (nonlinear_arith)
                requires
                    context.text.character_width <= 255,
                    context.text.width_mult <= 255,
                    context.text.character_height <= 255,
                    context.text.height_mult <= 255,
            ;
        }
        TextSpan {
            font,
            size: (context.text.font_size as u32 * dpi) / 96,
            text,
            bold: context.text.bold,
            italic: context.text.italic,
            underline,
            strikethrough,
            stretch_width: context.text.width_mult,
            stretch_height: context.text.height_mult,
            inverted: context.text.invert,
            upside_down: context.text.upside_down,
            justify: context.text.justify,
            character_width: context.text.character_width as u32
                * context.text.width_mult as u32,
            character_height: context.text.character_height as u32
                * context.text.height_mult as u32,
        }
    }
}

} // verus!
