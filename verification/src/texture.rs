//! Expanding stored pixels to linear RGBA8.

use vstd::prelude::*;
use crate::bytes::{be_u16, copy_range, read_u16};
use crate::format::{bits_per_pixel, palette_len, ImgFmt};

verus! {

/// One RGBA8 pixel.
#[derive(Clone, Copy, Debug, PartialEq, Eq, Structural)]
pub struct Rgba {
    pub r: u8,
    pub g: u8,
    pub b: u8,
    pub a: u8,
}

impl Rgba {
    /// The four bytes of the pixel, red first.
    pub open spec fn bytes(self) -> Seq<u8> {
        seq![self.r, self.g, self.b, self.a]
    }
}

/// A five-bit channel widened to eight bits: the value moved up three places,
/// with its top two bits repeated below.
pub open spec fn expand5(v: int) -> int {
    v * 8 + v / 8
}

/// A four-bit channel widened to eight bits by repeating the nibble.
pub open spec fn expand4(v: int) -> int {
    v * 17
}

/// A three-bit channel widened to eight bits by repeating its bits.
pub open spec fn expand3(v: int) -> int {
    v * 32 + v * 4 + v / 2
}

/// A one-bit alpha spread over the whole byte.
pub open spec fn expand1(bit: int) -> int {
    if bit != 0 {
        0xFF
    } else {
        0
    }
}

/// The pixel a 16-bit RGBA5551 value stands for.
pub open spec fn rgba5551(val: int) -> Rgba {
    Rgba {
        r: expand5(val / 2048 % 32) as u8,
        g: expand5(val / 64 % 32) as u8,
        b: expand5(val / 2 % 32) as u8,
        a: expand1(val % 2) as u8,
    }
}

/// The widenings as patterns of bits: a channel of five bits is moved up
/// three places and has its top two bits repeated below, one of four bits
/// is repeated once, and one of three bits is repeated twice and once more
/// without its last bit.
pub proof fn lemma_widenings_repeat_bits(v: u8)
    ensures
        v < 32 ==> expand5(v as int) == ((v << 3) | (v >> 3)),
        v < 16 ==> expand4(v as int) == ((v << 4) | v),
        v < 8 ==> expand3(v as int) == ((v << 5) | (v << 2) | (v >> 1)),
{
    assert(v < 32 ==> v * 8 + v / 8 == ((v << 3) | (v >> 3))) by (bit_vector);
    assert(v < 16 ==> v * 17 == ((v << 4) | v)) by (bit_vector);
    assert(v < 8 ==> v * 32 + v * 4 + v / 2 == ((v << 5) | (v << 2) | (v >> 1))) by (bit_vector);
}

/// The channels of an RGBA5551 value as fields of bits: five bits of red on
/// top, then five of green, five of blue, and one of alpha at the bottom.
pub proof fn lemma_rgba5551_fields(val: u16)
    ensures
        val as int / 2048 % 32 == (val >> 11) & 0x1f,
        val as int / 64 % 32 == (val >> 6) & 0x1f,
        val as int / 2 % 32 == (val >> 1) & 0x1f,
        val as int % 2 == val & 0x1,
{
    assert(val / 2048 % 32 == (val >> 11) & 0x1f) by (bit_vector);
    assert(val / 64 % 32 == (val >> 6) & 0x1f) by (bit_vector);
    assert(val / 2 % 32 == (val >> 1) & 0x1f) by (bit_vector);
    assert(val % 2 == val & 0x1) by (bit_vector);
}

/// A grey pixel of intensity `v` and alpha `a`.
pub open spec fn grey(v: int, a: int) -> Rgba {
    Rgba { r: v as u8, g: v as u8, b: v as u8, a: a as u8 }
}

/// The `p`-th four-bit value of `src`, high nibble first.
pub open spec fn nibble(src: Seq<u8>, p: int) -> int {
    if p % 2 == 0 {
        src[p / 2] as int / 16
    } else {
        src[p / 2] as int % 16
    }
}

/// How many whole pixels `len` stored bytes hold.
pub open spec fn pixel_count(fmt: ImgFmt, len: int) -> int {
    match fmt {
        ImgFmt::CI4 | ImgFmt::I4 | ImgFmt::IA4 => 2 * len,
        ImgFmt::CI8 | ImgFmt::I8 | ImgFmt::IA8 => len,
        ImgFmt::RGBA16 => len / 2,
        ImgFmt::RGBA32 => len / 4,
        ImgFmt::Unknown(_) => 0,
    }
}

/// The pixel that the stored value `v`, a nibble or a byte, stands for in a
/// format of four or eight bits.
pub open spec fn entry_pixel(fmt: ImgFmt, palette: Seq<u8>, v: int) -> Rgba {
    match fmt {
        ImgFmt::CI4 | ImgFmt::CI8 => rgba5551(be_u16(palette, 2 * v)),
        ImgFmt::I4 => grey(expand4(v), 0xFF),
        ImgFmt::I8 => grey(v, 0xFF),
        ImgFmt::IA4 => grey(expand3(v / 2), expand1(v % 2)),
        ImgFmt::IA8 => grey(expand4(v / 16), expand4(v % 16)),
        _ => Rgba { r: 0, g: 0, b: 0, a: 0 },
    }
}

/// The `p`-th pixel of `src`, read in format `fmt` with `palette`.
pub open spec fn pixel(fmt: ImgFmt, palette: Seq<u8>, src: Seq<u8>, p: int) -> Rgba {
    match fmt {
        ImgFmt::CI4 | ImgFmt::I4 | ImgFmt::IA4 => entry_pixel(fmt, palette, nibble(src, p)),
        ImgFmt::CI8 | ImgFmt::I8 | ImgFmt::IA8 => entry_pixel(fmt, palette, src[p] as int),
        ImgFmt::RGBA16 => rgba5551(be_u16(src, 2 * p)),
        ImgFmt::RGBA32 => Rgba { r: src[4 * p], g: src[4 * p + 1], b: src[4 * p + 2], a: src[4 * p + 3] },
        ImgFmt::Unknown(_) => Rgba { r: 0, g: 0, b: 0, a: 0 },
    }
}

/// The RGBA8 bytes that `src` expands to. A 32-bit source passes through as
/// it is; every other format yields four bytes for each whole pixel.
pub open spec fn decode(fmt: ImgFmt, palette: Seq<u8>, src: Seq<u8>) -> Seq<u8> {
    if fmt == ImgFmt::RGBA32 {
        src
    } else {
        Seq::new(
            (4 * pixel_count(fmt, src.len() as int)) as nat,
            |k: int| pixel(fmt, palette, src, k / 4).bytes()[k % 4],
        )
    }
}

/// Whether a palette of `len` bytes has an entry for every index the format can hold.
pub open spec fn palette_fits(fmt: ImgFmt, len: int) -> bool {
    len >= palette_len(fmt)
}

fn widen5(v: u16) -> (r: u8)
    requires
        v < 32,
    ensures
        r == expand5(v as int),
{
    (v * 8 + v / 8) as u8
}

fn widen3(v: u8) -> (r: u8)
    requires
        v < 8,
    ensures
        r == expand3(v as int),
{
    v * 32 + v * 4 + v / 2
}

fn widen1(bit: u8) -> (r: u8)
    ensures
        r == expand1(bit as int),
{
    if bit != 0 {
        0xFF
    } else {
        0
    }
}

fn rgba5551_pixel(val: u16) -> (px: Rgba)
    ensures
        px == rgba5551(val as int),
{
    Rgba {
        r: widen5(val / 2048 % 32),
        g: widen5(val / 64 % 32),
        b: widen5(val / 2 % 32),
        a: widen1((val % 2) as u8),
    }
}

fn grey_pixel(v: u8, a: u8) -> (px: Rgba)
    ensures
        px == grey(v as int, a as int),
{
    Rgba { r: v, g: v, b: v, a }
}

fn push_pixel(out: &mut Vec<u8>, px: Rgba)
    ensures
        final(out)@ == old(out)@ + px.bytes(),
{
    out.push(px.r);
    out.push(px.g);
    out.push(px.b);
    out.push(px.a);
}

/// The pixel of one stored nibble or byte.
fn entry_pixel_of(fmt: ImgFmt, palette: &[u8], v: u8) -> (px: Rgba)
    requires
        palette_fits(fmt, palette.len() as int),
        bits_per_pixel(fmt) == 4 ==> v < 16,
    ensures
        px == entry_pixel(fmt, palette@, v as int),
{
    match fmt {
        ImgFmt::CI4 | ImgFmt::CI8 => rgba5551_pixel(read_u16(palette, 2 * (v as usize))),
        ImgFmt::I4 => grey_pixel(v * 17, 0xFF),
        ImgFmt::I8 => grey_pixel(v, 0xFF),
        ImgFmt::IA4 => grey_pixel(widen3(v / 2), widen1(v % 2)),
        ImgFmt::IA8 => grey_pixel(v / 16 * 17, v % 16 * 17),
        _ => Rgba { r: 0, g: 0, b: 0, a: 0 },
    }
}

/// Expands a source of two pixels to the byte.
fn decode_nibbles(fmt: ImgFmt, palette: &[u8], src: &[u8]) -> (out: Vec<u8>)
    requires
        bits_per_pixel(fmt) == 4,
        palette_fits(fmt, palette.len() as int),
    ensures
        out@ == decode(fmt, palette@, src@),
{
    let mut out: Vec<u8> = Vec::new();
    let mut i: usize = 0;
    while i < src.len()
        invariant
            bits_per_pixel(fmt) == 4,
            palette_fits(fmt, palette.len() as int),
            i <= src.len(),
            out@.len() == 8 * i,
            forall|k: int| 0 <= k < out@.len() ==> out@[k] == pixel(fmt, palette@, src@, k / 4).bytes()[k % 4],
        decreases src.len() - i,
    {
        let ghost before = out@;
        let hi: Rgba = entry_pixel_of(fmt, palette, src[i] / 16);
        let lo: Rgba = entry_pixel_of(fmt, palette, src[i] % 16);
        push_pixel(&mut out, hi);
        push_pixel(&mut out, lo);
        proof {
            assert(hi == pixel(fmt, palette@, src@, 2 * i));
            assert forall|k: int| 0 <= k < out@.len() implies out@[k] == pixel(
                fmt,
                palette@,
                src@,
                k / 4,
            ).bytes()[k % 4] by {
                if k < 8 * i {
                    assert(out@[k] == before[k]);
                }
            }
        }
        i += 1;
    }
    out
}

/// Expands a source of one pixel to the byte.
fn decode_bytes(fmt: ImgFmt, palette: &[u8], src: &[u8]) -> (out: Vec<u8>)
    requires
        bits_per_pixel(fmt) == 8,
        palette_fits(fmt, palette.len() as int),
    ensures
        out@ == decode(fmt, palette@, src@),
{
    let mut out: Vec<u8> = Vec::new();
    let mut i: usize = 0;
    while i < src.len()
        invariant
            bits_per_pixel(fmt) == 8,
            palette_fits(fmt, palette.len() as int),
            i <= src.len(),
            out@.len() == 4 * i,
            forall|k: int| 0 <= k < out@.len() ==> out@[k] == pixel(fmt, palette@, src@, k / 4).bytes()[k % 4],
        decreases src.len() - i,
    {
        let px: Rgba = entry_pixel_of(fmt, palette, src[i]);
        push_pixel(&mut out, px);
        i += 1;
    }
    out
}

/// Expands a source of 16-bit RGBA5551 pixels; a last odd byte is left out.
fn decode_words(src: &[u8]) -> (out: Vec<u8>)
    ensures
        out@ == decode(ImgFmt::RGBA16, Seq::empty(), src@),
{
    let mut out: Vec<u8> = Vec::new();
    let count: usize = src.len() / 2;
    let mut i: usize = 0;
    while i < count
        invariant
            count == src.len() / 2,
            i <= count,
            out@.len() == 4 * i,
            forall|k: int| 0 <= k < out@.len() ==> out@[k] == rgba5551(be_u16(src@, 2 * (k / 4))).bytes()[k % 4],
        decreases count - i,
    {
        let px: Rgba = rgba5551_pixel(read_u16(src, 2 * i));
        push_pixel(&mut out, px);
        i += 1;
    }
    out
}

/// Expands `src`, stored in format `fmt`, to RGBA8.
pub fn decode_pixels(fmt: ImgFmt, palette: &[u8], src: &[u8]) -> (out: Vec<u8>)
    requires
        palette_fits(fmt, palette.len() as int),
    ensures
        out@ == decode(fmt, palette@, src@),
{
    match fmt {
        ImgFmt::CI4 | ImgFmt::I4 | ImgFmt::IA4 => decode_nibbles(fmt, palette, src),
        ImgFmt::CI8 | ImgFmt::I8 | ImgFmt::IA8 => decode_bytes(fmt, palette, src),
        ImgFmt::RGBA16 => {
            let out = decode_words(src);
            out
        },
        ImgFmt::RGBA32 => copy_range(src, 0, src.len()),
        ImgFmt::Unknown(_) => {
            let out: Vec<u8> = Vec::new();
            out
        },
    }
}

/// A texture as it is stored: its format and size, the palette of an indexed
/// format, and the pixel bytes.
pub struct Texture {
    texture_type: ImgFmt,
    w: usize,
    h: usize,
    palette: Option<Vec<u8>>,
    pixel_data: Vec<u8>,
}

/// What a [`Texture`] holds, as plain values.
pub struct TextureView {
    pub format: ImgFmt,
    pub w: nat,
    pub h: nat,
    pub palette: Option<Seq<u8>>,
    pub pixel_data: Seq<u8>,
}

impl TextureView {
    /// An indexed format has its whole palette, any other format has none.
    pub open spec fn wf(self) -> bool {
        match self.palette {
            Some(p) => palette_len(self.format) > 0 && p.len() == palette_len(self.format),
            None => palette_len(self.format) == 0,
        }
    }

    /// The palette bytes, empty where there is no palette.
    pub open spec fn palette_bytes(self) -> Seq<u8> {
        match self.palette {
            Some(p) => p,
            None => Seq::empty(),
        }
    }

    /// Whether the pixel bytes are exactly those of a `w` by `h` image.
    pub open spec fn is_tight(self) -> bool {
        self.pixel_data.len() * 8 == (self.w * self.h) * bits_per_pixel(self.format)
    }

    /// The texture as RGBA8.
    pub open spec fn rgba(self) -> Seq<u8> {
        decode(self.format, self.palette_bytes(), self.pixel_data)
    }
}

impl View for Texture {
    type V = TextureView;

    closed spec fn view(&self) -> TextureView {
        TextureView {
            format: self.texture_type,
            w: self.w as nat,
            h: self.h as nat,
            palette: match self.palette {
                Some(p) => Some(p@),
                None => None,
            },
            pixel_data: self.pixel_data@,
        }
    }
}

/// A tight image of `w` by `h` pixels expands to four bytes for each pixel.
pub proof fn lemma_tight_texture_len(t: TextureView)
    requires
        t.is_tight(),
        !(t.format is Unknown),
    ensures
        t.rgba().len() == 4 * (t.w * t.h),
{
}

impl Texture {
    #[verifier::type_invariant]
    spec fn inv(&self) -> bool {
        self@.wf()
    }

    /// Splits `bin` into the palette that the format calls for and the pixel
    /// bytes that follow it.
    pub fn new(texture_type: ImgFmt, w: usize, h: usize, bin: &[u8]) -> (t: Texture)
        requires
            bin.len() >= palette_len(texture_type),
        ensures
            t@.wf(),
            t@.format == texture_type,
            t@.w == w,
            t@.h == h,
            t@.palette == (if palette_len(texture_type) > 0 {
                Some(bin@.subrange(0, palette_len(texture_type)))
            } else {
                None
            }),
            t@.pixel_data == bin@.subrange(palette_len(texture_type), bin@.len() as int),
    {
        let split: usize = match texture_type {
            ImgFmt::CI4 => 0x20,
            ImgFmt::CI8 => 0x200,
            _ => 0,
        };
        let palette: Option<Vec<u8>> = if split > 0 {
            Some(copy_range(bin, 0, split))
        } else {
            None
        };
        Texture { texture_type, w, h, palette, pixel_data: copy_range(bin, split, bin.len()) }
    }

    /// The texture expanded to RGBA8, row after row.
    pub fn to_rgba32(&self) -> (out: Vec<u8>)
        requires
            !(self@.format is Unknown),
        ensures
            out@ == self@.rgba(),
            self@.is_tight() ==> out@.len() == 4 * (self@.w * self@.h),
    {
        proof {
            use_type_invariant(self);
            if self@.is_tight() {
                lemma_tight_texture_len(self@);
            }
        }
        match &self.palette {
            Some(pal) => decode_pixels(self.texture_type, pal.as_slice(), self.pixel_data.as_slice()),
            None => {
                let none: Vec<u8> = Vec::new();
                decode_pixels(self.texture_type, none.as_slice(), self.pixel_data.as_slice())
            },
        }
    }

    /// Expands 16-bit RGBA5551 pixels; a last odd byte is left out.
    pub fn rgba16_to_rgba32(rgba16: &[u8]) -> (out: Vec<u8>)
        ensures
            out@ == decode(ImgFmt::RGBA16, Seq::empty(), rgba16@),
    {
        decode_words(rgba16)
    }

    /// Expands four-bit indices into a palette of sixteen RGBA5551 entries.
    pub fn ci4_to_rgba32(ci4: &[u8], palatte: &[u8]) -> (out: Vec<u8>)
        requires
            palatte.len() >= 0x20,
        ensures
            out@ == decode(ImgFmt::CI4, palatte@, ci4@),
    {
        decode_nibbles(ImgFmt::CI4, palatte, ci4)
    }

    /// Expands eight-bit indices into a palette of 256 RGBA5551 entries.
    pub fn ci8_to_rgba32(ci8: &[u8], palatte: &[u8]) -> (out: Vec<u8>)
        requires
            palatte.len() >= 0x200,
        ensures
            out@ == decode(ImgFmt::CI8, palatte@, ci8@),
    {
        decode_bytes(ImgFmt::CI8, palatte, ci8)
    }

    /// Expands four-bit intensities to opaque grey pixels.
    pub fn i4_to_rgba32(i_4: &[u8]) -> (out: Vec<u8>)
        ensures
            out@ == decode(ImgFmt::I4, Seq::empty(), i_4@),
    {
        let none: Vec<u8> = Vec::new();
        decode_nibbles(ImgFmt::I4, none.as_slice(), i_4)
    }

    /// Expands eight-bit intensities to opaque grey pixels.
    pub fn i8_to_rgba32(i_8: &[u8]) -> (out: Vec<u8>)
        ensures
            out@ == decode(ImgFmt::I8, Seq::empty(), i_8@),
    {
        let none: Vec<u8> = Vec::new();
        decode_bytes(ImgFmt::I8, none.as_slice(), i_8)
    }

    /// Expands pixels of three bits of intensity and one bit of alpha.
    pub fn ia4_to_rgba32(ia4: &[u8]) -> (out: Vec<u8>)
        ensures
            out@ == decode(ImgFmt::IA4, Seq::empty(), ia4@),
    {
        let none: Vec<u8> = Vec::new();
        decode_nibbles(ImgFmt::IA4, none.as_slice(), ia4)
    }

    /// Expands pixels of four bits of intensity and four bits of alpha.
    pub fn ia8_to_rgba32(ia8: &[u8]) -> (out: Vec<u8>)
        ensures
            out@ == decode(ImgFmt::IA8, Seq::empty(), ia8@),
    {
        let none: Vec<u8> = Vec::new();
        decode_bytes(ImgFmt::IA8, none.as_slice(), ia8)
    }
}

} // verus!
