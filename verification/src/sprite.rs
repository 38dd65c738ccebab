//! Sprites: a pixel format and the frames stored in it.

use vstd::prelude::*;
use vstd::string::StringExecFns;
use crate::asset::Asset;
use crate::bytes::{be_u16, be_u32, copy_all, copy_range, read_u16, read_u32};
use crate::chunk::{chunk_at, chunk_fits, SpriteChunk};
use crate::error::AssetError;
use crate::format::{format_lower, format_name, format_tag, format_upper, ImgFmt};
use crate::frame::{frame_at, frame_fits, is_tight, lemma_frame_is_tight, FrameView, SpriteFrame};
use crate::kind::AssetType;
use crate::text::{hex2, push_hex2, push_str};
use crate::texture::{decode, decode_pixels};

verus! {

/// A sprite: its pixel format, its frames, and the bytes it was read from.
pub struct Sprite {
    pub format: ImgFmt,
    pub frame: Vec<SpriteFrame>,
    pub bytes: Vec<u8>,
}

/// What a [`Sprite`] holds, as plain values.
pub struct SpriteView {
    pub format: ImgFmt,
    pub frames: Seq<FrameView>,
    pub bytes: Seq<u8>,
}

impl View for Sprite {
    type V = SpriteView;

    open spec fn view(&self) -> SpriteView {
        SpriteView {
            format: self.format,
            frames: Seq::new(self.frame@.len(), |i: int| self.frame@[i]@),
            bytes: self.bytes@,
        }
    }
}

/// The pixel format that a sprite header's format code names.
pub open spec fn format_of_code(code: int) -> ImgFmt {
    if code == 0x0001 {
        ImgFmt::CI4
    } else if code == 0x0004 {
        ImgFmt::CI8
    } else if code == 0x0020 {
        ImgFmt::I4
    } else if code == 0x0040 {
        ImgFmt::I8
    } else if code == 0x0400 {
        ImgFmt::RGBA16
    } else if code == 0x0800 {
        ImgFmt::RGBA32
    } else {
        ImgFmt::Unknown(code as u16)
    }
}

/// The frame count in the sprite's header.
pub open spec fn sprite_frame_count(bytes: Seq<u8>) -> int {
    be_u16(bytes, 0)
}

/// The pixel format in the sprite's header.
pub open spec fn sprite_format(bytes: Seq<u8>) -> ImgFmt {
    format_of_code(be_u16(bytes, 2))
}

/// A frame count above 0x100 marks a sprite that is one large RGBA16 chunk.
pub open spec fn sprite_is_giant(bytes: Seq<u8>) -> bool {
    sprite_frame_count(bytes) > 0x100
}

/// How many frames are read: those the header counts, as far as the table
/// of frame offsets holds a whole entry for them.
pub open spec fn sprite_listed_frames(bytes: Seq<u8>) -> int {
    if sprite_frame_count(bytes) <= (bytes.len() - 0x10) / 4 {
        sprite_frame_count(bytes)
    } else {
        (bytes.len() - 0x10) / 4
    }
}

/// Where the `k`-th frame begins: behind the table of frame offsets, as far
/// on as the table's `k`-th entry says.
pub open spec fn sprite_frame_start(bytes: Seq<u8>, k: int) -> int {
    0x10 + be_u32(bytes, 0x10 + 4 * k) + 4 * sprite_frame_count(bytes)
}

/// The only frame of a giant sprite: the chunk at offset 8, read as RGBA16.
pub open spec fn giant_frame(bytes: Seq<u8>) -> FrameView {
    let chunk = chunk_at(bytes, 8, ImgFmt::RGBA16);
    FrameView {
        w: chunk.w,
        h: chunk.h,
        header: Seq::empty(),
        chk_hdrs: seq![bytes.subrange(8, 16)],
        palette: None,
        pixel_data: decode(ImgFmt::RGBA16, Seq::empty(), chunk.pixel_data),
    }
}

/// Whether `bytes` hold a whole sprite. A sprite of unknown format needs
/// its first four bytes only.
pub open spec fn sprite_fits(bytes: Seq<u8>) -> bool {
    &&& bytes.len() >= 4
    &&& !(sprite_format(bytes) is Unknown) ==> if sprite_is_giant(bytes) {
        chunk_fits(bytes, 8, ImgFmt::RGBA16)
    } else {
        &&& bytes.len() >= 0x10
        &&& forall|k: int|
            0 <= k < sprite_listed_frames(bytes) ==> frame_fits(
                bytes,
                #[trigger] sprite_frame_start(bytes, k),
                sprite_format(bytes),
            )
    }
}

/// The frames of the sprite stored in `bytes`.
pub open spec fn sprite_frames(bytes: Seq<u8>) -> Seq<FrameView> {
    if sprite_format(bytes) is Unknown {
        Seq::empty()
    } else if sprite_is_giant(bytes) {
        seq![giant_frame(bytes)]
    } else {
        Seq::new(
            sprite_listed_frames(bytes) as nat,
            |k: int| frame_at(bytes, sprite_frame_start(bytes, k), sprite_format(bytes)),
        )
    }
}

/// The sprite stored in `bytes`.
pub open spec fn sprite_of(bytes: Seq<u8>) -> SpriteView {
    SpriteView { format: sprite_format(bytes), frames: sprite_frames(bytes), bytes }
}

/// The pixel format that a sprite header's format code names.
pub fn format_from_code(code: u16) -> (fmt: ImgFmt)
    ensures
        fmt == format_of_code(code as int),
{
    if code == 0x0001 {
        ImgFmt::CI4
    } else if code == 0x0004 {
        ImgFmt::CI8
    } else if code == 0x0020 {
        ImgFmt::I4
    } else if code == 0x0040 {
        ImgFmt::I8
    } else if code == 0x0400 {
        ImgFmt::RGBA16
    } else if code == 0x0800 {
        ImgFmt::RGBA32
    } else {
        ImgFmt::Unknown(code)
    }
}

impl Sprite {
    /// Reads a sprite and assembles its frames. A sprite whose format code is
    /// not known keeps its bytes and has no frames. Fails where the bytes end
    /// before a frame or a chunk does.
    pub fn from_bytes(in_bytes: &[u8]) -> (r: Result<Sprite, AssetError>)
        ensures
            match r {
                Ok(sprite) => sprite_fits(in_bytes@) && sprite@ == sprite_of(in_bytes@),
                Err(e) => e == AssetError::CodecError && !sprite_fits(in_bytes@),
            },
    {
        if in_bytes.len() < 4 {
            return Err(AssetError::CodecError);
        }
        let frame_cnt: u16 = read_u16(in_bytes, 0);
        let frmt: ImgFmt = format_from_code(read_u16(in_bytes, 2));
        let bytes: Vec<u8> = copy_all(in_bytes);
        if let ImgFmt::Unknown(_) = frmt {
            let sprite = Sprite { format: frmt, frame: Vec::new(), bytes };
            assert(sprite@.frames =~= sprite_frames(in_bytes@));
            return Ok(sprite);
        }
        if frame_cnt > 0x100 {
            let mut offset: usize = 8;
            let chunk: SpriteChunk = match SpriteChunk::new(in_bytes, &mut offset, &ImgFmt::RGBA16) {
                Ok(chunk) => chunk,
                Err(e) => {
                    return Err(AssetError::CodecError);
                },
            };
            let mut chk_hdrs: Vec<Vec<u8>> = Vec::new();
            chk_hdrs.push(copy_range(in_bytes, 8, 16));
            let frame = SpriteFrame {
                w: chunk.w,
                h: chunk.h,
                header: Vec::new(),
                chk_hdrs,
                palette: None,
                pixel_data: decode_pixels(ImgFmt::RGBA16, Vec::new().as_slice(), chunk.pixel_data.as_slice()),
            };
            assert(frame@.chk_hdrs =~= giant_frame(in_bytes@).chk_hdrs);
            let mut frames: Vec<SpriteFrame> = Vec::new();
            frames.push(frame);
            let sprite = Sprite { format: frmt, frame: frames, bytes };
            assert(sprite@.frames =~= sprite_frames(in_bytes@));
            return Ok(sprite);
        }
        if in_bytes.len() < 0x10 {
            return Err(AssetError::CodecError);
        }
        let held: usize = (in_bytes.len() - 0x10) / 4;
        let listed: usize = if (frame_cnt as usize) <= held {
            frame_cnt as usize
        } else {
            held
        };
        let mut frames: Vec<SpriteFrame> = Vec::new();
        let mut k: usize = 0;
        while k < listed
            invariant
                in_bytes.len() >= 0x10,
                listed == sprite_listed_frames(in_bytes@),
                frame_cnt == sprite_frame_count(in_bytes@),
                frmt == sprite_format(in_bytes@),
                !(frmt is Unknown),
                frame_cnt <= 0x100,
                k <= listed,
                frames@.len() == k,
                forall|j: int|
                    0 <= j < k ==> frame_fits(in_bytes@, #[trigger] sprite_frame_start(in_bytes@, j), frmt),
                forall|j: int|
                    0 <= j < k ==> (#[trigger] frames@[j])@ == frame_at(
                        in_bytes@,
                        sprite_frame_start(in_bytes@, j),
                        frmt,
                    ),
            decreases listed - k,
        {
            let offset: u32 = read_u32(in_bytes, 0x10 + 4 * k);
            let start: u64 = 0x10 + offset as u64 + 4 * (frame_cnt as u64);
            if start > usize::MAX as u64 {
                assert(!frame_fits(in_bytes@, sprite_frame_start(in_bytes@, k as int), frmt));
                return Err(AssetError::CodecError);
            }
            match SpriteFrame::new(in_bytes, start as usize, &frmt) {
                Ok(frame) => {
                    frames.push(frame);
                },
                Err(e) => {
                    assert(!frame_fits(in_bytes@, sprite_frame_start(in_bytes@, k as int), frmt));
                    return Err(AssetError::CodecError);
                },
            }
            k += 1;
        }
        let sprite = Sprite { format: frmt, frame: frames, bytes };
        assert(sprite@.frames =~= sprite_frames(in_bytes@));
        Ok(sprite)
    }

    /// A sprite taken from a stored file as it is: no format, no frames.
    pub fn read(bytes: &[u8]) -> (sprite: Sprite)
        ensures
            sprite@ == (SpriteView { format: ImgFmt::Unknown(0), frames: Seq::empty(), bytes: bytes@ }),
    {
        let sprite = Sprite {
            format: ImgFmt::Unknown(0),
            frame: Vec::new(),
            bytes: copy_all(bytes),
        };
        assert(sprite@.frames =~= Seq::empty());
        sprite
    }
}

impl Asset for Sprite {
    open spec fn stored(&self) -> Seq<u8> {
        self@.bytes
    }

    open spec fn kind(&self) -> AssetType {
        AssetType::Sprite(self@.format)
    }

    open spec fn file(&self) -> Seq<u8> {
        self@.bytes
    }

    fn to_bytes(&self) -> (out: Vec<u8>) {
        copy_all(self.bytes.as_slice())
    }

    fn get_type(&self) -> (kind: AssetType) {
        AssetType::Sprite(self.format)
    }

    fn write(&self) -> (out: Vec<u8>) {
        copy_all(self.bytes.as_slice())
    }
}

/// The name of the file of the `i`-th frame of a sprite: the number of the
/// frame in two hexadecimal digits, the format, and `png`.
pub open spec fn frame_file(i: nat, fmt: ImgFmt) -> Seq<char> {
    hex2(i) + "."@ + format_tag(fmt) + ".png"@
}

/// The line of the descriptor for the `i`-th frame, kept in `dir`.
pub open spec fn frame_line(dir: Seq<char>, i: nat, fmt: ImgFmt) -> Seq<char> {
    "  - \""@ + dir + "/"@ + frame_file(i, fmt) + "\"\n"@
}

/// The lines of the descriptor for the first `n` frames.
pub open spec fn frame_lines(dir: Seq<char>, n: nat, fmt: ImgFmt) -> Seq<char>
    decreases n,
{
    if n == 0 {
        Seq::empty()
    } else {
        frame_lines(dir, (n - 1) as nat, fmt) + frame_line(dir, (n - 1) as nat, fmt)
    }
}

impl SpriteView {
    /// The descriptor of the sprite: its format, and the file of each of
    /// its frames in the directory `dir`.
    pub open spec fn descriptor(self, dir: Seq<char>) -> Seq<char> {
        "type: Sprite\n"@ + "format: "@ + format_name(self.format) + "\n"@ + "frames:\n"@ + frame_lines(
            dir,
            self.frames.len(),
            self.format,
        )
    }
}

/// The name of the file of the `i`-th frame of a sprite.
pub fn frame_file_name(i: usize, fmt: ImgFmt) -> (out: String)
    ensures
        out@ == frame_file(i as nat, fmt),
{
    let mut out: String = String::new();
    push_hex2(&mut out, i as u128);
    push_str(&mut out, ".");
    push_str(&mut out, format_lower(fmt));
    push_str(&mut out, ".png");
    out
}

impl Sprite {
    /// The descriptor of the sprite, with its frames kept in `dir`.
    pub fn descriptor(&self, dir: &str) -> (out: String)
        ensures
            out@ == self@.descriptor(dir@),
    {
        let mut out: String = String::from_str("type: Sprite\n");
        push_str(&mut out, "format: ");
        push_str(&mut out, format_upper(self.format));
        push_str(&mut out, "\n");
        push_str(&mut out, "frames:\n");
        let ghost head = out@;
        let mut i: usize = 0;
        while i < self.frame.len()
            invariant
                i <= self.frame@.len(),
                out@ == head + frame_lines(dir@, i as nat, self.format),
            decreases self.frame@.len() - i,
        {
            let mut line: String = String::from_str("  - \"");
            push_str(&mut line, dir);
            push_str(&mut line, "/");
            push_str(&mut line, frame_file_name(i, self.format).as_str());
            push_str(&mut line, "\"\n");
            push_str(&mut out, line.as_str());
            assert(out@ =~= head + (frame_lines(dir@, i as nat, self.format) + frame_line(
                dir@,
                i as nat,
                self.format,
            )));
            i += 1;
        }
        out
    }
}

/// Every frame of a sprite that was read has four bytes for each of its
/// pixels.
pub proof fn lemma_sprite_frames_are_tight(bytes: Seq<u8>)
    requires
        sprite_fits(bytes),
    ensures
        forall|i: int| 0 <= i < sprite_frames(bytes).len() ==> is_tight(#[trigger] sprite_frames(bytes)[i]),
{
    let frames = sprite_frames(bytes);
    assert forall|i: int| 0 <= i < frames.len() implies is_tight(#[trigger] frames[i]) by {
        if sprite_is_giant(bytes) {
            let chunk = chunk_at(bytes, 8, ImgFmt::RGBA16);
            assert(chunk.pixel_data.len() == chunk.w * chunk.h * 16 / 8);
            assert(chunk.w * chunk.h * 16 / 8 == 2 * (chunk.w * chunk.h)) by (nonlinear_arith);
        } else {
            assert(frame_fits(bytes, sprite_frame_start(bytes, i), sprite_format(bytes)));
            lemma_frame_is_tight(bytes, sprite_frame_start(bytes, i), sprite_format(bytes));
        }
    }
}

} // verus!
