//! Frames: the images of a sprite, each put together from chunks.

use vstd::prelude::*;
use vstd::arithmetic::div_mod::lemma_fundamental_div_mod_converse;
use crate::bytes::{align8, align_up8, be_u16, copy_range, read_u16};
use crate::chunk::{area_of, chunk_at, chunk_end, chunk_fits, SpriteChunk};
use crate::error::AssetError;
use crate::format::{palette_len, palette_size, ImgFmt};
use crate::texture::{decode, decode_pixels};

verus! {

/// One image of a sprite: its size, the header bytes it was read from, the
/// header of each of its chunks, its palette and its pixels as RGBA8.
pub struct SpriteFrame {
    pub w: u16,
    pub h: u16,
    pub header: Vec<u8>,
    pub chk_hdrs: Vec<Vec<u8>>,
    pub palette: Option<Vec<u8>>,
    pub pixel_data: Vec<u8>,
}

/// What a [`SpriteFrame`] holds, as plain values.
pub struct FrameView {
    pub w: int,
    pub h: int,
    pub header: Seq<u8>,
    pub chk_hdrs: Seq<Seq<u8>>,
    pub palette: Option<Seq<u8>>,
    pub pixel_data: Seq<u8>,
}

impl View for SpriteFrame {
    type V = FrameView;

    open spec fn view(&self) -> FrameView {
        FrameView {
            w: self.w as int,
            h: self.h as int,
            header: self.header@,
            chk_hdrs: Seq::new(self.chk_hdrs@.len(), |i: int| self.chk_hdrs@[i]@),
            palette: match self.palette {
                Some(p) => Some(p@),
                None => None,
            },
            pixel_data: self.pixel_data@,
        }
    }
}

/// The width that the frame header at `at` gives.
pub open spec fn frame_w(bin: Seq<u8>, at: int) -> int {
    be_u16(bin, at + 4)
}

/// The height that the frame header at `at` gives.
pub open spec fn frame_h(bin: Seq<u8>, at: int) -> int {
    be_u16(bin, at + 6)
}

/// The number of chunks that the frame header at `at` gives.
pub open spec fn frame_chunk_count(bin: Seq<u8>, at: int) -> nat {
    be_u16(bin, at + 8) as nat
}

/// Where the palette of the frame at `at` begins, if its format has one.
pub open spec fn frame_palette_start(at: int) -> int {
    align8(at + 0x14)
}

/// Where the first chunk of the frame at `at` begins.
pub open spec fn frame_chunks_start(at: int, fmt: ImgFmt) -> int {
    if palette_len(fmt) > 0 {
        frame_palette_start(at) + palette_len(fmt)
    } else {
        at + 0x14
    }
}

/// The palette bytes of the frame at `at`; none for a format without palette.
pub open spec fn frame_palette(bin: Seq<u8>, at: int, fmt: ImgFmt) -> Seq<u8> {
    if palette_len(fmt) > 0 {
        bin.subrange(frame_palette_start(at), frame_palette_start(at) + palette_len(fmt))
    } else {
        Seq::empty()
    }
}

/// Where the `k`-th of the chunks that follow one another from `start` begins.
pub open spec fn chunk_offset(bin: Seq<u8>, start: int, fmt: ImgFmt, k: nat) -> int
    decreases k,
{
    if k == 0 {
        start
    } else {
        chunk_end(bin, chunk_offset(bin, start, fmt, (k - 1) as nat), fmt)
    }
}

/// Whether `bin` holds the first `n` chunks from `start` in full.
pub open spec fn chunks_fit(bin: Seq<u8>, start: int, fmt: ImgFmt, n: nat) -> bool {
    forall|k: nat| k < n ==> chunk_fits(bin, #[trigger] chunk_offset(bin, start, fmt, k), fmt)
}

/// The pixels of the frame at `at` once its first `n` chunks are on the
/// canvas. The canvas starts out as zeros. Each chunk is expanded to RGBA8
/// and put at its own place; the only chunk of a frame goes to the top left
/// corner whatever place it names. Later chunks cover earlier ones.
pub open spec fn frame_canvas(bin: Seq<u8>, at: int, fmt: ImgFmt, n: nat) -> Seq<u8>
    decreases n,
{
    if n == 0 {
        Seq::new((4 * (frame_w(bin, at) * frame_h(bin, at))) as nat, |k: int| 0u8)
    } else {
        let chunk = chunk_at(bin, chunk_offset(bin, frame_chunks_start(at, fmt), fmt, (n - 1) as nat), fmt);
        let alone = frame_chunk_count(bin, at) == 1;
        blit(
            frame_canvas(bin, at, fmt, (n - 1) as nat),
            frame_w(bin, at),
            decode(fmt, frame_palette(bin, at, fmt), chunk.pixel_data),
            if alone { 0 } else { chunk.x },
            if alone { 0 } else { chunk.y },
            chunk.w,
        )
    }
}

/// Whether `bin` holds a whole frame at `at`: its header, its palette, all
/// its chunks, and a canvas that this machine can address.
pub open spec fn frame_fits(bin: Seq<u8>, at: int, fmt: ImgFmt) -> bool {
    &&& 0 <= at
    &&& at + 0x14 <= bin.len()
    &&& frame_chunks_start(at, fmt) <= bin.len()
    &&& chunks_fit(bin, frame_chunks_start(at, fmt), fmt, frame_chunk_count(bin, at))
    &&& 4 * (frame_w(bin, at) * frame_h(bin, at)) <= usize::MAX
}

/// The frame whose header is at `at`.
pub open spec fn frame_at(bin: Seq<u8>, at: int, fmt: ImgFmt) -> FrameView {
    FrameView {
        w: frame_w(bin, at),
        h: frame_h(bin, at),
        header: bin.subrange(at, at + 0x14),
        chk_hdrs: Seq::new(
            frame_chunk_count(bin, at),
            |k: int|
                bin.subrange(
                    chunk_offset(bin, frame_chunks_start(at, fmt), fmt, k as nat),
                    chunk_offset(bin, frame_chunks_start(at, fmt), fmt, k as nat) + 8,
                ),
        ),
        palette: if palette_len(fmt) > 0 {
            Some(frame_palette(bin, at, fmt))
        } else {
            None
        },
        pixel_data: frame_canvas(bin, at, fmt, frame_chunk_count(bin, at)),
    }
}

/// Rows of `cw` pixels that `raw` holds in full.
pub open spec fn full_rows(raw: Seq<u8>, cw: int) -> int {
    if cw > 0 {
        raw.len() as int / (4 * cw)
    } else {
        0
    }
}

/// The canvas, `w` pixels wide, after the first `limit` pixels of `raw`,
/// taken row by row from rows `cw` wide, were put where they fall when the
/// first of them goes to column `cx` of row `cy`. A pixel that falls outside
/// the canvas is left out.
pub open spec fn blit_upto(canvas: Seq<u8>, w: int, raw: Seq<u8>, cx: int, cy: int, cw: int, limit: int) -> Seq<u8> {
    Seq::new(
        canvas.len(),
        |k: int|
            {
                let px = k / 4 % w - cx;
                let py = k / 4 / w - cy;
                if 0 <= px < cw && 0 <= py && py * cw + px < limit {
                    raw[4 * (py * cw + px) + k % 4]
                } else {
                    canvas[k]
                }
            },
    )
}

/// The canvas after every full row of `raw` was put on it.
pub open spec fn blit(canvas: Seq<u8>, w: int, raw: Seq<u8>, cx: int, cy: int, cw: int) -> Seq<u8> {
    blit_upto(canvas, w, raw, cx, cy, cw, full_rows(raw, cw) * cw)
}

proof fn lemma_cell(w: int, h: int, x: int, y: int)
    requires
        0 <= x < w,
        0 <= y < h,
    ensures
        0 <= y * w <= y * w + x < w * h,
        (y * w + x) / w == y,
        (y * w + x) % w == x,
{
    lemma_fundamental_div_mod_converse(y * w + x, w, y, x);
    assert(y * w + x < w * h) by (nonlinear_arith)
        requires
            0 <= x < w,
            0 <= y < h,
    ;
    assert(0 <= y * w) by (nonlinear_arith)
        requires
            0 <= w,
            0 <= y,
    ;
}

proof fn lemma_cell_of(w: int, h: int, p: int)
    requires
        0 <= p < w * h,
        0 < w,
    ensures
        0 <= p / w < h,
        0 <= p % w < w,
        p == (p / w) * w + p % w,
{
    vstd::arithmetic::div_mod::lemma_fundamental_div_mod(p, w);
    vstd::arithmetic::div_mod::lemma_mod_pos_bound(p, w);
    vstd::arithmetic::div_mod::lemma_div_pos_is_pos(p, w);
    assert(w * (p / w) == (p / w) * w) by (nonlinear_arith);
    assert(p / w < h) by (nonlinear_arith)
        requires
            p < w * h,
            0 < w,
            p == (p / w) * w + p % w,
            0 <= p % w,
    ;
}

/// Puts the full rows of `raw` on the canvas.
fn blit_chunk(canvas: &mut Vec<u8>, w: u16, h: u16, raw: &[u8], cx: i16, cy: i16, cw: u16)
    requires
        old(canvas)@.len() == 4 * (w * h),
    ensures
        final(canvas)@ == blit(old(canvas)@, w as int, raw@, cx as int, cy as int, cw as int),
{
    if cw == 0 {
        return ;
    }
    let rows: usize = raw.len() / (4 * (cw as usize));
    assert(rows * cw <= raw.len() / 4) by (nonlinear_arith)
        requires
            rows == raw.len() / ((4 * cw) as usize),
            cw > 0,
    ;
    let total: usize = rows * (cw as usize);
    let mut q: usize = 0;
    proof {
        let first = blit_upto(old(canvas)@, w as int, raw@, cx as int, cy as int, cw as int, 0);
        assert forall|k: int| 0 <= k < canvas@.len() implies canvas@[k] == first[k] by {
            let px = k / 4 % (w as int) - cx;
            let py = k / 4 / (w as int) - cy;
            if 0 <= px && 0 <= py {
                assert(py * cw >= 0) by (nonlinear_arith)
                    requires
                        py >= 0,
                        cw >= 0,
                ;
            }
        }
    }
    while q < total
        invariant
            cw > 0,
            total <= raw.len() / 4,
            q <= total,
            canvas@.len() == 4 * (w * h),
            canvas@.len() == old(canvas)@.len(),
            canvas@ == blit_upto(old(canvas)@, w as int, raw@, cx as int, cy as int, cw as int, q as int),
        decreases total - q,
    {
        let i: usize = q % (cw as usize);
        let j: usize = q / (cw as usize);
        let fx: i64 = cx as i64 + i as i64;
        let fy: i64 = cy as i64 + j as i64;
        proof {
            vstd::arithmetic::div_mod::lemma_fundamental_div_mod(q as int, cw as int);
            assert((cw as int) * (j as int) == (j as int) * (cw as int)) by (nonlinear_arith);
        }
        if 0 <= fx && fx < w as i64 && 0 <= fy && fy < h as i64 {
            proof {
                lemma_cell(w as int, h as int, fx as int, fy as int);
                assert(canvas.len() == 4 * (w * h));
            }
            let cell: usize = area_of(fy as u16, w) as usize + fx as usize;
            canvas.set(4 * cell, raw[4 * q]);
            canvas.set(4 * cell + 1, raw[4 * q + 1]);
            canvas.set(4 * cell + 2, raw[4 * q + 2]);
            canvas.set(4 * cell + 3, raw[4 * q + 3]);
        }
        proof {
            let next = blit_upto(old(canvas)@, w as int, raw@, cx as int, cy as int, cw as int, q + 1);
            assert forall|k: int| 0 <= k < canvas@.len() implies canvas@[k] == next[k] by {
                let p = k / 4;
                assert(0 < w) by (nonlinear_arith)
                    requires
                        0 <= p < w * h,
                        0 <= w,
                ;
                lemma_cell_of(w as int, h as int, p);
                let px = p % (w as int) - cx;
                let py = p / (w as int) - cy;
                if 0 <= px < cw && 0 <= py && py * cw + px == q {
                    lemma_fundamental_div_mod_converse(q as int, cw as int, py, px);
                } else {
                    if 0 <= fx && fx < w && 0 <= fy && fy < h && p == fy * w + fx {
                        lemma_cell(w as int, h as int, fx as int, fy as int);
                    }
                }
            }
        }
        q += 1;
    }
}

impl SpriteFrame {
    /// Reads the frame whose header is at `file_offset` and assembles its
    /// pixels. Fails where `bin` ends before the frame does.
    pub fn new(bin: &[u8], file_offset: usize, format: &ImgFmt) -> (r: Result<SpriteFrame, AssetError>)
        ensures
            match r {
                Ok(frame) => frame_fits(bin@, file_offset as int, *format) && frame@ == frame_at(
                    bin@,
                    file_offset as int,
                    *format,
                ),
                Err(e) => e == AssetError::CodecError && !frame_fits(bin@, file_offset as int, *format),
            },
    {
        let fmt: ImgFmt = *format;
        if bin.len() < 0x14 || file_offset > bin.len() - 0x14 {
            return Err(AssetError::CodecError);
        }
        let header: Vec<u8> = copy_range(bin, file_offset, file_offset + 0x14);
        let w: u16 = read_u16(bin, file_offset + 4);
        let h: u16 = read_u16(bin, file_offset + 6);
        let chunk_cnt: u16 = read_u16(bin, file_offset + 8);
        let mut offset: usize = file_offset + 0x14;
        let pal_len: usize = palette_size(fmt);
        let mut palette: Vec<u8> = Vec::new();
        if pal_len > 0 {
            if offset > usize::MAX - 7 {
                return Err(AssetError::CodecError);
            }
            offset = align_up8(offset);
            if offset > bin.len() || pal_len > bin.len() - offset {
                return Err(AssetError::CodecError);
            }
            palette = copy_range(bin, offset, offset + pal_len);
            offset = offset + pal_len;
        }
        let ghost start = frame_chunks_start(file_offset as int, fmt);
        let mut chunks: Vec<SpriteChunk> = Vec::new();
        let mut chk_hdrs: Vec<Vec<u8>> = Vec::new();
        let mut i: u16 = 0;
        while i < chunk_cnt
            invariant
                fmt == *format,
                i <= chunk_cnt,
                chunk_cnt == frame_chunk_count(bin@, file_offset as int),
                start == frame_chunks_start(file_offset as int, fmt),
                offset == chunk_offset(bin@, start, fmt, i as nat),
                offset <= bin.len(),
                chunks@.len() == i,
                chk_hdrs@.len() == i,
                forall|k: nat| k < i ==> chunk_fits(bin@, #[trigger] chunk_offset(bin@, start, fmt, k), fmt),
                forall|k: int|
                    0 <= k < i ==> (#[trigger] chunks@[k])@ == chunk_at(
                        bin@,
                        chunk_offset(bin@, start, fmt, k as nat),
                        fmt,
                    ),
                forall|k: int|
                    0 <= k < i ==> (#[trigger] chk_hdrs@[k])@ == bin@.subrange(
                        chunk_offset(bin@, start, fmt, k as nat),
                        chunk_offset(bin@, start, fmt, k as nat) + 8,
                    ),
            decreases chunk_cnt - i,
        {
            let at: usize = offset;
            match SpriteChunk::new(bin, &mut offset, &fmt) {
                Ok(chunk) => {
                    chk_hdrs.push(copy_range(bin, at, at + 8));
                    chunks.push(chunk);
                },
                Err(e) => {
                    return Err(AssetError::CodecError);
                },
            }
            i += 1;
        }
        let size: u64 = 4 * area_of(w, h);
        if size > usize::MAX as u64 {
            return Err(AssetError::CodecError);
        }
        let mut canvas: Vec<u8> = vec![0u8; size as usize];
        let mut n: usize = 0;
        while n < chunks.len()
            invariant
                n <= chunks@.len(),
                chunks@.len() == chunk_cnt,
                chunk_cnt == frame_chunk_count(bin@, file_offset as int),
                w == frame_w(bin@, file_offset as int),
                h == frame_h(bin@, file_offset as int),
                start == frame_chunks_start(file_offset as int, fmt),
                palette@ == frame_palette(bin@, file_offset as int, fmt),
                palette@.len() == palette_len(fmt),
                canvas@.len() == 4 * (w * h),
                canvas@ == frame_canvas(bin@, file_offset as int, fmt, n as nat),
                forall|k: int|
                    0 <= k < chunks@.len() ==> (#[trigger] chunks@[k])@ == chunk_at(
                        bin@,
                        chunk_offset(bin@, start, fmt, k as nat),
                        fmt,
                    ),
            decreases chunks@.len() - n,
        {
            let chunk: &SpriteChunk = &chunks[n];
            let raw: Vec<u8> = decode_pixels(fmt, palette.as_slice(), chunk.pixel_data.as_slice());
            if chunk_cnt == 1 {
                blit_chunk(&mut canvas, w, h, raw.as_slice(), 0, 0, chunk.w);
            } else {
                blit_chunk(&mut canvas, w, h, raw.as_slice(), chunk.x, chunk.y, chunk.w);
            }
            n += 1;
        }
        let frame = SpriteFrame {
            w,
            h,
            header,
            chk_hdrs,
            palette: if pal_len > 0 {
                Some(palette)
            } else {
                None
            },
            pixel_data: canvas,
        };
        assert(frame@.chk_hdrs =~= frame_at(bin@, file_offset as int, fmt).chk_hdrs);
        Ok(frame)
    }
}

/// Whether a frame has four bytes for each of its pixels.
pub open spec fn is_tight(frame: FrameView) -> bool {
    frame.pixel_data.len() == 4 * (frame.w * frame.h)
}

/// The canvas of a frame has four bytes for each pixel of the frame,
/// however many chunks are on it.
pub proof fn lemma_canvas_len(bin: Seq<u8>, at: int, fmt: ImgFmt, n: nat)
    requires
        0 <= at,
        at + 8 <= bin.len(),
    ensures
        frame_canvas(bin, at, fmt, n).len() == 4 * (frame_w(bin, at) * frame_h(bin, at)),
    decreases n,
{
    if n == 0 {
        assert(0 <= frame_w(bin, at) * frame_h(bin, at)) by (nonlinear_arith)
            requires
                0 <= frame_w(bin, at),
                0 <= frame_h(bin, at),
        ;
    } else {
        lemma_canvas_len(bin, at, fmt, (n - 1) as nat);
    }
}

/// A frame that was read has four bytes for each of its pixels.
pub proof fn lemma_frame_is_tight(bin: Seq<u8>, at: int, fmt: ImgFmt)
    requires
        frame_fits(bin, at, fmt),
    ensures
        is_tight(frame_at(bin, at, fmt)),
{
    lemma_canvas_len(bin, at, fmt, frame_chunk_count(bin, at));
}

} // verus!
