//! Chunks: the rectangles of stored pixels that a frame is put together from.

use vstd::prelude::*;
use crate::bytes::{align8, align_up8, be_i16, be_u16, copy_range, read_i16, read_u16};
use crate::error::AssetError;
use crate::format::{bits_per_pixel, pixel_bits, ImgFmt};

verus! {

/// A rectangle of stored pixels and the place in the frame where it goes.
pub struct SpriteChunk {
    pub x: i16,
    pub y: i16,
    pub w: u16,
    pub h: u16,
    pub pixel_data: Vec<u8>,
}

/// What a [`SpriteChunk`] holds, as plain values.
pub struct ChunkView {
    pub x: int,
    pub y: int,
    pub w: int,
    pub h: int,
    pub pixel_data: Seq<u8>,
}

impl View for SpriteChunk {
    type V = ChunkView;

    open spec fn view(&self) -> ChunkView {
        ChunkView {
            x: self.x as int,
            y: self.y as int,
            w: self.w as int,
            h: self.h as int,
            pixel_data: self.pixel_data@,
        }
    }
}

/// Where the pixel bytes of the chunk whose header is at `at` begin.
pub open spec fn chunk_data_start(at: int) -> int {
    align8(at + 8)
}

/// How many pixel bytes the chunk whose header is at `at` has.
pub open spec fn chunk_data_len(bin: Seq<u8>, at: int, fmt: ImgFmt) -> int {
    be_u16(bin, at + 4) * be_u16(bin, at + 6) * bits_per_pixel(fmt) / 8
}

/// Where the chunk whose header is at `at` ends.
pub open spec fn chunk_end(bin: Seq<u8>, at: int, fmt: ImgFmt) -> int {
    chunk_data_start(at) + chunk_data_len(bin, at, fmt)
}

/// Whether `bin` holds a whole chunk at `at`: its header and all its pixel bytes.
pub open spec fn chunk_fits(bin: Seq<u8>, at: int, fmt: ImgFmt) -> bool {
    &&& 0 <= at
    &&& at + 8 <= bin.len()
    &&& chunk_end(bin, at, fmt) <= bin.len()
}

/// The chunk whose header is at `at`.
pub open spec fn chunk_at(bin: Seq<u8>, at: int, fmt: ImgFmt) -> ChunkView {
    ChunkView {
        x: be_i16(bin, at),
        y: be_i16(bin, at + 2),
        w: be_u16(bin, at + 4),
        h: be_u16(bin, at + 6),
        pixel_data: bin.subrange(chunk_data_start(at), chunk_end(bin, at, fmt)),
    }
}

/// The number of pixels in a rectangle of `w` by `h`.
pub fn area_of(w: u16, h: u16) -> (area: u64)
    ensures
        area == w * h,
        area <= 0xFFFF * 0xFFFF,
{
    assert(0 <= w * h <= 0xFFFF * 0xFFFF) by (nonlinear_arith)
        requires
            0 <= w <= 0xFFFF,
            0 <= h <= 0xFFFF,
    ;
    (w as u64) * (h as u64)
}

impl SpriteChunk {
    /// Reads the chunk whose header is at `*file_offset` and moves the offset
    /// behind it. Where `bin` ends before the chunk does, nothing is read
    /// and the offset stays.
    pub fn new(bin: &[u8], file_offset: &mut usize, format: &ImgFmt) -> (r: Result<SpriteChunk, AssetError>)
        ensures
            match r {
                Ok(chunk) => {
                    &&& chunk_fits(bin@, *old(file_offset) as int, *format)
                    &&& chunk@ == chunk_at(bin@, *old(file_offset) as int, *format)
                    &&& *final(file_offset) == chunk_end(bin@, *old(file_offset) as int, *format)
                },
                Err(e) => {
                    &&& e == AssetError::CodecError
                    &&& !chunk_fits(bin@, *old(file_offset) as int, *format)
                    &&& *final(file_offset) == *old(file_offset)
                },
            },
    {
        let at: usize = *file_offset;
        if bin.len() < 8 || at > bin.len() - 8 {
            return Err(AssetError::CodecError);
        }
        let x: i16 = read_i16(bin, at);
        let y: i16 = read_i16(bin, at + 2);
        let w: u16 = read_u16(bin, at + 4);
        let h: u16 = read_u16(bin, at + 6);
        let data_size: u64 = area_of(w, h) * pixel_bits(*format) / 8;
        if at + 8 > usize::MAX - 7 {
            return Err(AssetError::CodecError);
        }
        let start: usize = align_up8(at + 8);
        if start > bin.len() || data_size > (bin.len() - start) as u64 {
            return Err(AssetError::CodecError);
        }
        let end: usize = start + data_size as usize;
        let pixel_data: Vec<u8> = copy_range(bin, start, end);
        *file_offset = end;
        Ok(SpriteChunk { x, y, w, h, pixel_data })
    }
}

} // verus!
