//! Frames as PNG files.

use vstd::prelude::*;
use crate::chunk::area_of;
use crate::error::AssetError;
use crate::format::ImgFmt;
use crate::frame::{frame_at, frame_fits, lemma_frame_is_tight, FrameView, SpriteFrame};

verus! {

/// The error with which the png crate gives an image up.
#[verifier::external_type_specification]
#[verifier::external_body]
pub struct ExEncodingError(png::EncodingError);

/// The PNG file that the png crate makes of an image of `width` by
/// `height` pixels, eight bits to each of red, green, blue and alpha, whose
/// rows are `rgba`. It stands for the file only where the image has
/// pixels and `rgba` holds four bytes for each of them.
pub uninterp spec fn png_file(width: u32, height: u32, rgba: Seq<u8>) -> Seq<u8>;

/// Whether `rgba` holds an image of `width` by `height` pixels: it has
/// pixels, and four bytes for each of them.
pub open spec fn is_image(width: int, height: int, rgba: Seq<u8>) -> bool {
    width > 0 && height > 0 && rgba.len() == 4 * (width * height)
}

/// The encoder of the png crate, set to RGBA of eight bits and run into a
/// buffer: `Encoder::new`, `set_color`, `set_depth`, `write_header`, then
/// `Writer::write_image_data` and `Writer::finish`.
///
/// The encoder gives up an image without pixels and a buffer of another
/// length than four bytes for each pixel, and it multiplies the sizes
/// without a check before it compares that length: so only images with
/// pixels and a buffer of the right length are handed to it. Of these it
/// gives none up, since writing into a buffer cannot fail, and the same
/// image always gives the same file.
#[verifier::external_body]
fn encode_png(width: u32, height: u32, rgba: &[u8]) -> (r: Result<Vec<u8>, png::EncodingError>)
    requires
        is_image(width as int, height as int, rgba@),
    ensures
        match r {
            Ok(file) => file@ == png_file(width, height, rgba@),
            Err(_) => false,
        },
{
    let mut file: Vec<u8> = Vec::new();
    let mut encoder = png::Encoder::new(&mut file, width, height);
    encoder.set_color(png::ColorType::Rgba);
    encoder.set_depth(png::BitDepth::Eight);
    let mut writer = encoder.write_header()?;
    writer.write_image_data(rgba)?;
    writer.finish()?;
    Ok(file)
}

/// The PNG file of a frame, where the frame is an image: it has pixels,
/// and four bytes for each of them.
pub open spec fn frame_png(frame: FrameView) -> Option<Seq<u8>> {
    if is_image(frame.w, frame.h, frame.pixel_data) {
        Some(png_file(frame.w as u32, frame.h as u32, frame.pixel_data))
    } else {
        None
    }
}

impl SpriteFrame {
    /// The frame as a PNG file. Fails where the frame is no image: where
    /// it has no pixels, or not four bytes for each of them.
    pub fn to_png(&self) -> (r: Result<Vec<u8>, AssetError>)
        ensures
            match r {
                Ok(file) => frame_png(self@) == Some(file@),
                Err(e) => e == AssetError::CodecError && frame_png(self@) is None,
            },
    {
        if self.w == 0 || self.h == 0 || self.pixel_data.len() as u64 != 4 * area_of(self.w, self.h) {
            return Err(AssetError::CodecError);
        }
        match encode_png(self.w as u32, self.h as u32, self.pixel_data.as_slice()) {
            Ok(file) => Ok(file),
            Err(_) => Err(AssetError::CodecError),
        }
    }
}

/// A frame that was read becomes a PNG file exactly where it has pixels:
/// it always has four bytes for each of them.
pub proof fn lemma_read_frame_is_image(bin: Seq<u8>, at: int, fmt: ImgFmt)
    requires
        frame_fits(bin, at, fmt),
    ensures
        frame_png(frame_at(bin, at, fmt)) is Some <==> frame_at(bin, at, fmt).w > 0 && frame_at(bin, at, fmt).h
            > 0,
{
    lemma_frame_is_tight(bin, at, fmt);
}

} // verus!
