use bk_assets::asset::Asset;
use bk_assets::kind::AssetType;
use bk_assets::error::AssetError;
use bk_assets::chunk::SpriteChunk;
use bk_assets::frame::SpriteFrame;
use bk_assets::sprite::{frame_file_name, Sprite};
use bk_assets::format::ImgFmt;

fn be16(v: u16) -> [u8; 2] {
    [(v >> 8) as u8, v as u8]
}

/// A chunk header, the padding up to the next multiple of eight seen from
/// the start of the file, and the pixel bytes.
fn push_chunk(file: &mut Vec<u8>, x: i16, y: i16, w: u16, h: u16, pixels: &[u8]) {
    file.extend_from_slice(&be16(x as u16));
    file.extend_from_slice(&be16(y as u16));
    file.extend_from_slice(&be16(w));
    file.extend_from_slice(&be16(h));
    while file.len() % 8 != 0 {
        file.push(0xEE);
    }
    file.extend_from_slice(pixels);
}

fn push_frame_header(file: &mut Vec<u8>, w: u16, h: u16, chunks: u16) {
    file.extend_from_slice(&[0, 0, 0, 0]);
    file.extend_from_slice(&be16(w));
    file.extend_from_slice(&be16(h));
    file.extend_from_slice(&be16(chunks));
    file.extend_from_slice(&[0; 10]);
}

/// Sixteen by sixteen RGBA16 pixels: the value of pixel `i` is `seed + i`
/// with the alpha bit set.
fn square(seed: u16) -> Vec<u8> {
    let mut pixels = Vec::new();
    for i in 0..256u16 {
        pixels.extend_from_slice(&be16(((seed + i) << 1) | 1));
    }
    pixels
}

fn two_frame_sprite() -> Vec<u8> {
    let mut file = vec![0x00, 0x02, 0x04, 0x00];
    file.extend_from_slice(&[0; 12]);
    // the second frame begins 544 bytes behind the first
    file.extend_from_slice(&[0, 0, 0, 0]);
    file.extend_from_slice(&[0, 0, 0x02, 0x20]);
    push_frame_header(&mut file, 16, 16, 1);
    push_chunk(&mut file, 0, 0, 16, 16, &square(0));
    assert_eq!(file.len(), 24 + 544);
    push_frame_header(&mut file, 16, 16, 1);
    push_chunk(&mut file, 0, 0, 16, 16, &square(0x1000));
    file
}

fn expand5(v: u16) -> u8 {
    ((v << 3) | (v >> 3)) as u8
}

fn expected_square(seed: u16) -> Vec<u8> {
    let mut out = Vec::new();
    for i in 0..256u16 {
        let val = ((seed + i) << 1) | 1;
        out.push(expand5((val >> 11) & 0x1F));
        out.push(expand5((val >> 6) & 0x1F));
        out.push(expand5((val >> 1) & 0x1F));
        out.push(0xFF);
    }
    out
}

#[test]
fn sprite_of_two_rgba16_frames() {
    let file = two_frame_sprite();
    let sprite = Sprite::from_bytes(&file).unwrap();
    assert_eq!(sprite.format, ImgFmt::RGBA16);
    assert_eq!(sprite.frame.len(), 2);
    for (frame, seed) in sprite.frame.iter().zip([0u16, 0x1000]) {
        assert_eq!(frame.w, 16);
        assert_eq!(frame.h, 16);
        assert_eq!(frame.header.len(), 0x14);
        assert_eq!(frame.chk_hdrs.len(), 1);
        assert_eq!(frame.chk_hdrs[0], vec![0, 0, 0, 0, 0, 16, 0, 16]);
        assert!(frame.palette.is_none());
        assert_eq!(frame.pixel_data, expected_square(seed));
    }
    assert_eq!(sprite.bytes, file);
    assert_eq!(sprite.to_bytes(), file);
    assert!(matches!(sprite.get_type(), AssetType::Sprite(ImgFmt::RGBA16)));
}

#[test]
fn frames_become_png_files_with_their_pixels() {
    let sprite = Sprite::from_bytes(&two_frame_sprite()).unwrap();
    for frame in sprite.frame.iter() {
        let file = frame.to_png().unwrap();
        assert_eq!(file[..8].to_vec(), vec![0x89, b'P', b'N', b'G', 0x0D, 0x0A, 0x1A, 0x0A]);
        let decoder = png::Decoder::new(&file[..]);
        let mut reader = decoder.read_info().unwrap();
        let mut pixels = vec![0; reader.output_buffer_size()];
        let info = reader.next_frame(&mut pixels).unwrap();
        assert_eq!(info.width, 16);
        assert_eq!(info.height, 16);
        assert_eq!(info.color_type, png::ColorType::Rgba);
        assert_eq!(info.bit_depth, png::BitDepth::Eight);
        assert_eq!(pixels[..info.buffer_size()].to_vec(), frame.pixel_data);
    }
}

#[test]
fn frame_without_pixels_is_no_png() {
    let frame = SpriteFrame {
        w: 0,
        h: 0,
        header: Vec::new(),
        chk_hdrs: Vec::new(),
        palette: None,
        pixel_data: Vec::new(),
    };
    assert!(matches!(frame.to_png(), Err(AssetError::CodecError)));
}

#[test]
fn frame_without_four_bytes_for_each_pixel_is_no_png() {
    let mut frame = SpriteFrame {
        w: 2,
        h: 1,
        header: Vec::new(),
        chk_hdrs: Vec::new(),
        palette: None,
        pixel_data: vec![0; 7],
    };
    assert!(matches!(frame.to_png(), Err(AssetError::CodecError)));
    frame.pixel_data = vec![0; 9];
    assert!(matches!(frame.to_png(), Err(AssetError::CodecError)));
    frame.pixel_data = vec![0; 8];
    assert!(frame.to_png().is_ok());
    frame.h = 0;
    assert!(matches!(frame.to_png(), Err(AssetError::CodecError)));
}

#[test]
fn sprite_of_unknown_format_keeps_its_bytes() {
    let file = vec![0x00, 0x01, 0x12, 0x34, 0xAA];
    let sprite = Sprite::from_bytes(&file).unwrap();
    assert_eq!(sprite.format, ImgFmt::Unknown(0x1234));
    assert_eq!(sprite.frame.len(), 0);
    assert_eq!(sprite.to_bytes(), file);
}

#[test]
fn sprite_that_ends_early_is_refused() {
    let file = two_frame_sprite();
    assert!(matches!(Sprite::from_bytes(&file[..file.len() - 1]), Err(AssetError::CodecError)));
    assert!(matches!(Sprite::from_bytes(&file[..600]), Err(AssetError::CodecError)));
    assert!(matches!(Sprite::from_bytes(&file[..15]), Err(AssetError::CodecError)));
    assert!(matches!(Sprite::from_bytes(&[0x00, 0x02, 0x04]), Err(AssetError::CodecError)));
}

#[test]
fn sprite_with_a_short_table_reads_the_frames_it_lists() {
    // the header counts two frames, the table ends before its first entry
    let file = [0x00, 0x02, 0x04, 0x00, 0, 0, 0, 0, 0, 0, 0, 0, 0, 0, 0, 0, 0, 0];
    let sprite = Sprite::from_bytes(&file).unwrap();
    assert_eq!(sprite.frame.len(), 0);
}

#[test]
fn giant_sprite_is_one_chunk_at_offset_eight() {
    let mut file = vec![0x01, 0x01, 0x04, 0x00, 0, 0, 0, 0];
    push_chunk(&mut file, 3, 4, 2, 1, &[0xFF, 0xFF, 0x00, 0x01]);
    let sprite = Sprite::from_bytes(&file).unwrap();
    assert_eq!(sprite.frame.len(), 1);
    let frame = &sprite.frame[0];
    assert_eq!((frame.w, frame.h), (2, 1));
    assert_eq!(frame.header.len(), 0);
    assert_eq!(frame.chk_hdrs, vec![vec![0, 3, 0, 4, 0, 2, 0, 1]]);
    assert_eq!(frame.pixel_data, vec![251, 251, 251, 255, 0, 0, 0, 255]);
}

#[test]
fn chunk_is_read_behind_its_padded_header() {
    let mut file = vec![0xAA; 4];
    push_chunk(&mut file, -2, 7, 2, 2, &[1, 2, 3, 4]);
    file.push(0xBB);
    let mut offset = 4;
    let chunk = SpriteChunk::new(&file, &mut offset, &ImgFmt::I8).unwrap();
    assert_eq!((chunk.x, chunk.y, chunk.w, chunk.h), (-2, 7, 2, 2));
    assert_eq!(chunk.pixel_data, vec![1, 2, 3, 4]);
    // header 4..12, padding to 16, four bytes of pixels
    assert_eq!(offset, 20);
}

#[test]
fn chunk_that_ends_early_leaves_the_offset() {
    let mut file = Vec::new();
    push_chunk(&mut file, 0, 0, 2, 2, &[1, 2, 3]);
    let mut offset = 0;
    assert!(matches!(SpriteChunk::new(&file, &mut offset, &ImgFmt::I8), Err(AssetError::CodecError)));
    assert_eq!(offset, 0);
    let mut offset = 1;
    assert!(matches!(SpriteChunk::new(&file, &mut offset, &ImgFmt::I8), Err(AssetError::CodecError)));
}

#[test]
fn chunks_are_put_at_their_places_and_clipped() {
    // a frame of 3 by 2 with two chunks of I8 pixels
    let mut file = Vec::new();
    push_frame_header(&mut file, 3, 2, 2);
    push_chunk(&mut file, 1, 0, 2, 2, &[10, 20, 30, 40]);
    // the second chunk lies half outside the frame, and covers one pixel of the first
    push_chunk(&mut file, 2, 1, 2, 1, &[50, 60]);
    let frame = SpriteFrame::new(&file, 0, &ImgFmt::I8).unwrap();
    let grey = |v: u8| vec![v, v, v, 0xFF];
    let mut expected = Vec::new();
    expected.extend(vec![0, 0, 0, 0]);
    expected.extend(grey(10));
    expected.extend(grey(20));
    expected.extend(vec![0, 0, 0, 0]);
    expected.extend(grey(30));
    expected.extend(grey(50));
    assert_eq!(frame.pixel_data, expected);
    assert_eq!(frame.chk_hdrs.len(), 2);
}

#[test]
fn chunk_left_of_the_frame_is_clipped() {
    let mut file = Vec::new();
    push_frame_header(&mut file, 2, 1, 2);
    push_chunk(&mut file, -1, 0, 2, 1, &[10, 20]);
    push_chunk(&mut file, 5, 5, 1, 1, &[99]);
    let frame = SpriteFrame::new(&file, 0, &ImgFmt::I8).unwrap();
    assert_eq!(frame.pixel_data, vec![20, 20, 20, 0xFF, 0, 0, 0, 0]);
}

#[test]
fn the_only_chunk_of_a_frame_goes_to_the_corner() {
    let mut file = Vec::new();
    push_frame_header(&mut file, 2, 1, 1);
    push_chunk(&mut file, 1, 1, 2, 1, &[10, 20]);
    let frame = SpriteFrame::new(&file, 0, &ImgFmt::I8).unwrap();
    assert_eq!(frame.pixel_data, vec![10, 10, 10, 0xFF, 20, 20, 20, 0xFF]);
}

#[test]
fn frame_of_an_indexed_format_has_its_palette() {
    let mut file = vec![0xAA; 4];
    push_frame_header(&mut file, 2, 1, 1);
    while file.len() % 8 != 0 {
        file.push(0);
    }
    let mut palette = vec![0u8; 0x20];
    palette[2] = 0xFF;
    palette[3] = 0xFF;
    file.extend_from_slice(&palette);
    push_chunk(&mut file, 0, 0, 2, 1, &[0x10]);
    let frame = SpriteFrame::new(&file, 4, &ImgFmt::CI4).unwrap();
    assert_eq!(frame.palette, Some(palette));
    assert_eq!(frame.pixel_data, vec![251, 251, 251, 255, 0, 0, 0, 0]);
}

#[test]
fn frame_that_ends_early_is_refused() {
    let mut file = Vec::new();
    push_frame_header(&mut file, 2, 1, 2);
    push_chunk(&mut file, 0, 0, 2, 1, &[10, 20]);
    assert!(matches!(SpriteFrame::new(&file, 0, &ImgFmt::I8), Err(AssetError::CodecError)));
    assert!(matches!(SpriteFrame::new(&file[..19], 0, &ImgFmt::I8), Err(AssetError::CodecError)));
    assert!(matches!(SpriteFrame::new(&file, 100, &ImgFmt::I8), Err(AssetError::CodecError)));
}

#[test]
fn sprite_descriptor() {
    let sprite = Sprite::from_bytes(&two_frame_sprite()).unwrap();
    assert_eq!(
        sprite.descriptor("out/sprite/0123"),
        "type: Sprite\nformat: RGBA16\nframes:\n  - \"out/sprite/0123/00.rgba16.png\"\n  - \"out/sprite/0123/01.rgba16.png\"\n"
    );
    assert_eq!(frame_file_name(0x1F, ImgFmt::CI4), "1F.ci4.png");
}

#[test]
fn sprite_taken_from_its_file_has_no_frames() {
    let sprite = Sprite::read(&two_frame_sprite());
    assert_eq!(sprite.format, ImgFmt::Unknown(0));
    assert_eq!(sprite.frame.len(), 0);
    assert_eq!(sprite.to_bytes(), two_frame_sprite());
    assert_eq!(sprite.write(), two_frame_sprite());
}
