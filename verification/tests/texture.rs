use bk_assets::format::ImgFmt;
use bk_assets::texture::Texture;

#[test]
fn rgba16_black_is_transparent_black() {
    assert_eq!(Texture::rgba16_to_rgba32(&[0x00, 0x00]), vec![0, 0, 0, 0]);
}

#[test]
fn rgba16_all_ones() {
    assert_eq!(Texture::rgba16_to_rgba32(&[0xFF, 0xFF]), vec![251, 251, 251, 255]);
}

#[test]
fn rgba16_green_only() {
    assert_eq!(Texture::rgba16_to_rgba32(&[0x07, 0xC1]), vec![0, 251, 0, 255]);
}

#[test]
fn rgba16_blue_only_opaque() {
    assert_eq!(Texture::rgba16_to_rgba32(&[0x00, 0x3F]), vec![0, 0, 251, 255]);
}

#[test]
fn rgba16_drops_last_odd_byte() {
    assert_eq!(Texture::rgba16_to_rgba32(&[0xF8, 0x00, 0x12]), vec![251, 0, 0, 0]);
}

#[test]
fn i4_repeats_each_nibble() {
    assert_eq!(
        Texture::i4_to_rgba32(&[0xA5]),
        vec![0xAA, 0xAA, 0xAA, 0xFF, 0x55, 0x55, 0x55, 0xFF]
    );
}

#[test]
fn i8_is_opaque_grey() {
    assert_eq!(Texture::i8_to_rgba32(&[0x00, 0x7F]), vec![0, 0, 0, 0xFF, 0x7F, 0x7F, 0x7F, 0xFF]);
}

#[test]
fn ia4_three_bits_of_grey_and_one_of_alpha() {
    // high nibble 1111: grey 7, alpha set; low nibble 0100: grey 2, alpha clear
    assert_eq!(
        Texture::ia4_to_rgba32(&[0xF4]),
        vec![0xFF, 0xFF, 0xFF, 0xFF, 0x49, 0x49, 0x49, 0x00]
    );
}

#[test]
fn ia8_grey_high_alpha_low() {
    assert_eq!(Texture::ia8_to_rgba32(&[0x3C]), vec![0x33, 0x33, 0x33, 0xCC]);
}

#[test]
fn ci8_looks_up_the_palette() {
    let mut palette = vec![0u8; 0x200];
    palette[2 * 5] = 0xFF;
    palette[2 * 5 + 1] = 0xFF;
    assert_eq!(
        Texture::ci8_to_rgba32(&[5, 0], &palette),
        vec![251, 251, 251, 255, 0, 0, 0, 0]
    );
}

#[test]
fn ci4_looks_up_two_entries_for_each_byte() {
    let mut palette = vec![0u8; 0x20];
    palette[2 * 3] = 0xF8;
    palette[2 * 3 + 1] = 0x01;
    palette[2 * 15] = 0x00;
    palette[2 * 15 + 1] = 0x3E;
    assert_eq!(
        Texture::ci4_to_rgba32(&[0x3F], &palette),
        vec![251, 0, 0, 255, 0, 0, 251, 0]
    );
}

#[test]
fn texture_splits_palette_from_pixels() {
    let mut bin = vec![0u8; 0x20];
    bin[2] = 0xFF;
    bin[3] = 0xFF;
    bin.push(0x10);
    let texture = Texture::new(ImgFmt::CI4, 2, 1, &bin);
    assert_eq!(texture.to_rgba32(), vec![251, 251, 251, 255, 0, 0, 0, 0]);
}

#[test]
fn texture_rgba32_passes_through() {
    let texture = Texture::new(ImgFmt::RGBA32, 1, 2, &[1, 2, 3, 4, 5, 6, 7, 8]);
    assert_eq!(texture.to_rgba32(), vec![1, 2, 3, 4, 5, 6, 7, 8]);
}

#[test]
fn texture_of_a_tight_image_has_four_bytes_a_pixel() {
    let texture = Texture::new(ImgFmt::I4, 4, 2, &[0x01, 0x23, 0x45, 0x67]);
    assert_eq!(texture.to_rgba32().len(), 4 * 4 * 2);
}
