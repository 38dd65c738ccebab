use bk_assets::asset::{from_seg_indx_and_bytes, AnyAsset, Asset};
use bk_assets::kind::AssetType;
use bk_assets::opaque::{Binary, Model};
use bk_assets::error::AssetError;
use bk_assets::format::ImgFmt;

#[test]
fn segments_of_one_kind() {
    let bytes = [1, 2, 3];
    assert!(matches!(from_seg_indx_and_bytes(0, 0, &bytes), Ok(AnyAsset::Animation(_))));
    assert!(matches!(from_seg_indx_and_bytes(2, 0, &bytes), Ok(AnyAsset::LevelSetup(_))));
    assert!(matches!(from_seg_indx_and_bytes(5, 0, &bytes), Ok(AnyAsset::Model(_))));
    assert!(matches!(from_seg_indx_and_bytes(6, 0, &bytes), Ok(AnyAsset::Midi(_))));
    assert!(matches!(from_seg_indx_and_bytes(7, 0, &bytes), Ok(AnyAsset::Binary(_))));
    assert!(matches!(from_seg_indx_and_bytes(1000, 0, &bytes), Ok(AnyAsset::Binary(_))));
    for segment in [0, 2, 5, 6, 7] {
        assert_eq!(from_seg_indx_and_bytes(segment, 0, &bytes).unwrap().to_bytes(), bytes.to_vec());
    }
}

#[test]
fn models_and_sprites_share_two_segments() {
    let model = [0x00, 0x00, 0x00, 0x0B, 0x99];
    let sprite = [0x00, 0x01, 0x77, 0x77];
    for segment in [1, 3] {
        assert!(matches!(from_seg_indx_and_bytes(segment, 0, &model), Ok(AnyAsset::Model(_))));
        let asset = from_seg_indx_and_bytes(segment, 0, &sprite).unwrap();
        assert!(matches!(asset.get_type(), AssetType::Sprite(ImgFmt::Unknown(0x7777))));
    }
    assert!(matches!(from_seg_indx_and_bytes(1, 0, &[0x00, 0x00, 0x00]), Err(AssetError::CodecError)));
}

#[test]
fn segment_four_is_told_by_the_prefix() {
    let quiz = [0x01, 0x01, 0x02, 0x05, 0x00, 0x03, 1, 0, 2, 0, 3, 0];
    let grunty = [0x01, 0x03, 0x00, 0x05, 0x00, 0x03, 1, 0, 2, 0, 3, 0];
    let dialog = [0x01, 0x03, 0x00, 0x00, 0x00];
    let demo = [0x00, 0x00, 0x00, 0x06, 1, 2, 3, 4, 5, 6];
    assert!(matches!(from_seg_indx_and_bytes(4, 0, &quiz), Ok(AnyAsset::QuizQuestion(_))));
    assert!(matches!(from_seg_indx_and_bytes(4, 0, &grunty), Ok(AnyAsset::GruntyQuestion(_))));
    assert!(matches!(from_seg_indx_and_bytes(4, 0, &dialog), Ok(AnyAsset::Dialog(_))));
    assert!(matches!(from_seg_indx_and_bytes(4, 0, &demo), Ok(AnyAsset::DemoInput(_))));
    assert!(matches!(from_seg_indx_and_bytes(4, 0, &[]), Ok(AnyAsset::DemoInput(_))));
    for payload in [&quiz[..], &grunty[..], &dialog[..], &demo[..]] {
        assert_eq!(from_seg_indx_and_bytes(4, 9, payload).unwrap().to_bytes(), payload.to_vec());
    }
}

#[test]
fn payload_that_is_no_asset_of_its_kind_is_refused() {
    assert!(matches!(
        from_seg_indx_and_bytes(4, 0, &[0x01, 0x01, 0x02, 0x05, 0x00, 0x02, 1, 0, 2, 0]),
        Err(AssetError::CodecError)
    ));
    assert!(matches!(from_seg_indx_and_bytes(4, 0, &[0x01, 0x03, 0x00, 0x01]), Err(AssetError::CodecError)));
    assert!(matches!(from_seg_indx_and_bytes(4, 0, &[0, 0, 0, 5, 0, 0, 0, 0, 0, 0]), Err(AssetError::CodecError)));
}

#[test]
fn names_of_the_kinds() {
    let cases = [
        (AssetType::Animation, "Animation", ".anim.bin", "anim"),
        (AssetType::Binary, "Binary", ".bin", "bin"),
        (AssetType::DemoInput, "DemoInput", ".demo", "demo"),
        (AssetType::Dialog, "Dialog", ".dialog", "dialog"),
        (AssetType::GruntyQuestion, "GruntyQuestion", ".grunty_q", "grunty_q"),
        (AssetType::LevelSetup, "LevelSetup", ".lvl_setup.bin", "lvl_setup"),
        (AssetType::Midi, "Midi", ".midi.bin", "midi"),
        (AssetType::Model, "Model", ".model.bin", "model"),
        (AssetType::QuizQuestion, "QuizQuestion", ".quiz_q", "quiz_q"),
        (AssetType::Sprite(ImgFmt::CI4), "Sprite_CI4", ".sprite.ci4.bin", "sprite"),
        (AssetType::Sprite(ImgFmt::RGBA32), "Sprite_RGBA32", ".sprite.rgba32.bin", "sprite"),
        (AssetType::Sprite(ImgFmt::IA8), "Sprite_IA8", ".sprite.ia8.bin", "sprite"),
        (AssetType::Sprite(ImgFmt::Unknown(7)), "Binary", ".bin", "bin"),
    ];
    for (kind, name, extension, folder) in cases {
        assert_eq!(kind.name(), name);
        assert_eq!(kind.extension(), extension);
        assert_eq!(kind.folder(), folder);
    }
}

#[test]
fn opaque_assets_keep_their_bytes() {
    let bytes = [9, 8, 7];
    assert_eq!(Binary::from_bytes(&bytes).to_bytes(), bytes.to_vec());
    assert_eq!(Binary::read(&bytes).write(), bytes.to_vec());
    assert_eq!(Model::from_bytes(&bytes).to_bytes(), bytes.to_vec());
    assert!(matches!(Model::read(&bytes).get_type(), AssetType::Model));
}

#[test]
fn files_are_read_by_the_name_of_their_kind() {
    let bytes = [0xFF, 0x00, 0x80];
    assert!(matches!(AnyAsset::read("Binary", &bytes), Ok(AnyAsset::Binary(_))));
    assert!(matches!(AnyAsset::read("Animation", &bytes), Ok(AnyAsset::Animation(_))));
    assert!(matches!(AnyAsset::read("LevelSetup", &bytes), Ok(AnyAsset::LevelSetup(_))));
    assert!(matches!(AnyAsset::read("Midi", &bytes), Ok(AnyAsset::Midi(_))));
    assert!(matches!(AnyAsset::read("Model", &bytes), Ok(AnyAsset::Model(_))));
    assert!(matches!(AnyAsset::read("Sprite_RGBA16", &bytes), Ok(AnyAsset::Sprite(_))));
    assert!(matches!(AnyAsset::read("Sprite_IA4", &bytes), Ok(AnyAsset::Sprite(_))));
    assert_eq!(AnyAsset::read("Sprite_CI8", &bytes).unwrap().to_bytes(), bytes.to_vec());
    let dialog = b"type: Dialog\nbottom:\n  - { cmd: 0x01, string: \"a\"}\ntop:\n";
    let asset = AnyAsset::read("Dialog", dialog).unwrap();
    assert_eq!(asset.to_bytes(), vec![0x01, 0x03, 0x00, 0x01, 0x01, 0x02, 0x61, 0x00, 0x00]);
    assert_eq!(asset.write(), dialog.to_vec());
    let demo = b"type: DemoInput\nflag: 0x01\ninputs: []\n";
    assert!(matches!(AnyAsset::read("DemoInput", demo), Ok(AnyAsset::DemoInput(_))));
}

#[test]
fn unknown_names_and_wrong_files_are_refused() {
    assert!(matches!(AnyAsset::read("Sprite_XYZ", &[1]), Err(AssetError::CodecError)));
    assert!(matches!(AnyAsset::read("Sprite_UNKNOWN", &[1]), Err(AssetError::CodecError)));
    assert!(matches!(AnyAsset::read("binary", &[1]), Err(AssetError::CodecError)));
    assert!(matches!(AnyAsset::read("", &[1]), Err(AssetError::CodecError)));
    // a dialog whose file is no text
    assert!(matches!(AnyAsset::read("Dialog", &[0xFF, 0xFE]), Err(AssetError::CodecError)));
    // a demo whose file holds a dialog
    assert!(matches!(
        AnyAsset::read("DemoInput", b"type: Dialog\nbottom: []\ntop: []\n"),
        Err(AssetError::CodecError)
    ));
}
