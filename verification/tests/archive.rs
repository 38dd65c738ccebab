use bk_assets::archive::AssetFolder;
use bk_assets::asset::{AnyAsset, Asset};
use bk_assets::kind::AssetType;
use bk_assets::bytes::pad_to_16;
use bk_assets::entry::AssetEntry;
use bk_assets::error::AssetError;
use bk_assets::files::{descriptor_path_of, frames_dir_of, path_of};
use bk_assets::manifest::{row_of, Manifest, ManifestRow};
use bk_assets::segment::SegmentState;
use bk_assets::table::{read_slots, AssetMeta, StoredAsset};
use bk_assets::format::ImgFmt;

fn slot(offset: u32, compressed: bool, flag: u16) -> Vec<u8> {
    let mut record = offset.to_be_bytes().to_vec();
    record.push(0);
    record.push(compressed as u8);
    record.extend_from_slice(&flag.to_be_bytes());
    record
}

/// An archive of six slots: an animation, an empty slot, a model, a sprite
/// of unknown format, a level setup, and the slot that bounds the last
/// payload. Its length is a multiple of sixteen.
fn small_archive() -> Vec<u8> {
    let mut file = vec![0, 0, 0, 6, 0xFF, 0xFF, 0xFF, 0xFF];
    file.extend(slot(0, false, 2));
    file.extend(slot(3, false, 4));
    file.extend(slot(3, false, 3));
    file.extend(slot(8, false, 2));
    file.extend(slot(12, false, 1));
    file.extend(slot(13, false, 4));
    file.extend_from_slice(&[1, 2, 3]);
    file.extend_from_slice(&[0x00, 0x00, 0x00, 0x0B, 5]);
    file.extend_from_slice(&[0x00, 0x01, 0x12, 0x34]);
    file.extend_from_slice(&[7]);
    assert_eq!(file.len(), 69);
    file.resize(80, 0);
    file
}

fn small_folder() -> AssetFolder {
    AssetFolder::from_slots(&read_slots(&small_archive()).unwrap()).unwrap()
}

#[test]
fn slot_record() {
    let meta = AssetMeta::from_bytes(&[0x00, 0x01, 0x02, 0x03, 0x00, 0x01, 0x12, 0x34]);
    assert_eq!(meta, AssetMeta { offset: 0x010203, c_flag: true, t_flag: 0x1234 });
    assert_eq!(meta.to_bytes(), vec![0x00, 0x01, 0x02, 0x03, 0x00, 0x01, 0x12, 0x34]);
    // any value but zero in the field of 16 bits says compressed
    let meta = AssetMeta::from_bytes(&[0xFF, 0xFF, 0xFF, 0xFF, 0x02, 0x00, 0x00, 0x04, 0x99]);
    assert_eq!(meta, AssetMeta { offset: 0xFFFF_FFFF, c_flag: true, t_flag: 4 });
    assert_eq!(meta.to_bytes(), vec![0xFF, 0xFF, 0xFF, 0xFF, 0x00, 0x01, 0x00, 0x04]);
    let meta = AssetMeta { offset: 0, c_flag: false, t_flag: 0 };
    assert_eq!(meta.to_bytes(), vec![0; 8]);
}

#[test]
fn empty_entry() {
    let entry = AssetEntry::new(0x123);
    assert_eq!(entry.uid, 0x123);
    assert_eq!(entry.seg, 0);
    assert_eq!(entry.meta, AssetMeta { offset: 0, c_flag: false, t_flag: 4 });
    assert!(entry.data.is_none());
}

#[test]
fn slots_are_cut_from_the_archive() {
    let slots = read_slots(&small_archive()).unwrap();
    assert_eq!(slots.len(), 5);
    assert_eq!(slots[0].meta, AssetMeta { offset: 0, c_flag: false, t_flag: 2 });
    assert_eq!(slots[0].bytes, vec![1, 2, 3]);
    assert_eq!(slots[1].meta.t_flag, 4);
    assert_eq!(slots[1].bytes, Vec::<u8>::new());
    assert_eq!(slots[2].bytes, vec![0x00, 0x00, 0x00, 0x0B, 5]);
    assert_eq!(slots[3].bytes, vec![0x00, 0x01, 0x12, 0x34]);
    assert_eq!(slots[4].meta, AssetMeta { offset: 12, c_flag: false, t_flag: 1 });
    assert_eq!(slots[4].bytes, vec![7]);
}

#[test]
fn archive_without_slots_has_no_entries() {
    assert_eq!(read_slots(&[0, 0, 0, 0, 0xFF, 0xFF, 0xFF, 0xFF]).unwrap().len(), 0);
    let mut one = vec![0, 0, 0, 1, 0xFF, 0xFF, 0xFF, 0xFF];
    one.extend(slot(0, false, 4));
    assert_eq!(read_slots(&one).unwrap().len(), 0);
}

#[test]
fn archive_that_ends_early_is_refused() {
    let file = small_archive();
    assert!(matches!(read_slots(&file[..7]), Err(AssetError::FormatError)));
    assert!(matches!(read_slots(&file[..55]), Err(AssetError::FormatError)));
    assert!(matches!(read_slots(&file[..68]), Err(AssetError::FormatError)));
    assert!(read_slots(&file[..69]).is_ok());
}

#[test]
fn payload_that_ends_before_it_begins_is_refused() {
    let mut file = vec![0, 0, 0, 2, 0xFF, 0xFF, 0xFF, 0xFF];
    file.extend(slot(2, false, 2));
    file.extend(slot(1, false, 4));
    file.extend_from_slice(&[1, 2, 3]);
    assert!(matches!(read_slots(&file), Err(AssetError::FormatError)));
}

#[test]
fn offsets_of_an_empty_slot_are_not_looked_at() {
    let mut file = vec![0, 0, 0, 2, 0xFF, 0xFF, 0xFF, 0xFF];
    file.extend(slot(900, false, 4));
    file.extend(slot(1, false, 4));
    let slots = read_slots(&file).unwrap();
    assert_eq!(slots.len(), 1);
    assert_eq!(slots[0].bytes, Vec::<u8>::new());
}

#[test]
fn segments_follow_the_flags() {
    let folder = small_folder();
    let entries = folder.entries();
    assert_eq!(entries.len(), 5);
    let segments: Vec<usize> = entries.iter().map(|e| e.seg).collect();
    assert_eq!(segments, vec![0, 0, 1, 1, 2]);
    let uids: Vec<usize> = entries.iter().map(|e| e.uid).collect();
    assert_eq!(uids, vec![0, 1, 2, 3, 4]);
    assert!(matches!(entries[0].data, Some(AnyAsset::Animation(_))));
    assert!(entries[1].data.is_none());
    assert!(matches!(entries[2].data, Some(AnyAsset::Model(_))));
    assert!(matches!(entries[3].data, Some(AnyAsset::Sprite(_))));
    assert!(matches!(entries[4].data, Some(AnyAsset::LevelSetup(_))));
    assert_eq!(entries[2].meta, AssetMeta { offset: 3, c_flag: false, t_flag: 3 });
}

#[test]
fn segment_grows_only_where_the_second_bit_changes() {
    let mut state = SegmentState::new();
    assert_eq!(state, SegmentState { counter: 0, prev_t: 0 });
    // not 2, and the second bit differs from that of 0
    state.step(3);
    assert_eq!(state, SegmentState { counter: 1, prev_t: 3 });
    // 2 never begins a segment
    state.step(2);
    assert_eq!(state, SegmentState { counter: 1, prev_t: 3 });
    // the same second bit as 3
    state.step(6);
    assert_eq!(state, SegmentState { counter: 1, prev_t: 3 });
    // an empty slot changes nothing
    state.step(4);
    assert_eq!(state, SegmentState { counter: 1, prev_t: 3 });
    state.step(5);
    assert_eq!(state, SegmentState { counter: 2, prev_t: 5 });
    state.step(0);
    assert_eq!(state, SegmentState { counter: 2, prev_t: 5 });
    state.step(0x8002);
    assert_eq!(state, SegmentState { counter: 3, prev_t: 0x8002 });
}

#[test]
fn first_slot_with_the_second_bit_clear_stays_in_segment_zero() {
    let slots = vec![
        StoredAsset { meta: AssetMeta { offset: 0, c_flag: false, t_flag: 1 }, bytes: vec![1] },
        StoredAsset { meta: AssetMeta { offset: 1, c_flag: false, t_flag: 3 }, bytes: vec![0, 0, 0, 0x0B] },
    ];
    let folder = AssetFolder::from_slots(&slots).unwrap();
    assert_eq!(folder.entries()[0].seg, 0);
    assert!(matches!(folder.entries()[0].data, Some(AnyAsset::Animation(_))));
    assert_eq!(folder.entries()[1].seg, 1);
}

#[test]
fn payload_that_is_no_asset_fails_the_folder() {
    let slots = vec![
        StoredAsset { meta: AssetMeta { offset: 0, c_flag: false, t_flag: 3 }, bytes: vec![0, 0] },
    ];
    assert!(matches!(AssetFolder::from_slots(&slots), Err(AssetError::CodecError)));
}

#[test]
fn manifest_of_the_small_archive() {
    assert_eq!(
        small_folder().manifest(),
        "tbl_len: 0x6\n\
         files:\n  \
         - {uid: 0x0000, type: Animation, compressed: false, flags: 0x0002, relative_path: \"anim/0000.anim.bin\"}\n  \
         - {uid: 0x0002, type: Model , compressed: false, flags: 0x0003, relative_path: \"model/0002.model.bin\"}\n  \
         - {uid: 0x0003, type: Binary, compressed: false, flags: 0x0002, relative_path: \"bin/0003.bin\"}\n  \
         - {uid: 0x0004, type: LevelSetup, compressed: false, flags: 0x0001, relative_path: \"lvl_setup/0004.lvl_setup.bin\"}\n"
    );
}

#[test]
fn manifest_row() {
    let meta = AssetMeta { offset: 77, c_flag: true, t_flag: 0xABCD };
    assert_eq!(
        row_of(0x12345, AssetType::Midi, meta),
        "  - {uid: 0x12345, type: Midi  , compressed: true , flags: 0xABCD, relative_path: \"midi/12345.midi.bin\"}\n"
    );
    assert_eq!(path_of(AssetType::Sprite(ImgFmt::RGBA16), 0x123), "sprite/0123.sprite.rgba16.bin");
    assert_eq!(path_of(AssetType::Dialog, 0xA), "dialog/000A.dialog");
    assert_eq!(frames_dir_of(0x123), "sprite/0123");
    assert_eq!(descriptor_path_of(0x123), "sprite/0123.sprite.yaml");
}

#[test]
fn empty_slot_is_counted_and_not_listed() {
    let mut slots = Vec::new();
    for uid in 0..0x124 {
        slots.push(StoredAsset { meta: AssetMeta { offset: 0, c_flag: false, t_flag: 4 }, bytes: Vec::new() });
        if uid == 0x122 {
            slots[uid] = StoredAsset { meta: AssetMeta { offset: 0, c_flag: false, t_flag: 2 }, bytes: vec![1] };
        }
    }
    let folder = AssetFolder::from_slots(&slots).unwrap();
    assert!(folder.entries()[0x123].data.is_none());
    assert_eq!(folder.payloads()[0x123], Vec::<u8>::new());
    assert_eq!(
        folder.manifest(),
        "tbl_len: 0x125\nfiles:\n  - {uid: 0x0122, type: Animation, compressed: false, flags: 0x0002, relative_path: \"anim/0122.anim.bin\"}\n"
    );
    let files = folder.write().unwrap();
    let paths: Vec<&str> = files.iter().map(|f| f.path.as_str()).collect();
    assert_eq!(paths, vec!["assets.yaml", "anim/0122.anim.bin"]);
}

#[test]
fn archive_is_made_again_with_one_slot_more_than_entries() {
    let archive = small_archive();
    let mut folder = small_folder();
    assert_eq!(folder.entries().len(), 5);
    let payloads = folder.payloads();
    assert_eq!(payloads, vec![vec![1, 2, 3], vec![], vec![0, 0, 0, 0x0B, 5], vec![0, 1, 0x12, 0x34], vec![7]]);
    let mut made = folder.to_bytes(&payloads).unwrap();
    assert_eq!(made[..4].to_vec(), vec![0, 0, 0, 6]);
    assert_eq!(folder.entries().len(), 6);
    assert!(folder.entries()[5].data.is_none());
    assert_eq!(folder.entries()[5].meta, AssetMeta { offset: 13, c_flag: false, t_flag: 4 });
    assert_eq!(folder.entries()[5].uid, 5);
    pad_to_16(&mut made);
    assert_eq!(made, archive);
}

#[test]
fn offsets_are_the_lengths_before() {
    let mut folder = small_folder();
    // other payloads than the assets' own, as a compressor would hand them in
    let stored = vec![vec![9; 10], vec![8; 100], vec![7; 1], vec![], vec![6; 2]];
    let made = folder.to_bytes(&stored).unwrap();
    let offsets: Vec<u32> = folder.entries().iter().map(|e| e.meta.offset).collect();
    // what is handed in for the empty entry is left out
    assert_eq!(offsets, vec![0, 10, 10, 11, 11, 13]);
    assert_eq!(made.len(), 8 + 6 * 8 + 13);
    assert_eq!(made[56..].to_vec(), vec![9, 9, 9, 9, 9, 9, 9, 9, 9, 9, 7, 6, 6]);
    assert_eq!(made[8 + 8..8 + 16].to_vec(), vec![0, 0, 0, 10, 0, 0, 0, 4]);
}

#[test]
fn folder_with_an_empty_last_entry_gets_no_further_slot() {
    let slots = vec![
        StoredAsset { meta: AssetMeta { offset: 0, c_flag: true, t_flag: 2 }, bytes: vec![1, 2] },
        StoredAsset { meta: AssetMeta { offset: 5, c_flag: false, t_flag: 4 }, bytes: vec![] },
    ];
    let mut folder = AssetFolder::from_slots(&slots).unwrap();
    let made = folder.to_bytes(&vec![vec![0xAA], vec![]]).unwrap();
    let mut expected = vec![0, 0, 0, 2, 0xFF, 0xFF, 0xFF, 0xFF];
    expected.extend(slot(0, true, 2));
    expected.extend(slot(1, false, 4));
    expected.push(0xAA);
    assert_eq!(made, expected);
    assert_eq!(folder.entries().len(), 2);
}

#[test]
fn empty_folder_makes_an_archive_without_slots() {
    let mut folder = AssetFolder::new();
    assert_eq!(folder.to_bytes(&Vec::new()).unwrap(), vec![0, 0, 0, 0, 0xFF, 0xFF, 0xFF, 0xFF]);
    assert_eq!(folder.manifest(), "tbl_len: 0x1\nfiles:\n");
}

#[test]
fn payloads_that_do_not_match_the_entries_are_refused() {
    let mut folder = small_folder();
    assert!(matches!(folder.to_bytes(&vec![vec![1]]), Err(AssetError::FormatError)));
    assert_eq!(folder.entries().len(), 5);
}

#[test]
fn padding_to_sixteen() {
    let mut bytes = vec![1; 17];
    pad_to_16(&mut bytes);
    assert_eq!(bytes.len(), 32);
    assert_eq!(bytes[17..].to_vec(), vec![0; 15]);
    let mut bytes = vec![1; 32];
    pad_to_16(&mut bytes);
    assert_eq!(bytes, vec![1; 32]);
    let mut bytes = Vec::new();
    pad_to_16(&mut bytes);
    assert_eq!(bytes.len(), 0);
}

#[test]
fn manifest_is_read_from_its_text() {
    let manifest = Manifest::read(&small_folder().manifest()).unwrap();
    assert_eq!(manifest.tbl_len, 6);
    assert_eq!(manifest.files.len(), 4);
    assert_eq!(manifest.files[1].uid, 2);
    assert_eq!(manifest.files[1].kind, "Model");
    assert!(!manifest.files[1].compressed);
    assert_eq!(manifest.files[1].flags, 3);
    assert_eq!(manifest.files[1].relative_path, "model/0002.model.bin");
    assert_eq!(manifest.files[3].kind, "LevelSetup");
}

#[test]
fn manifest_that_lacks_something_is_refused() {
    assert!(matches!(Manifest::read("files: []\n"), Err(AssetError::CodecError)));
    assert!(matches!(Manifest::read("tbl_len: 0x2\n"), Err(AssetError::CodecError)));
    assert!(matches!(Manifest::read("tbl_len: -1\nfiles: []\n"), Err(AssetError::CodecError)));
    assert!(matches!(
        Manifest::read("tbl_len: 2\nfiles:\n  - {uid: 0, type: Binary, compressed: false, flags: 2}\n"),
        Err(AssetError::CodecError)
    ));
    assert!(matches!(
        Manifest::read("tbl_len: 2\nfiles:\n  - {uid: 0, type: Binary, compressed: 1, flags: 2, relative_path: \"a\"}\n"),
        Err(AssetError::CodecError)
    ));
    assert!(matches!(
        Manifest::read("tbl_len: 2\nfiles:\n  - {uid: 0, type: Binary, compressed: true, flags: 0x10000, relative_path: \"a\"}\n"),
        Err(AssetError::CodecError)
    ));
    assert!(Manifest::read("tbl_len: 2\nfiles:\n").is_ok());
}

#[test]
fn archive_is_made_again_from_manifest_and_files() {
    let extracted = small_folder();
    let manifest = Manifest::read(&extracted.manifest()).unwrap();
    let mut files = Vec::new();
    for row in manifest.files.iter() {
        files.push(extracted.entries()[row.uid].data.as_ref().unwrap().write());
    }
    let mut folder = AssetFolder::new();
    folder.read(&manifest, &files).unwrap();
    // as many entries as the table is long: the last one is the empty slot
    assert_eq!(folder.entries().len(), 6);
    assert!(folder.entries()[1].data.is_none());
    assert!(folder.entries()[5].data.is_none());
    assert_eq!(folder.entries()[2].meta.t_flag, 3);
    let payloads = folder.payloads();
    let mut made = folder.to_bytes(&payloads).unwrap();
    assert_eq!(folder.entries().len(), 6);
    pad_to_16(&mut made);
    assert_eq!(made, small_archive());
}

#[test]
fn folder_grows_to_the_greatest_place() {
    let manifest = Manifest {
        tbl_len: 2,
        files: vec![
            ManifestRow {
                uid: 4,
                kind: String::from("Binary"),
                compressed: true,
                flags: 9,
                relative_path: String::from("bin/0004.bin"),
            },
            ManifestRow {
                uid: 4,
                kind: String::from("Midi"),
                compressed: false,
                flags: 7,
                relative_path: String::from("midi/0004.midi.bin"),
            },
        ],
    };
    let mut folder = AssetFolder::new();
    folder.read(&manifest, &vec![vec![1], vec![2, 3]]).unwrap();
    assert_eq!(folder.entries().len(), 5);
    for uid in 0..4 {
        assert_eq!(folder.entries()[uid].uid, uid);
        assert!(folder.entries()[uid].data.is_none());
        assert_eq!(folder.entries()[uid].meta.t_flag, 4);
    }
    // the later row of the two has the place
    assert!(matches!(folder.entries()[4].data, Some(AnyAsset::Midi(_))));
    assert_eq!(folder.entries()[4].meta, AssetMeta { offset: 0, c_flag: false, t_flag: 7 });
    assert_eq!(folder.payloads()[4], vec![2, 3]);
}

#[test]
fn manifest_with_a_file_that_is_no_asset_leaves_the_folder() {
    let manifest = Manifest {
        tbl_len: 1,
        files: vec![ManifestRow {
            uid: 0,
            kind: String::from("Nothing"),
            compressed: false,
            flags: 2,
            relative_path: String::from("x"),
        }],
    };
    let mut folder = AssetFolder::new();
    assert!(matches!(folder.read(&manifest, &vec![vec![1]]), Err(AssetError::CodecError)));
    assert_eq!(folder.entries().len(), 0);
    assert!(matches!(folder.read(&manifest, &Vec::new()), Err(AssetError::FormatError)));
}

#[test]
fn two_folders_of_one_archive_have_one_manifest() {
    assert_eq!(small_folder().manifest(), small_folder().manifest());
}

#[test]
fn archive_without_compression_is_read_in_one_step() {
    let folder = AssetFolder::from_bytes(&small_archive()).unwrap();
    assert_eq!(folder.manifest(), small_folder().manifest());
    assert_eq!(folder.payloads(), small_folder().payloads());
}

#[test]
fn archive_with_a_compressed_payload_is_not_read_in_one_step() {
    let mut file = vec![0, 0, 0, 2, 0xFF, 0xFF, 0xFF, 0xFF];
    file.extend(slot(0, true, 2));
    file.extend(slot(2, false, 4));
    file.extend_from_slice(&[0x11, 0x72]);
    assert!(matches!(AssetFolder::from_bytes(&file), Err(AssetError::CompressionError)));
    // an empty slot that says compressed has nothing to unpack
    let mut file = vec![0, 0, 0, 2, 0xFF, 0xFF, 0xFF, 0xFF];
    file.extend(slot(0, true, 4));
    file.extend(slot(0, false, 4));
    assert!(AssetFolder::from_bytes(&file).is_ok());
    assert!(matches!(AssetFolder::from_bytes(&file[..20]), Err(AssetError::FormatError)));
    let mut file = vec![0, 0, 0, 2, 0xFF, 0xFF, 0xFF, 0xFF];
    file.extend(slot(0, false, 3));
    file.extend(slot(2, false, 4));
    file.extend_from_slice(&[0x00, 0x01]);
    assert!(matches!(AssetFolder::from_bytes(&file), Err(AssetError::CodecError)));
}

#[test]
fn folder_is_written_as_its_manifest_and_the_files_of_its_assets() {
    let folder = small_folder();
    let files = folder.write().unwrap();
    let paths: Vec<&str> = files.iter().map(|f| f.path.as_str()).collect();
    assert_eq!(
        paths,
        vec!["assets.yaml", "anim/0000.anim.bin", "model/0002.model.bin", "bin/0003.bin", "lvl_setup/0004.lvl_setup.bin"]
    );
    assert_eq!(files[0].bytes, folder.manifest().into_bytes());
    assert_eq!(files[1].bytes, vec![1, 2, 3]);
    assert_eq!(files[3].bytes, vec![0x00, 0x01, 0x12, 0x34]);
}

#[test]
fn sprite_is_written_with_its_descriptor_and_frames() {
    // a sprite of one frame of one I8 pixel, in segment 1
    let mut sprite = vec![0x00, 0x01, 0x00, 0x40];
    sprite.extend_from_slice(&[0; 12]);
    sprite.extend_from_slice(&[0, 0, 0, 0]);
    sprite.extend_from_slice(&[0, 0, 0, 0, 0, 1, 0, 1, 0, 1]);
    sprite.extend_from_slice(&[0; 10]);
    sprite.extend_from_slice(&[0, 0, 0, 0, 0, 1, 0, 1]);
    sprite.push(0x80);
    let slots = vec![
        StoredAsset { meta: AssetMeta { offset: 0, c_flag: false, t_flag: 3 }, bytes: sprite.clone() },
    ];
    let folder = AssetFolder::from_slots(&slots).unwrap();
    let files = folder.write().unwrap();
    let paths: Vec<&str> = files.iter().map(|f| f.path.as_str()).collect();
    assert_eq!(
        paths,
        vec!["assets.yaml", "sprite/0000.sprite.i8.bin", "sprite/0000.sprite.yaml", "sprite/0000/00.i8.png"]
    );
    assert_eq!(files[1].bytes, sprite);
    assert_eq!(
        String::from_utf8(files[2].bytes.clone()).unwrap(),
        "type: Sprite\nformat: I8\nframes:\n  - \"sprite/0000/00.i8.png\"\n"
    );
    assert_eq!(files[3].bytes[..4].to_vec(), vec![0x89, b'P', b'N', b'G']);
    assert_eq!(
        String::from_utf8(files[0].bytes.clone()).unwrap(),
        "tbl_len: 0x2\nfiles:\n  - {uid: 0x0000, type: Sprite_I8, compressed: false, flags: 0x0003, relative_path: \"sprite/0000.sprite.i8.bin\"}\n"
    );
}

#[test]
fn sprite_with_a_frame_without_pixels_is_not_written() {
    let mut sprite = vec![0x00, 0x01, 0x00, 0x40];
    sprite.extend_from_slice(&[0; 12]);
    sprite.extend_from_slice(&[0, 0, 0, 0]);
    sprite.extend_from_slice(&[0; 20]);
    let slots = vec![StoredAsset { meta: AssetMeta { offset: 0, c_flag: false, t_flag: 3 }, bytes: sprite }];
    let folder = AssetFolder::from_slots(&slots).unwrap();
    assert!(matches!(folder.write(), Err(AssetError::CodecError)));
}

#[test]
fn only_payloads_of_slots_that_say_so_are_packed() {
    let packed = StoredAsset { meta: AssetMeta { offset: 0, c_flag: true, t_flag: 2 }, bytes: vec![1] };
    let plain = StoredAsset { meta: AssetMeta { offset: 0, c_flag: false, t_flag: 2 }, bytes: vec![1] };
    let empty = StoredAsset { meta: AssetMeta { offset: 0, c_flag: true, t_flag: 4 }, bytes: vec![] };
    assert!(packed.is_packed());
    assert!(!plain.is_packed());
    assert!(!empty.is_packed());
    let folder = AssetFolder::from_slots(&vec![packed, plain, empty]).unwrap();
    let flags: Vec<bool> = folder.entries().iter().map(|e| e.is_packed()).collect();
    assert_eq!(flags, vec![true, false, false]);
}
