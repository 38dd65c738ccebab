use bk_assets::asset::Asset;
use bk_assets::demo::{ContInput, DemoButtonFile};
use bk_assets::error::AssetError;

#[test]
fn demo_of_two_records() {
    let payload = [
        0x00, 0x00, 0x00, 0x0C, // twelve bytes of records
        0x05, 0xFB, 0x80, 0x01, 0x03, 0x7A, // the last byte is the flag
        0x80, 0x7F, 0x00, 0x10, 0xFF, 0x00,
    ];
    let demo = DemoButtonFile::from_bytes(&payload).unwrap();
    assert_eq!(demo.frame1_flag(), 0x7A);
    assert_eq!(
        demo.inputs().clone(),
        vec![
            ContInput { x: 5, y: -5, buttons: 0x8001, frames: 3 },
            ContInput { x: -128, y: 127, buttons: 0x0010, frames: 255 },
        ]
    );
    assert_eq!(demo.to_bytes(), payload.to_vec());
    assert!(demo.to_yaml().starts_with("type: DemoInput\nflag: 0x7A\ninputs:\n"));
}

#[test]
fn demo_of_fewer_than_four_bytes_is_empty() {
    let demo = DemoButtonFile::from_bytes(&[0x01, 0x02, 0x03]).unwrap();
    assert_eq!(demo.frame1_flag(), 0);
    assert_eq!(demo.inputs().len(), 0);
    assert_eq!(demo.to_bytes(), Vec::<u8>::new());
    assert_eq!(DemoButtonFile::from_bytes(&[0x00, 0x00]).unwrap().to_bytes(), Vec::<u8>::new());
    assert_eq!(DemoButtonFile::from_bytes(&[]).unwrap().to_bytes(), Vec::<u8>::new());
}

#[test]
fn demo_with_a_wrong_length_is_refused() {
    let payload = [0x00, 0x00, 0x00, 0x06, 0, 0, 0, 0, 0, 0, 0, 0, 0, 0, 0, 0];
    assert!(matches!(DemoButtonFile::from_bytes(&payload), Err(AssetError::CodecError)));
}

#[test]
fn demo_without_its_first_record_is_refused() {
    assert!(matches!(DemoButtonFile::from_bytes(&[0, 0, 0, 0]), Err(AssetError::CodecError)));
    assert!(matches!(DemoButtonFile::from_bytes(&[0, 0, 0, 0, 1, 2, 3, 4, 5]), Err(AssetError::CodecError)));
}

#[test]
fn demo_counts_whole_records_only() {
    // one whole record and three bytes more: the length names the one record
    let payload = [0x00, 0x00, 0x00, 0x06, 1, 2, 0, 3, 4, 9, 7, 7, 7];
    let demo = DemoButtonFile::from_bytes(&payload).unwrap();
    assert_eq!(demo.inputs().clone(), vec![ContInput { x: 1, y: 2, buttons: 3, frames: 4 }]);
    assert_eq!(demo.frame1_flag(), 9);
    assert_eq!(demo.to_bytes(), payload.to_vec());
    let made = DemoButtonFile::new(demo.inputs().clone(), demo.frame1_flag()).unwrap();
    assert_eq!(made.to_bytes(), payload[..10].to_vec());
}

#[test]
fn demo_made_of_samples_ends_each_record_but_the_first_in_zero() {
    let payload = [
        0x00, 0x00, 0x00, 0x0C, // twelve bytes of records
        1, 2, 0, 3, 4, 0x7A, 5, 6, 0, 7, 8, 0x55,
    ];
    let read = DemoButtonFile::from_bytes(&payload).unwrap();
    assert_eq!(read.to_bytes(), payload.to_vec());
    let made = DemoButtonFile::new(read.inputs().clone(), read.frame1_flag()).unwrap();
    let mut expected = payload.to_vec();
    expected[15] = 0;
    assert_eq!(made.to_bytes(), expected);
}

#[test]
fn sample_record() {
    let input = ContInput { x: -1, y: 1, buttons: 0x1234, frames: 9 };
    assert_eq!(input.to_bytes(), vec![0xFF, 0x01, 0x12, 0x34, 0x09, 0x00]);
}

#[test]
fn demo_is_read_as_it_was_stored() {
    let inputs = vec![
        ContInput { x: 0, y: -128, buttons: 0xFFFF, frames: 0 },
        ContInput { x: 127, y: 0, buttons: 0, frames: 1 },
        ContInput { x: -7, y: 7, buttons: 0x0100, frames: 200 },
    ];
    let demo = DemoButtonFile::new(inputs.clone(), 0x33).unwrap();
    let bytes = demo.to_bytes();
    assert_eq!(bytes.len(), 4 + 18);
    assert_eq!(bytes[..4].to_vec(), vec![0, 0, 0, 18]);
    assert_eq!(bytes[9], 0x33);
    assert_eq!(bytes[15], 0);
    let again = DemoButtonFile::from_bytes(&bytes).unwrap();
    assert_eq!(again.inputs().clone(), inputs);
    assert_eq!(again.frame1_flag(), 0x33);
}

#[test]
fn empty_demo_is_stored_as_nothing() {
    let demo = DemoButtonFile::new(Vec::new(), 0x55).unwrap();
    assert_eq!(demo.to_bytes(), Vec::<u8>::new());
}

#[test]
fn demo_text() {
    let demo = DemoButtonFile::new(
        vec![
            ContInput { x: 5, y: -5, buttons: 0x8001, frames: 3 },
            ContInput { x: -128, y: 127, buttons: 0x0010, frames: 255 },
            ContInput { x: 10, y: -10, buttons: 0, frames: 0 },
        ],
        0x0A,
    )
    .unwrap();
    assert_eq!(
        demo.to_yaml(),
        "type: DemoInput\nflag: 0x0A\ninputs:\n  - {x:   5, y:  -5, buttons: 0x8001, frames: 3}\n  - {x: -128, y: 127, buttons: 0x0010, frames: 255}\n  - {x:  10, y: -10, buttons: 0x0000, frames: 0}\n"
    );
    assert_eq!(demo.write(), demo.to_yaml().into_bytes());
}

#[test]
fn empty_demo_text() {
    let demo = DemoButtonFile::new(Vec::new(), 0xFF).unwrap();
    assert_eq!(demo.to_yaml(), "type: DemoInput\nflag: 0xFF\ninputs: []\n");
    let again = DemoButtonFile::read(&demo.to_yaml()).unwrap();
    assert_eq!(again.frame1_flag(), 0xFF);
    assert_eq!(again.inputs().len(), 0);
}

#[test]
fn demo_is_read_from_its_text() {
    let inputs = vec![
        ContInput { x: 5, y: -5, buttons: 0x8001, frames: 3 },
        ContInput { x: -128, y: 127, buttons: 0x0010, frames: 255 },
    ];
    let demo = DemoButtonFile::new(inputs.clone(), 0x7A).unwrap();
    let again = DemoButtonFile::read(&demo.to_yaml()).unwrap();
    assert_eq!(again.inputs().clone(), inputs);
    assert_eq!(again.frame1_flag(), 0x7A);
    assert_eq!(again.to_bytes(), demo.to_bytes());
}

#[test]
fn demo_text_out_of_range_is_refused() {
    assert!(matches!(
        DemoButtonFile::read("type: DemoInput\nflag: 0\ninputs:\n  - {x: 128, y: 0, buttons: 0, frames: 0}\n"),
        Err(AssetError::CodecError)
    ));
    assert!(matches!(
        DemoButtonFile::read("type: DemoInput\nflag: 256\ninputs: []\n"),
        Err(AssetError::CodecError)
    ));
    assert!(matches!(
        DemoButtonFile::read("type: DemoInput\nflag: 0\ninputs:\n  - {x: 0, y: 0, buttons: 65536, frames: 0}\n"),
        Err(AssetError::CodecError)
    ));
    assert!(matches!(
        DemoButtonFile::read("type: Dialog\nflag: 0\ninputs: []\n"),
        Err(AssetError::CodecError)
    ));
    assert!(matches!(DemoButtonFile::read("type: DemoInput\ninputs: []\n"), Err(AssetError::CodecError)));
}
