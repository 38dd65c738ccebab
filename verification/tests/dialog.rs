use bk_assets::asset::Asset;
use bk_assets::dialog::Dialog;
use bk_assets::question::{GruntyQuestion, QuizQuestion};
use bk_assets::strings::BKString;
use bk_assets::error::AssetError;

fn string(cmd: u8, bytes: &[u8]) -> BKString {
    BKString { cmd, string: bytes.to_vec() }
}

#[test]
fn dialog_payload_with_one_bottom_entry() {
    let payload = [0x01, 0x03, 0x00, 0x01, 0x04, 0x02, 0x48, 0x49, 0x00, 0x01];
    let dialog = Dialog::from_bytes(&payload).unwrap();
    assert_eq!(dialog.bottom().len(), 1);
    assert_eq!(dialog.bottom()[0].cmd, 0x04);
    assert_eq!(dialog.bottom()[0].string, vec![0x48, 0x49]);
    assert_eq!(dialog.top().len(), 0);
    assert_eq!(dialog.to_bytes(), payload.to_vec());
    assert_eq!(dialog.to_yaml(), "type: Dialog\nbottom:\n  - { cmd: 0x04, string: \"H\"}\ntop:\n");
}

#[test]
fn dialog_made_of_its_strings_has_no_byte_behind_it() {
    let payload = [0x01, 0x03, 0x00, 0x01, 0x04, 0x02, 0x48, 0x49, 0x00, 0x01];
    let read = Dialog::from_bytes(&payload).unwrap();
    let made = Dialog::new(read.bottom().clone(), read.top().clone()).unwrap();
    // the dialog ends behind the count of the upper list
    assert_eq!(made.to_bytes(), payload[..9].to_vec());
}

#[test]
fn dialog_is_stored_as_it_was_read() {
    let payload = [
        0x01, 0x03, 0x00, 0x02, 0x80, 0x03, 0x48, 0x49, 0x00, 0x04, 0x00, 0x01, 0x05, 0x01, 0x00,
    ];
    let dialog = Dialog::from_bytes(&payload).unwrap();
    assert_eq!(dialog.bottom().len(), 2);
    assert_eq!(dialog.bottom()[1].cmd, 0x04);
    assert_eq!(dialog.bottom()[1].string, Vec::<u8>::new());
    assert_eq!(dialog.top().len(), 1);
    assert_eq!(dialog.top()[0].cmd, 0x05);
    assert_eq!(dialog.to_bytes(), payload.to_vec());
}

#[test]
fn dialog_is_read_as_it_was_stored() {
    let dialog = Dialog::new(vec![string(1, b"ab\0"), string(2, b"\0")], vec![string(3, b"xyz\0")]).unwrap();
    let again = Dialog::from_bytes(&dialog.to_bytes()).unwrap();
    assert_eq!(again.bottom().len(), 2);
    assert_eq!(again.bottom()[0].cmd, 1);
    assert_eq!(again.bottom()[0].string, b"ab\0".to_vec());
    assert_eq!(again.bottom()[1].string, b"\0".to_vec());
    assert_eq!(again.top()[0].cmd, 3);
    assert_eq!(again.top()[0].string, b"xyz\0".to_vec());
}

#[test]
fn dialog_with_another_prefix_is_refused() {
    assert!(matches!(Dialog::from_bytes(&[0x01, 0x01, 0x02, 0x00, 0x00]), Err(AssetError::CodecError)));
    assert!(matches!(Dialog::from_bytes(&[0x01, 0x03]), Err(AssetError::CodecError)));
}

#[test]
fn dialog_that_ends_early_is_refused() {
    // the record announces three bytes and has two
    assert!(matches!(
        Dialog::from_bytes(&[0x01, 0x03, 0x00, 0x01, 0x04, 0x03, 0x48, 0x49]),
        Err(AssetError::CodecError)
    ));
    // the count of the upper list is missing
    assert!(matches!(
        Dialog::from_bytes(&[0x01, 0x03, 0x00, 0x01, 0x04, 0x02, 0x48, 0x49]),
        Err(AssetError::CodecError)
    ));
    assert!(matches!(Dialog::from_bytes(&[0x01, 0x03, 0x00]), Err(AssetError::CodecError)));
}

#[test]
fn dialog_of_too_many_or_too_long_strings_is_refused() {
    let mut many = Vec::new();
    for _ in 0..256 {
        many.push(string(0, b"\0"));
    }
    assert!(matches!(Dialog::new(many, Vec::new()), Err(AssetError::CodecError)));
    let long = string(0, &[0x41; 256]);
    assert!(matches!(Dialog::new(Vec::new(), vec![long]), Err(AssetError::CodecError)));
    let fits = string(0, &[0x41; 255]);
    assert!(Dialog::new(Vec::new(), vec![fits]).is_ok());
}

#[test]
fn dialog_text() {
    let dialog = Dialog::new(vec![string(0x04, b"HI\0"), string(0xAB, &[0xFD, 0x0A, 0x00])], Vec::new()).unwrap();
    assert_eq!(
        dialog.to_yaml(),
        "type: Dialog\nbottom:\n  - { cmd: 0x04, string: \"HI\"}\n  - { cmd: 0xAB, string: \"\\xFD\\x0A\"}\ntop:\n"
    );
    assert_eq!(dialog.write(), dialog.to_yaml().into_bytes());
}

#[test]
fn dialog_is_read_from_its_text() {
    let dialog = Dialog::new(
        vec![string(0x04, b"HI\0"), string(0xAB, &[0xFD, 0x0A, 0x00])],
        vec![string(0x00, b"Bear and bird\0")],
    )
    .unwrap();
    let again = Dialog::read(&dialog.to_yaml()).unwrap();
    assert_eq!(again.to_bytes(), dialog.to_bytes());
    assert_eq!(again.bottom()[1].string, vec![0xFD, 0x0A, 0x00]);
}

#[test]
fn dialog_text_with_an_empty_list_is_read() {
    let dialog = Dialog::read("type: Dialog\nbottom:\n  - { cmd: 0x04, string: \"HI\"}\ntop:\n").unwrap();
    assert_eq!(dialog.bottom().len(), 1);
    assert_eq!(dialog.bottom()[0].cmd, 4);
    assert_eq!(dialog.bottom()[0].string, b"HI\0".to_vec());
    assert_eq!(dialog.top().len(), 0);
}

#[test]
fn dialog_text_of_another_kind_is_refused() {
    assert!(matches!(
        Dialog::read("type: QuizQuestion\nbottom: []\ntop: []\n"),
        Err(AssetError::CodecError)
    ));
    assert!(matches!(Dialog::read("type: Dialog\nbottom: []\n"), Err(AssetError::CodecError)));
    assert!(matches!(
        Dialog::read("type: Dialog\nbottom:\n  - { cmd: 256, string: \"x\"}\ntop: []\n"),
        Err(AssetError::CodecError)
    ));
    assert!(matches!(
        Dialog::read("type: Dialog\nbottom:\n  - { cmd: 1 }\ntop: []\n"),
        Err(AssetError::CodecError)
    ));
    assert!(matches!(Dialog::read("type: [unclosed"), Err(AssetError::CodecError)));
    assert!(matches!(Dialog::read(""), Err(AssetError::CodecError)));
}

#[test]
fn quiz_question_of_four_records() {
    let payload = [
        0x01, 0x01, 0x02, 0x05, 0x00, 0x04, // prefix and count
        0x80, 0x02, 0x51, 0x00, // the question
        0x81, 0x02, 0x41, 0x00, // three options
        0x82, 0x02, 0x42, 0x00, 0x83, 0x02, 0x43, 0x00,
    ];
    let question = QuizQuestion::from_bytes(&payload).unwrap();
    assert_eq!(question.question().len(), 1);
    assert_eq!(question.question()[0].cmd, 0x80);
    assert_eq!(question.question()[0].string, b"Q\0".to_vec());
    assert_eq!(question.options().len(), 3);
    assert_eq!(question.options()[0].string, b"A\0".to_vec());
    assert_eq!(question.options()[1].string, b"B\0".to_vec());
    assert_eq!(question.options()[2].cmd, 0x83);
    assert_eq!(question.to_bytes(), payload.to_vec());
}

#[test]
fn quiz_question_with_fewer_than_three_records_is_refused() {
    let payload = [0x01, 0x01, 0x02, 0x05, 0x00, 0x02, 0x80, 0x00, 0x81, 0x00];
    assert!(matches!(QuizQuestion::from_bytes(&payload), Err(AssetError::CodecError)));
}

#[test]
fn quiz_question_with_grunty_prefix_is_refused() {
    let payload = [0x01, 0x03, 0x00, 0x05, 0x00, 0x03, 0x80, 0x00, 0x81, 0x00, 0x82, 0x00];
    assert!(matches!(QuizQuestion::from_bytes(&payload), Err(AssetError::CodecError)));
    assert!(GruntyQuestion::from_bytes(&payload).is_ok());
}

#[test]
fn grunty_question_is_stored_behind_its_prefix() {
    let question = GruntyQuestion::new(
        vec![string(1, b"why\0")],
        [string(2, b"a\0"), string(3, b"b\0"), string(4, b"c\0")],
    )
    .unwrap();
    let bytes = question.to_bytes();
    assert_eq!(bytes[..6].to_vec(), vec![0x01, 0x03, 0x00, 0x05, 0x00, 0x04]);
    let again = GruntyQuestion::from_bytes(&bytes).unwrap();
    assert_eq!(again.question()[0].string, b"why\0".to_vec());
    assert_eq!(again.options()[2].string, b"c\0".to_vec());
}

#[test]
fn question_text() {
    let question = QuizQuestion::new(
        vec![string(0x80, b"Q\0")],
        [string(0x81, b"A\0"), string(0x82, b"B\0"), string(0x83, b"C\0")],
    )
    .unwrap();
    assert_eq!(
        question.to_yaml(),
        "type: QuizQuestion\nquestion:\n  - { cmd: 0x80, string: \"Q\"}\noptions:\n  - { cmd: 0x81, string: \"A\"}\n  - { cmd: 0x82, string: \"B\"}\n  - { cmd: 0x83, string: \"C\"}\n"
    );
    let again = QuizQuestion::read(&question.to_yaml()).unwrap();
    assert_eq!(again.to_bytes(), question.to_bytes());
    assert!(matches!(GruntyQuestion::read(&question.to_yaml()), Err(AssetError::CodecError)));
}

#[test]
fn question_text_with_two_options_is_refused() {
    let text = "type: GruntyQuestion\nquestion: []\noptions:\n  - { cmd: 1, string: \"a\"}\n  - { cmd: 2, string: \"b\"}\n";
    assert!(matches!(GruntyQuestion::read(text), Err(AssetError::CodecError)));
}

#[test]
fn question_of_too_many_strings_is_refused() {
    let mut many = Vec::new();
    for _ in 0..253 {
        many.push(string(0, b"\0"));
    }
    let options = [string(0, b"\0"), string(0, b"\0"), string(0, b"\0")];
    assert!(matches!(QuizQuestion::new(many, options), Err(AssetError::CodecError)));
}
