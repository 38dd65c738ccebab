use bk_assets::text::{string_to_vecu8, vecu8_to_string};

#[test]
fn shown_text_drops_the_last_byte() {
    assert_eq!(vecu8_to_string(&vec![0x48, 0x49, 0x00]), "HI");
}

#[test]
fn shown_text_of_two_bytes_is_the_first() {
    assert_eq!(vecu8_to_string(&vec![0x48, 0x49]), "H");
}

#[test]
fn shown_text_of_nothing_is_empty() {
    assert_eq!(vecu8_to_string(&vec![]), "");
    assert_eq!(vecu8_to_string(&vec![0x41]), "");
}

#[test]
fn shown_text_escapes_what_is_not_printable() {
    assert_eq!(vecu8_to_string(&vec![0x1F, 0x20, 0x7E, 0x7F, 0xFD, 0x0A, 0x00]), "\\x1F ~\\x7F\\xFD\\x0A");
}

#[test]
fn stored_text_ends_in_zero() {
    assert_eq!(string_to_vecu8("HI"), vec![0x48, 0x49, 0x00]);
    assert_eq!(string_to_vecu8(""), vec![0x00]);
}

#[test]
fn stored_text_collapses_the_squiggle() {
    assert_eq!(string_to_vecu8("\u{FD}"), vec![0xFD, 0x00]);
    assert_eq!(string_to_vecu8("a\u{FD}\u{FD}b"), vec![0x61, 0xFD, 0xFD, 0x62, 0x00]);
}

#[test]
fn stored_text_keeps_other_utf8_as_it_is() {
    assert_eq!(string_to_vecu8("\u{E9}"), vec![0xC3, 0xA9, 0x00]);
    assert_eq!(string_to_vecu8("\u{80}"), vec![0xC2, 0x80, 0x00]);
}

#[test]
fn printable_text_is_stored_and_shown_as_itself() {
    let text = "Hello, \\x41 world! ~";
    assert_eq!(vecu8_to_string(&string_to_vecu8(text)), text);
}
