use bk_assets::error::AssetError;
use bk_assets::yaml::{load_document, Node};

#[test]
fn document_is_a_tree_of_plain_values() {
    let doc = load_document("n: 0x10\nm: -3\nb: true\ns: some text\nl: [1, two]\ne:\nr: 1.5\n").unwrap();
    assert_eq!(doc.get_int("n"), Some(16));
    assert_eq!(doc.get_int("m"), Some(-3));
    assert_eq!(doc.get_bool("b"), Some(true));
    assert_eq!(doc.get_text("s").map(|s| s.as_str()), Some("some text"));
    let list = doc.get_list("l").unwrap();
    assert_eq!(list.len(), 2);
    assert!(matches!(list[0], Node::Integer(1)));
    assert!(matches!(&list[1], Node::Text(s) if s == "two"));
    assert!(matches!(doc.get("e"), Some(Node::Null)));
    assert_eq!(doc.get_list("e").map(|l| l.len()), Some(0));
    assert!(matches!(doc.get("r"), Some(Node::Real(s)) if s == "1.5"));
    assert!(doc.get("missing").is_none());
}

#[test]
fn fields_of_another_type_are_not_found() {
    let doc = load_document("n: 0x10\ns: text\n").unwrap();
    assert_eq!(doc.get_int("s"), None);
    assert_eq!(doc.get_bool("n"), None);
    assert!(doc.get_text("n").is_none());
    assert!(doc.get_list("n").is_none());
    assert!(Node::Integer(3).get("n").is_none());
}

#[test]
fn pairs_come_in_the_order_of_the_document() {
    let doc = load_document("{b: 1, a: 2, c: 3}").unwrap();
    match doc {
        Node::Hash(pairs) => {
            let keys: Vec<String> = pairs
                .iter()
                .map(|(k, _)| match k {
                    Node::Text(s) => s.clone(),
                    _ => String::new(),
                })
                .collect();
            assert_eq!(keys, vec!["b", "a", "c"]);
        }
        _ => panic!("the document is a mapping"),
    }
}

#[test]
fn only_the_first_document_is_read() {
    let doc = load_document("a: 1\n---\na: 2\n").unwrap();
    assert_eq!(doc.get_int("a"), Some(1));
}

#[test]
fn text_that_is_no_yaml_is_refused() {
    assert!(matches!(load_document("a: [1, 2"), Err(AssetError::CodecError)));
    assert!(matches!(load_document(""), Err(AssetError::CodecError)));
}

#[test]
fn escapes_in_quoted_text_are_taken_for_their_characters() {
    let doc = load_document("s: \"a\\x41\\xFD\"\n").unwrap();
    assert_eq!(doc.get_text("s").map(|s| s.as_str()), Some("aA\u{FD}"));
}

fn repeated(piece: &str, n: usize) -> String {
    let mut text = String::new();
    for _ in 0..n {
        text.push_str(piece);
    }
    text
}

#[test]
fn line_that_begins_with_too_many_indicators_is_refused() {
    // sixteen sequences one inside another fill the thirty-two characters
    let text = repeated("- ", 16) + "x\n";
    assert!(load_document(&text).is_ok());
    let text = repeated("- ", 17) + "x\n";
    assert!(matches!(load_document(&text), Err(AssetError::CodecError)));
    let text = repeated("- ", 20000) + "x\n";
    assert!(matches!(load_document(&text), Err(AssetError::CodecError)));
    let text = repeated("? ", 20000) + "x\n";
    assert!(matches!(load_document(&text), Err(AssetError::CodecError)));
    let text = String::from("a\n") + &repeated(" ", 33) + "b\n";
    assert!(matches!(load_document(&text), Err(AssetError::CodecError)));
    let text = String::from("a:\n") + &repeated("\t", 40) + "- b\n";
    assert!(matches!(load_document(&text), Err(AssetError::CodecError)));
}

#[test]
fn indentation_that_grows_line_by_line_is_refused_beyond_the_bound() {
    let mut text = String::new();
    for depth in 0..5000 {
        text.push_str(&repeated(" ", depth));
        text.push_str("a:\n");
    }
    assert!(matches!(load_document(&text), Err(AssetError::CodecError)));
    let mut text = String::new();
    for depth in 0..30 {
        text.push_str(&repeated(" ", depth));
        text.push_str("a:\n");
    }
    assert!(load_document(&text).is_ok());
}

#[test]
fn indicators_behind_other_text_open_nothing() {
    // behind a comma outside a flow collection the text is given up
    let text = String::from("\"x\" , ") + &repeated("- ", 20000) + "y\n";
    assert!(matches!(load_document(&text), Err(AssetError::CodecError)));
    let text = String::from("\"x\" , ") + &repeated("? ", 20000) + "y\n";
    assert!(matches!(load_document(&text), Err(AssetError::CodecError)));
    let text = String::from("{a: b}, ") + &repeated("- ", 20000) + "y\n";
    assert!(matches!(load_document(&text), Err(AssetError::CodecError)));
    let text = String::from("- 'x' , ") + &repeated("- ", 20000) + "y\n";
    assert!(matches!(load_document(&text), Err(AssetError::CodecError)));
    let text = String::from("!t ") + &repeated("- ", 20000) + "y\n";
    assert!(matches!(load_document(&text), Err(AssetError::CodecError)));
    // inside a text, quoted or plain, they are text
    let text = String::from("s: \"") + &repeated("- ", 20000) + "\"\n";
    assert!(load_document(&text).is_ok());
    let text = String::from("s: x , ") + &repeated("- ", 20000) + "\n";
    assert!(load_document(&text).is_ok());
}

#[test]
fn texts_that_go_on_over_lines_do_not_add_up() {
    let mut text = String::from("- ");
    for _ in 0..3000 {
        text.push_str("\"a\n b\" , - - - - - - - - ");
    }
    text.push_str("x\n");
    assert!(matches!(load_document(&text), Err(AssetError::CodecError)));
    let mut text = String::new();
    for _ in 0..3000 {
        text.push_str("a\n        ");
        text.push_str(": - - - - - - - - ");
    }
    text.push_str("x\n");
    assert!(load_document(&text).is_err());
}

#[test]
fn flow_collections_nest_as_far_as_the_reader_counts() {
    let text = repeated("- ", 16) + &repeated("[a: ", 254) + "x" + &repeated("]", 254) + "\n";
    assert!(load_document(&text).is_ok());
    let text = repeated("[", 20000) + &repeated("]", 20000) + "\n";
    assert!(matches!(load_document(&text), Err(AssetError::CodecError)));
    let text = repeated("[\n", 20000);
    assert!(matches!(load_document(&text), Err(AssetError::CodecError)));
    let text = repeated("{a: ", 20000);
    assert!(matches!(load_document(&text), Err(AssetError::CodecError)));
}

#[test]
fn anchors_and_aliases_are_refused() {
    assert!(matches!(load_document("a: &x 1\nb: *x\n"), Err(AssetError::CodecError)));
    let mut text = String::from("- &a0 [1]\n");
    for i in 1..20000 {
        text.push_str(&format!("- &a{} [*a{}]\n", i, i - 1));
    }
    assert!(matches!(load_document(&text), Err(AssetError::CodecError)));
    // a sign that no name follows is text
    let doc = load_document("s: \"Bear & Bird * \"\n").unwrap();
    assert_eq!(doc.get_text("s").map(|s| s.as_str()), Some("Bear & Bird * "));
    assert!(matches!(load_document("s: \"R&B\"\n"), Err(AssetError::CodecError)));
}

#[test]
fn carriage_return_without_line_feed_is_refused() {
    assert!(matches!(load_document("a: 1\rb: 2\n"), Err(AssetError::CodecError)));
    let text = String::from("x:\r") + &repeated("- - - -\r", 5000) + "y\n";
    assert!(matches!(load_document(&text), Err(AssetError::CodecError)));
    let doc = load_document("a: 1\r\nb: 2\r\n").unwrap();
    assert_eq!(doc.get_int("b"), Some(2));
}
