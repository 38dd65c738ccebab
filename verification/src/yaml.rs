//! YAML documents as trees of plain values.

use vstd::prelude::*;
use vstd::string::StringExecFns;
use vstd::utf8::encode_utf8;
use crate::error::AssetError;

verus! {

/// The error with which yaml-rust gives up on a text.
#[verifier::external_type_specification]
#[verifier::external_body]
pub struct ExScanError(yaml_rust::ScanError);

/// The tree of a YAML document as yaml-rust builds it.
#[verifier::external_type_specification]
#[verifier::external_body]
pub struct ExYaml(yaml_rust::Yaml);

/// A node of a YAML document.
pub enum Node {
    /// A number with a fraction, kept as it was written.
    Real(String),
    /// A whole number.
    Integer(i64),
    /// A text.
    Text(String),
    /// `true` or `false`.
    Boolean(bool),
    /// A sequence of nodes.
    Array(Vec<Node>),
    /// A mapping, as its pairs of key and value in the order of the document.
    Hash(Vec<(Node, Node)>),
    /// A reference to an anchor.
    Alias(usize),
    /// Nothing, as after a key without a value.
    Null,
    /// What could not be read as any of the others.
    BadValue,
}

/// How many characters of indentation and of the indicators `-`, `?` and
/// `:` a line may begin with.
pub const MAX_LEAD: usize = 32;

/// How many sequences and mappings stand one inside another, at most, in a
/// document that is read.
pub const MAX_DEPTH: usize = 576;

/// Whether a line may begin with `c` and go on nesting: a blank, or one of
/// the indicators `-`, `?` and `:`.
pub open spec fn is_lead_byte(c: u8) -> bool {
    c == 0x20 || c == 0x09 || c == 0x2D || c == 0x3F || c == 0x3A
}

/// Whether a name of an anchor can begin with `c`: a letter, a digit, `_`
/// or `-`.
pub open spec fn is_name_byte(c: u8) -> bool {
    ||| 0x30 <= c <= 0x39
    ||| 0x41 <= c <= 0x5A
    ||| 0x61 <= c <= 0x7A
    ||| c == 0x5F
    ||| c == 0x2D
}

/// Whether a line begins at `p`: at the start of the text, or behind a
/// line feed.
pub open spec fn is_line_start(b: Seq<u8>, p: int) -> bool {
    0 <= p <= b.len() && (p == 0 || b[p - 1] == 0x0A)
}

/// Whether the `n` bytes from `p` on are all bytes that a line may begin
/// with and go on nesting.
pub open spec fn is_lead_run(b: Seq<u8>, p: int, n: int) -> bool {
    p + n <= b.len() && forall|k: int| p <= k < p + n ==> is_lead_byte(#[trigger] b[k])
}

/// Whether no line of the text begins with more than [`MAX_LEAD`] blanks
/// and indicators.
pub open spec fn nests_little(b: Seq<u8>) -> bool {
    forall|p: int| #[trigger] is_line_start(b, p) ==> !is_lead_run(b, p, MAX_LEAD + 1)
}

/// Whether an anchor or an alias can stand at `i`: a `&` or a `*` with the
/// first character of a name behind it.
pub open spec fn names_anchor(b: Seq<u8>, i: int) -> bool {
    0 <= i && i + 1 < b.len() && (b[i] == 0x26 || b[i] == 0x2A) && is_name_byte(b[i + 1])
}

/// Whether a carriage return stands at `i` without a line feed behind it.
pub open spec fn is_bare_return(b: Seq<u8>, i: int) -> bool {
    0 <= i < b.len() && b[i] == 0x0D && !(i + 1 < b.len() && b[i + 1] == 0x0A)
}

/// Whether the text, given as UTF-8, can be handed to the YAML reader: no
/// line of it begins with more than [`MAX_LEAD`] blanks and indicators,
/// nowhere in it can an anchor or an alias stand, and its lines end in a
/// line feed, with or without a carriage return before it.
pub open spec fn is_tame(b: Seq<u8>) -> bool {
    &&& nests_little(b)
    &&& forall|i: int| !#[trigger] names_anchor(b, i)
    &&& forall|i: int| !#[trigger] is_bare_return(b, i)
}

/// Whether no line of the text begins with more than [`MAX_LEAD`] blanks
/// and indicators.
pub fn check_nesting(b: &[u8]) -> (r: bool)
    ensures
        r == nests_little(b@),
{
    let mut i: usize = 0;
    let mut run: usize = 0;
    let mut in_lead: bool = true;
    let ghost mut start: int = 0;
    let ghost mut stop: int = 0;
    while i < b.len()
        invariant
            0 <= start <= i <= b.len(),
            is_line_start(b@, start),
            forall|k: int| start <= k < i ==> b@[k] != 0x0A,
            forall|p: int| #[trigger] is_line_start(b@, p) && p < start ==> !is_lead_run(b@, p, MAX_LEAD + 1),
            in_lead ==> run == i - start && run <= MAX_LEAD && forall|k: int|
                start <= k < i ==> is_lead_byte(#[trigger] b@[k]),
            !in_lead ==> start <= stop < i && stop - start <= MAX_LEAD && !is_lead_byte(b@[stop]),
        decreases b.len() - i,
    {
        let c: u8 = b[i];
        if c == 0x0A {
            proof {
                if in_lead {
                    stop = i as int;
                }
                assert(!is_lead_byte(b@[stop]));
                assert forall|p: int| #[trigger] is_line_start(b@, p) && p < i + 1 implies !is_lead_run(
                    b@,
                    p,
                    MAX_LEAD + 1,
                ) by {
                    if p > start {
                        assert(b@[p - 1] != 0x0A);
                    }
                }
                start = i + 1;
            }
            in_lead = true;
            run = 0;
        } else if in_lead && (c == 0x20 || c == 0x09 || c == 0x2D || c == 0x3F || c == 0x3A) {
            if run == MAX_LEAD {
                assert(is_lead_run(b@, start, MAX_LEAD + 1));
                return false;
            }
            run += 1;
        } else if in_lead {
            in_lead = false;
            proof {
                stop = i as int;
            }
        }
        i += 1;
    }
    proof {
        assert forall|p: int| #[trigger] is_line_start(b@, p) implies !is_lead_run(b@, p, MAX_LEAD + 1) by {
            if p > start {
                assert(b@[p - 1] != 0x0A);
            } else if p == start && !in_lead {
                assert(!is_lead_byte(b@[stop]));
            }
        }
    }
    true
}

/// Whether nowhere in the text can an anchor or an alias stand.
pub fn check_anchors(b: &[u8]) -> (r: bool)
    ensures
        r == forall|i: int| !#[trigger] names_anchor(b@, i),
{
    let mut i: usize = 1;
    while i < b.len()
        invariant
            1 <= i,
            forall|k: int| k + 1 < i ==> !#[trigger] names_anchor(b@, k),
        decreases b.len() - i,
    {
        let c: u8 = b[i - 1];
        let n: u8 = b[i];
        if (c == 0x26 || c == 0x2A) && ((0x30 <= n && n <= 0x39) || (0x41 <= n && n <= 0x5A) || (0x61 <= n && n
            <= 0x7A) || n == 0x5F || n == 0x2D) {
            assert(names_anchor(b@, i - 1));
            return false;
        }
        i += 1;
    }
    true
}

/// Whether every carriage return of the text has a line feed behind it.
pub fn check_returns(b: &[u8]) -> (r: bool)
    ensures
        r == forall|i: int| !#[trigger] is_bare_return(b@, i),
{
    let mut i: usize = 0;
    while i < b.len()
        invariant
            forall|k: int| k < i ==> !#[trigger] is_bare_return(b@, k),
        decreases b.len() - i,
    {
        if b[i] == 0x0D && !(i + 1 < b.len() && b[i + 1] == 0x0A) {
            assert(is_bare_return(b@, i as int));
            return false;
        }
        i += 1;
    }
    true
}

/// Whether the text can be handed to the YAML reader.
pub fn check_tame(text: &str) -> (r: bool)
    ensures
        r == is_tame(encode_utf8(text@)),
{
    let b: &[u8] = text.as_bytes();
    check_nesting(b) && check_anchors(b) && check_returns(b)
}

/// The node of this library that stands for a node of yaml-rust: the same
/// variant with the same values, a sequence with the nodes that stand for
/// its items, a mapping with the pairs of nodes that stand for its keys
/// and values, in the order in which the mapping walks them.
pub uninterp spec fn yaml_node(yaml: yaml_rust::Yaml) -> Node;

/// How many sequences and mappings stand one inside another in a node of
/// yaml-rust, the node itself counted.
pub uninterp spec fn yaml_depth(yaml: yaml_rust::Yaml) -> nat;

/// The documents that yaml-rust reads from `text`, or nothing where it
/// gives the text up.
pub uninterp spec fn yaml_documents(text: Seq<char>) -> Option<Seq<Node>>;

/// The nodes that stand for a list of nodes of yaml-rust.
pub open spec fn yaml_nodes(list: Seq<yaml_rust::Yaml>) -> Seq<Node> {
    Seq::new(list.len(), |i: int| yaml_node(list[i]))
}

/// One node of yaml-rust, `Yaml`, as the node of this library that stands
/// for it: variant for variant, with the values moved over as they are.
/// It goes down into a sequence or a mapping by calling itself, once for
/// each level, so only nodes of a bounded depth are handed to it.
#[verifier::external_body]
fn node_of(yaml: &yaml_rust::Yaml) -> (node: Node)
    requires
        yaml_depth(*yaml) <= MAX_DEPTH,
    ensures
        node == yaml_node(*yaml),
{
    match yaml {
        yaml_rust::Yaml::Real(s) => Node::Real(s.clone()),
        yaml_rust::Yaml::Integer(i) => Node::Integer(*i),
        yaml_rust::Yaml::String(s) => Node::Text(s.clone()),
        yaml_rust::Yaml::Boolean(b) => Node::Boolean(*b),
        yaml_rust::Yaml::Array(v) => Node::Array(v.iter().map(node_of).collect()),
        yaml_rust::Yaml::Hash(h) => Node::Hash(h.iter().map(|(k, v)| (node_of(k), node_of(v))).collect()),
        yaml_rust::Yaml::Alias(n) => Node::Alias(*n),
        yaml_rust::Yaml::Null => Node::Null,
        yaml_rust::Yaml::BadValue => Node::BadValue,
    }
}

/// `YamlLoader::load_from_str` of yaml-rust: the documents of `text`, or
/// the error with which the text was given up. The same text always gives
/// the same documents.
///
/// The loader goes down into a sequence or a mapping by calling itself,
/// and copies the value of an anchor for each alias: so only a text
/// without anchors, and whose collections cannot nest deeply, is handed to
/// it. In such a text the nesting is bounded. A block collection is opened
/// only by a token that stands behind nothing but blanks and the
/// indicators `-`, `?` and `:` on its line, at a column further right than
/// the collection around it, where columns are counted from the last line
/// feed; the one exception, a token behind a comma outside every flow
/// collection, is never reached, since the loader gives the text up at
/// that comma. So at most `MAX_LEAD + 1` block collections are open at
/// once, each mapping of them with at most one sequence more, which needs
/// no indentation. Flow collections are counted by the loader in eight
/// bits, and it gives the text up beyond 255 of them; each sequence of
/// them may hold one mapping more, written without braces.
#[verifier::external_body]
fn load_yaml(text: &str) -> (r: Result<Vec<yaml_rust::Yaml>, yaml_rust::ScanError>)
    requires
        is_tame(encode_utf8(text@)),
    ensures
        match r {
            Ok(docs) => yaml_documents(text@) == Some(yaml_nodes(docs@)) && forall|i: int|
                0 <= i < docs@.len() ==> yaml_depth(#[trigger] docs@[i]) <= MAX_DEPTH,
            Err(_) => yaml_documents(text@) is None,
        },
{
    yaml_rust::YamlLoader::load_from_str(text)
}

/// The first document of a text.
pub open spec fn first_document(docs: Option<Seq<Node>>) -> Option<Node> {
    match docs {
        Some(list) => if list.len() > 0 {
            Some(list[0])
        } else {
            None
        },
        None => None,
    }
}

/// The document that is read from a text: the first of its documents,
/// where the text can be handed to the YAML reader and holds one.
pub open spec fn document_of(text: Seq<char>) -> Option<Node> {
    if is_tame(encode_utf8(text)) {
        first_document(yaml_documents(text))
    } else {
        None
    }
}

/// Reads the first document of `text`. Fails where a line of the text
/// begins with more than [`MAX_LEAD`] blanks and indicators, where an
/// anchor or an alias can stand in it, where a carriage return stands
/// without a line feed, where the text is no YAML, and where it holds no
/// document.
pub fn load_document(text: &str) -> (r: Result<Node, AssetError>)
    ensures
        match r {
            Ok(doc) => document_of(text@) == Some(doc),
            Err(e) => e == AssetError::CodecError && document_of(text@) is None,
        },
{
    if !check_tame(text) {
        return Err(AssetError::CodecError);
    }
    match load_yaml(text) {
        Ok(docs) => {
            if docs.len() == 0 {
                Err(AssetError::CodecError)
            } else {
                Ok(node_of(&docs[0]))
            }
        },
        Err(_) => Err(AssetError::CodecError),
    }
}

/// The value of the first pair of `pairs` whose key is the text `key`.
pub open spec fn lookup(pairs: Seq<(Node, Node)>, key: Seq<char>) -> Option<Node>
    decreases pairs.len(),
{
    if pairs.len() == 0 {
        None
    } else if pairs[0].0 matches Node::Text(s) && s@ == key {
        Some(pairs[0].1)
    } else {
        lookup(pairs.skip(1), key)
    }
}

impl Node {
    /// The value that a mapping has under the text `key`.
    pub open spec fn field(self, key: Seq<char>) -> Option<Node> {
        match self {
            Node::Hash(pairs) => lookup(pairs@, key),
            _ => None,
        }
    }

    /// The whole number that the mapping has under `key`.
    pub open spec fn int_field(self, key: Seq<char>) -> Option<i64> {
        match self.field(key) {
            Some(Node::Integer(v)) => Some(v),
            _ => None,
        }
    }

    /// The text that the mapping has under `key`.
    pub open spec fn text_field(self, key: Seq<char>) -> Option<String> {
        match self.field(key) {
            Some(Node::Text(s)) => Some(s),
            _ => None,
        }
    }

    /// The truth value that the mapping has under `key`.
    pub open spec fn bool_field(self, key: Seq<char>) -> Option<bool> {
        match self.field(key) {
            Some(Node::Boolean(b)) => Some(b),
            _ => None,
        }
    }

    /// The items that the mapping has under `key`: those of a sequence, and
    /// none where the key stands without a value.
    pub open spec fn list_field(self, key: Seq<char>) -> Option<Seq<Node>> {
        match self.field(key) {
            Some(Node::Array(items)) => Some(items@),
            Some(Node::Null) => Some(Seq::empty()),
            _ => None,
        }
    }

    /// The value that a mapping has under the text `key`.
    pub fn get(&self, key: &str) -> (r: Option<&Node>)
        ensures
            match r {
                Some(value) => self.field(key@) == Some(*value),
                None => self.field(key@) is None,
            },
    {
        match self {
            Node::Hash(pairs) => {
                let mut i: usize = 0;
                assert(pairs@.skip(0) =~= pairs@);
                while i < pairs.len()
                    invariant
                        i <= pairs@.len(),
                        self.field(key@) == lookup(pairs@, key@),
                        lookup(pairs@, key@) == lookup(pairs@.skip(i as int), key@),
                    decreases pairs@.len() - i,
                {
                    let pair: &(Node, Node) = &pairs[i];
                    assert(pairs@.skip(i as int).skip(1) =~= pairs@.skip(i + 1));
                    if let Node::Text(s) = &pair.0 {
                        if text_equals(s, key) {
                            return Some(&pair.1);
                        }
                    }
                    i += 1;
                }
                None
            },
            _ => None,
        }
    }

    /// The whole number that the mapping has under `key`.
    pub fn get_int(&self, key: &str) -> (r: Option<i64>)
        ensures
            r == self.int_field(key@),
    {
        match self.get(key) {
            Some(Node::Integer(v)) => Some(*v),
            _ => None,
        }
    }

    /// The text that the mapping has under `key`.
    pub fn get_text(&self, key: &str) -> (r: Option<&String>)
        ensures
            match r {
                Some(s) => self.text_field(key@) == Some(*s),
                None => self.text_field(key@) is None,
            },
    {
        match self.get(key) {
            Some(Node::Text(s)) => Some(s),
            _ => None,
        }
    }

    /// The truth value that the mapping has under `key`.
    pub fn get_bool(&self, key: &str) -> (r: Option<bool>)
        ensures
            r == self.bool_field(key@),
    {
        match self.get(key) {
            Some(Node::Boolean(b)) => Some(*b),
            _ => None,
        }
    }

    /// The items that the mapping has under `key`.
    pub fn get_list(&self, key: &str) -> (r: Option<&[Node]>)
        ensures
            match r {
                Some(items) => self.list_field(key@) == Some(items@),
                None => self.list_field(key@) is None,
            },
    {
        match self.get(key) {
            Some(Node::Array(items)) => Some(items.as_slice()),
            Some(Node::Null) => {
                let none: &[Node] = &[];
                Some(none)
            },
            _ => None,
        }
    }
}

/// Whether the document says of itself that it is of the kind `name`.
pub open spec fn is_of_type(doc: Node, name: Seq<char>) -> bool {
    doc.text_field("type"@) matches Some(s) && s@ == name
}

/// Whether the document says of itself that it is of the kind `name`.
pub fn has_type(doc: &Node, name: &str) -> (r: bool)
    ensures
        r == is_of_type(*doc, name@),
{
    match doc.get_text("type") {
        Some(s) => text_equals(s, name),
        None => false,
    }
}

/// Whether the text `a` is the text `b`.
pub fn text_equals(a: &String, b: &str) -> (r: bool)
    ensures
        r == (a@ == b@),
{
    let other: String = String::from_str(b);
    *a == other
}

} // verus!
