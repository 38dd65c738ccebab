//! Questions of the quiz show and of Grunty: a question and three options.

use vstd::prelude::*;
use vstd::string::StringExecFns;
use vstd::utf8::encode_utf8;
use crate::asset::{text_file, Asset};
use crate::bytes::{copy_all, has_prefix, starts_with};
use crate::error::AssetError;
use crate::kind::AssetType;
use crate::strings::{
    all_fit, all_wf, lemma_records_bytes_concat, lemma_records_read_back, lemma_records_written_back, push_lines,
    push_records, read_records, read_strings, record_offset, records_at, records_bytes, records_fit,
    records_text, strings_field, views, BKString, BKStringView,
};
use crate::text::push_str;
use crate::yaml::{document_of, has_type, is_of_type, load_document, Node};

verus! {

/// The bytes every quiz question begins with.
pub open spec fn quiz_prefix() -> Seq<u8> {
    seq![0x01u8, 0x01u8, 0x02u8, 0x05u8, 0x00u8]
}

/// The bytes every question of Grunty's begins with.
pub open spec fn grunty_prefix() -> Seq<u8> {
    seq![0x01u8, 0x03u8, 0x00u8, 0x05u8, 0x00u8]
}

/// What a question holds, as plain values: the strings of the question,
/// the three answers to choose from, and the bytes it is stored as.
pub struct QuestionView {
    pub question: Seq<BKStringView>,
    pub options: Seq<BKStringView>,
    pub stored: Seq<u8>,
}

/// Whether the strings can be written as a question: there are three
/// options, one byte can count all the strings, and the length of each.
pub open spec fn question_wf(question: Seq<BKStringView>, options: Seq<BKStringView>) -> bool {
    &&& options.len() == 3
    &&& question.len() + 3 <= 0xFF
    &&& all_wf(question)
    &&& all_wf(options)
}

/// The strings written as a question behind `prefix`: the count of all the
/// strings, the records of the question, the records of the options.
pub open spec fn question_written(
    prefix: Seq<u8>,
    question: Seq<BKStringView>,
    options: Seq<BKStringView>,
) -> Seq<u8> {
    prefix + seq![(question.len() + 3) as u8] + records_bytes(question) + records_bytes(options)
}

/// The question made of the strings: it is stored as they are written.
pub open spec fn question_made(
    prefix: Seq<u8>,
    question: Seq<BKStringView>,
    options: Seq<BKStringView>,
) -> QuestionView {
    QuestionView { question, options, stored: question_written(prefix, question, options) }
}

impl QuestionView {
    /// The question as the text of a file of the kind `name`.
    pub open spec fn text(self, name: Seq<char>) -> Seq<char> {
        "type: "@ + name + "\n"@ + "question:\n"@ + records_text(self.question) + "options:\n"@
            + records_text(self.options)
    }
}

/// Whether `b` begins with a whole question behind the five bytes of `prefix`.
pub open spec fn question_fits(b: Seq<u8>, prefix: Seq<u8>) -> bool {
    &&& has_prefix(b, prefix)
    &&& b.len() >= 6
    &&& b[5] >= 3
    &&& records_fit(b, 6, b[5] as nat)
}

/// The question that `b` begins with: of its strings the last three are
/// the options, the others the question. It keeps all of `b`.
pub open spec fn question_of(b: Seq<u8>) -> QuestionView {
    let all = records_at(b, 6, b[5] as nat);
    QuestionView { question: all.subrange(0, b[5] - 3), options: all.subrange(b[5] - 3, b[5] as int), stored: b }
}

/// Where the question stored in `b` ends.
pub open spec fn question_end(b: Seq<u8>) -> int {
    record_offset(b, 6, b[5] as nat)
}

/// The question that a document of the kind `name` stands for: its list
/// `question`, and the first three of its list `options`, where these can
/// be written as a question. It is stored as they are written behind
/// `prefix`.
pub open spec fn question_of_node(doc: Node, name: Seq<char>, prefix: Seq<u8>) -> Option<QuestionView> {
    match (strings_field(doc, "question"@), strings_field(doc, "options"@)) {
        (Some(question), Some(options)) => if is_of_type(doc, name) && options.len() >= 3 && question_wf(
            question,
            options.subrange(0, 3),
        ) {
            Some(question_made(prefix, question, options.subrange(0, 3)))
        } else {
            None
        },
        _ => None,
    }
}

/// Reads the strings of the question that `in_bytes` begin with.
fn read_question(in_bytes: &[u8], prefix: &[u8]) -> (r: Result<(Vec<BKString>, [BKString; 3]), AssetError>)
    requires
        prefix.len() == 5,
    ensures
        match r {
            Ok(parts) => {
                &&& question_fits(in_bytes@, prefix@)
                &&& views(parts.0@) == question_of(in_bytes@).question
                &&& views(parts.1@) == question_of(in_bytes@).options
            },
            Err(e) => e == AssetError::CodecError && !question_fits(in_bytes@, prefix@),
        },
{
    if !starts_with(in_bytes, prefix) || in_bytes.len() < 6 || in_bytes[5] < 3 {
        return Err(AssetError::CodecError);
    }
    let mut offset: usize = 6;
    let mut texts: Vec<BKString> = match read_records(in_bytes, &mut offset, in_bytes[5]) {
        Ok(list) => list,
        Err(e) => {
            return Err(AssetError::CodecError);
        },
    };
    let ghost all = texts@;
    assert(views(all).len() == in_bytes@[5]);
    let third: BKString = texts.pop().unwrap();
    let second: BKString = texts.pop().unwrap();
    let first: BKString = texts.pop().unwrap();
    let options: [BKString; 3] = [first, second, third];
    Ok((texts, options))
}

/// Writes the strings as a question behind `prefix`. Fails where they
/// cannot be written as one.
fn write_question(prefix: &[u8], question: &[BKString], options: &[BKString]) -> (r: Result<Vec<u8>, AssetError>)
    ensures
        match r {
            Ok(out) => question_wf(views(question@), views(options@)) && out@ == question_written(
                prefix@,
                views(question@),
                views(options@),
            ),
            Err(e) => e == AssetError::CodecError && !question_wf(views(question@), views(options@)),
        },
{
    if options.len() != 3 || question.len() > 0xFF - 3 || !all_fit(question) || !all_fit(options) {
        return Err(AssetError::CodecError);
    }
    let mut out: Vec<u8> = copy_all(prefix);
    out.push((question.len() + 3) as u8);
    push_records(&mut out, question);
    push_records(&mut out, options);
    Ok(out)
}

/// Writes a question as the text of a file of the kind `name`.
fn question_text(name: &str, question: &[BKString], options: &[BKString]) -> (out: String)
    ensures
        out@ == "type: "@ + name@ + "\n"@ + "question:\n"@ + records_text(views(question@)) + "options:\n"@
            + records_text(views(options@)),
{
    let mut out: String = String::from_str("type: ");
    push_str(&mut out, name);
    push_str(&mut out, "\n");
    push_str(&mut out, "question:\n");
    push_lines(&mut out, question);
    push_str(&mut out, "options:\n");
    push_lines(&mut out, options);
    out
}

/// The strings of the question that a document of the kind `name` stands
/// for, and the bytes they are written as behind `prefix`.
fn question_from_yaml(doc: &Node, name: &str, prefix: &[u8]) -> (r: Result<
    (Vec<BKString>, [BKString; 3], Vec<u8>),
    AssetError,
>)
    ensures
        match r {
            Ok(parts) => question_of_node(*doc, name@, prefix@) == Some(
                QuestionView { question: views(parts.0@), options: views(parts.1@), stored: parts.2@ },
            ),
            Err(e) => e == AssetError::CodecError && question_of_node(*doc, name@, prefix@) is None,
        },
{
    if !has_type(doc, name) {
        return Err(AssetError::CodecError);
    }
    let question: Vec<BKString> = match read_strings(doc, "question") {
        Ok(list) => list,
        Err(e) => {
            return Err(AssetError::CodecError);
        },
    };
    let listed: Vec<BKString> = match read_strings(doc, "options") {
        Ok(list) => list,
        Err(e) => {
            return Err(AssetError::CodecError);
        },
    };
    if listed.len() < 3 {
        return Err(AssetError::CodecError);
    }
    let options: [BKString; 3] = [listed[0].clone(), listed[1].clone(), listed[2].clone()];
    assert(views(options@) =~= views(listed@).subrange(0, 3));
    match write_question(prefix, question.as_slice(), options.as_slice()) {
        Ok(bytes) => Ok((question, options, bytes)),
        Err(e) => Err(AssetError::CodecError),
    }
}

/// A question of the quiz show: the strings of the question, three
/// options, and the bytes it is stored as.
///
/// A question that was read from a payload keeps the bytes of the payload,
/// and is stored again as exactly these. A question that was made from its
/// strings, or read from a text, is stored as its strings are written.
pub struct QuizQuestion {
    question: Vec<BKString>,
    options: [BKString; 3],
    bytes: Vec<u8>,
}

impl View for QuizQuestion {
    type V = QuestionView;

    closed spec fn view(&self) -> QuestionView {
        QuestionView { question: views(self.question@), options: views(self.options@), stored: self.bytes@ }
    }
}

impl QuizQuestion {
    /// A question of the given strings, unless a string is longer than one
    /// byte can count or the strings are more than one byte can count.
    pub fn new(question: Vec<BKString>, options: [BKString; 3]) -> (r: Result<QuizQuestion, AssetError>)
        ensures
            match r {
                Ok(q) => question_wf(views(question@), views(options@)) && q@ == question_made(
                    quiz_prefix(),
                    views(question@),
                    views(options@),
                ),
                Err(e) => e == AssetError::CodecError && !question_wf(views(question@), views(options@)),
            },
    {
        let prefix: [u8; 5] = [0x01, 0x01, 0x02, 0x05, 0x00];
        match write_question(prefix.as_slice(), question.as_slice(), options.as_slice()) {
            Ok(bytes) => Ok(QuizQuestion { question, options, bytes }),
            Err(e) => Err(AssetError::CodecError),
        }
    }

    /// The strings of the question.
    pub fn question(&self) -> (list: &Vec<BKString>)
        ensures
            views(list@) == self@.question,
    {
        &self.question
    }

    /// The three options.
    pub fn options(&self) -> (list: &[BKString; 3])
        ensures
            views(list@) == self@.options,
    {
        &self.options
    }

    /// Reads the question that `in_bytes` begin with, and keeps the bytes.
    /// Fails where they do not begin with the prefix of a quiz question,
    /// hold fewer than three strings, or end before the question does.
    pub fn from_bytes(in_bytes: &[u8]) -> (r: Result<QuizQuestion, AssetError>)
        ensures
            match r {
                Ok(q) => question_fits(in_bytes@, quiz_prefix()) && q@ == question_of(in_bytes@),
                Err(e) => e == AssetError::CodecError && !question_fits(in_bytes@, quiz_prefix()),
            },
    {
        let prefix: [u8; 5] = [0x01, 0x01, 0x02, 0x05, 0x00];
        match read_question(in_bytes, prefix.as_slice()) {
            Ok(parts) => Ok(QuizQuestion { question: parts.0, options: parts.1, bytes: copy_all(in_bytes) }),
            Err(e) => Err(AssetError::CodecError),
        }
    }

    /// The question as the text of a file.
    pub fn to_yaml(&self) -> (out: String)
        ensures
            out@ == self@.text("QuizQuestion"@),
    {
        question_text("QuizQuestion", self.question.as_slice(), self.options.as_slice())
    }

    /// The question that a document stands for.
    pub fn from_yaml(doc: &Node) -> (r: Result<QuizQuestion, AssetError>)
        ensures
            match r {
                Ok(q) => question_of_node(*doc, "QuizQuestion"@, quiz_prefix()) == Some(q@),
                Err(e) => e == AssetError::CodecError && question_of_node(*doc, "QuizQuestion"@, quiz_prefix())
                    is None,
            },
    {
        let prefix: [u8; 5] = [0x01, 0x01, 0x02, 0x05, 0x00];
        match question_from_yaml(doc, "QuizQuestion", prefix.as_slice()) {
            Ok(parts) => Ok(QuizQuestion { question: parts.0, options: parts.1, bytes: parts.2 }),
            Err(e) => Err(AssetError::CodecError),
        }
    }

    /// Reads a question from the text of its file: the first document of
    /// the text, taken as [`QuizQuestion::from_yaml`] takes it.
    pub fn read(text: &str) -> (r: Result<QuizQuestion, AssetError>)
        ensures
            match r {
                Ok(q) => document_of(text@) matches Some(doc) && question_of_node(
                    doc,
                    "QuizQuestion"@,
                    quiz_prefix(),
                ) == Some(q@),
                Err(e) => e == AssetError::CodecError && !(document_of(text@) matches Some(
                    doc,
                ) && question_of_node(doc, "QuizQuestion"@, quiz_prefix()) is Some),
            },
    {
        match load_document(text) {
            Ok(doc) => QuizQuestion::from_yaml(&doc),
            Err(e) => Err(AssetError::CodecError),
        }
    }
}

impl Asset for QuizQuestion {
    open spec fn stored(&self) -> Seq<u8> {
        self@.stored
    }

    open spec fn kind(&self) -> AssetType {
        AssetType::QuizQuestion
    }

    open spec fn file(&self) -> Seq<u8> {
        encode_utf8(self@.text("QuizQuestion"@))
    }

    fn to_bytes(&self) -> (out: Vec<u8>) {
        copy_all(self.bytes.as_slice())
    }

    fn get_type(&self) -> (kind: AssetType) {
        AssetType::QuizQuestion
    }

    /// The text of the asset's file, as the bytes of the file.
    fn write(&self) -> (out: Vec<u8>) {
        text_file(&self.to_yaml())
    }
}

/// A question of Grunty's: the strings of the question, three options, and
/// the bytes it is stored as.
///
/// A question that was read from a payload keeps the bytes of the payload,
/// and is stored again as exactly these. A question that was made from its
/// strings, or read from a text, is stored as its strings are written.
pub struct GruntyQuestion {
    question: Vec<BKString>,
    options: [BKString; 3],
    bytes: Vec<u8>,
}

impl View for GruntyQuestion {
    type V = QuestionView;

    closed spec fn view(&self) -> QuestionView {
        QuestionView { question: views(self.question@), options: views(self.options@), stored: self.bytes@ }
    }
}

impl GruntyQuestion {
    /// A question of the given strings, unless a string is longer than one
    /// byte can count or the strings are more than one byte can count.
    pub fn new(question: Vec<BKString>, options: [BKString; 3]) -> (r: Result<GruntyQuestion, AssetError>)
        ensures
            match r {
                Ok(q) => question_wf(views(question@), views(options@)) && q@ == question_made(
                    grunty_prefix(),
                    views(question@),
                    views(options@),
                ),
                Err(e) => e == AssetError::CodecError && !question_wf(views(question@), views(options@)),
            },
    {
        let prefix: [u8; 5] = [0x01, 0x03, 0x00, 0x05, 0x00];
        match write_question(prefix.as_slice(), question.as_slice(), options.as_slice()) {
            Ok(bytes) => Ok(GruntyQuestion { question, options, bytes }),
            Err(e) => Err(AssetError::CodecError),
        }
    }

    /// The strings of the question.
    pub fn question(&self) -> (list: &Vec<BKString>)
        ensures
            views(list@) == self@.question,
    {
        &self.question
    }

    /// The three options.
    pub fn options(&self) -> (list: &[BKString; 3])
        ensures
            views(list@) == self@.options,
    {
        &self.options
    }

    /// Reads the question that `in_bytes` begin with, and keeps the bytes.
    /// Fails where they do not begin with the prefix of a question of
    /// Grunty's, hold fewer than three strings, or end before the question
    /// does.
    pub fn from_bytes(in_bytes: &[u8]) -> (r: Result<GruntyQuestion, AssetError>)
        ensures
            match r {
                Ok(q) => question_fits(in_bytes@, grunty_prefix()) && q@ == question_of(in_bytes@),
                Err(e) => e == AssetError::CodecError && !question_fits(in_bytes@, grunty_prefix()),
            },
    {
        let prefix: [u8; 5] = [0x01, 0x03, 0x00, 0x05, 0x00];
        match read_question(in_bytes, prefix.as_slice()) {
            Ok(parts) => Ok(GruntyQuestion { question: parts.0, options: parts.1, bytes: copy_all(in_bytes) }),
            Err(e) => Err(AssetError::CodecError),
        }
    }

    /// The question as the text of a file.
    pub fn to_yaml(&self) -> (out: String)
        ensures
            out@ == self@.text("GruntyQuestion"@),
    {
        question_text("GruntyQuestion", self.question.as_slice(), self.options.as_slice())
    }

    /// The question that a document stands for.
    pub fn from_yaml(doc: &Node) -> (r: Result<GruntyQuestion, AssetError>)
        ensures
            match r {
                Ok(q) => question_of_node(*doc, "GruntyQuestion"@, grunty_prefix()) == Some(q@),
                Err(e) => e == AssetError::CodecError && question_of_node(
                    *doc,
                    "GruntyQuestion"@,
                    grunty_prefix(),
                ) is None,
            },
    {
        let prefix: [u8; 5] = [0x01, 0x03, 0x00, 0x05, 0x00];
        match question_from_yaml(doc, "GruntyQuestion", prefix.as_slice()) {
            Ok(parts) => Ok(GruntyQuestion { question: parts.0, options: parts.1, bytes: parts.2 }),
            Err(e) => Err(AssetError::CodecError),
        }
    }

    /// Reads a question from the text of its file: the first document of
    /// the text, taken as [`GruntyQuestion::from_yaml`] takes it.
    pub fn read(text: &str) -> (r: Result<GruntyQuestion, AssetError>)
        ensures
            match r {
                Ok(q) => document_of(text@) matches Some(doc) && question_of_node(
                    doc,
                    "GruntyQuestion"@,
                    grunty_prefix(),
                ) == Some(q@),
                Err(e) => e == AssetError::CodecError && !(document_of(text@) matches Some(
                    doc,
                ) && question_of_node(doc, "GruntyQuestion"@, grunty_prefix()) is Some),
            },
    {
        match load_document(text) {
            Ok(doc) => GruntyQuestion::from_yaml(&doc),
            Err(e) => Err(AssetError::CodecError),
        }
    }
}

impl Asset for GruntyQuestion {
    open spec fn stored(&self) -> Seq<u8> {
        self@.stored
    }

    open spec fn kind(&self) -> AssetType {
        AssetType::GruntyQuestion
    }

    open spec fn file(&self) -> Seq<u8> {
        encode_utf8(self@.text("GruntyQuestion"@))
    }

    fn to_bytes(&self) -> (out: Vec<u8>) {
        copy_all(self.bytes.as_slice())
    }

    fn get_type(&self) -> (kind: AssetType) {
        AssetType::GruntyQuestion
    }

    /// The text of the asset's file, as the bytes of the file.
    fn write(&self) -> (out: Vec<u8>) {
        text_file(&self.to_yaml())
    }
}

/// A question that was written is read back as itself: the question made
/// of the strings is what its stored bytes are read as, and nothing of
/// them is left over.
pub proof fn lemma_question_read_back(prefix: Seq<u8>, question: Seq<BKStringView>, options: Seq<BKStringView>)
    requires
        question_wf(question, options),
        prefix.len() == 5,
    ensures
        question_fits(question_written(prefix, question, options), prefix),
        question_of(question_written(prefix, question, options)) == question_made(prefix, question, options),
        question_end(question_written(prefix, question, options)) == question_written(
            prefix,
            question,
            options,
        ).len(),
{
    let b = question_written(prefix, question, options);
    let all = question + options;
    lemma_records_bytes_concat(question, options);
    assert(b.subrange(0, 5) =~= prefix);
    assert(b.subrange(6, 6 + records_bytes(all).len() as int) =~= records_bytes(all));
    lemma_records_read_back(b, 6, all);
    assert(question_of(b).question =~= question);
    assert(question_of(b).options =~= options);
}

/// A question that was read is stored again as the bytes it was read from,
/// all of them.
pub proof fn lemma_question_kept(b: Seq<u8>, prefix: Seq<u8>)
    requires
        question_fits(b, prefix),
    ensures
        question_of(b).stored == b,
{
}

/// The strings of a question that was read can be written, and are written
/// as the bytes they were read from: those of the payload up to where the
/// question ends.
pub proof fn lemma_question_written_back(b: Seq<u8>, prefix: Seq<u8>)
    requires
        question_fits(b, prefix),
        prefix.len() == 5,
    ensures
        question_wf(question_of(b).question, question_of(b).options),
        question_end(b) <= b.len(),
        question_written(prefix, question_of(b).question, question_of(b).options) == b.subrange(
            0,
            question_end(b),
        ),
{
    let n = b[5] as nat;
    lemma_records_written_back(b, 6, n);
    let all = records_at(b, 6, n);
    let q = question_of(b);
    let written = question_written(prefix, q.question, q.options);
    assert(q.question + q.options =~= all);
    lemma_records_bytes_concat(q.question, q.options);
    assert(written =~= b.subrange(0, 5) + b.subrange(5, 6) + b.subrange(6, question_end(b)));
}

} // verus!
