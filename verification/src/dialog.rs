//! Dialogs: the strings of the two text boxes.

use vstd::prelude::*;
use vstd::string::StringExecFns;
use vstd::utf8::encode_utf8;
use crate::asset::{text_file, Asset};
use crate::bytes::{copy_all, has_prefix, starts_with};
use crate::error::AssetError;
use crate::kind::AssetType;
use crate::strings::{
    all_fit, all_wf, lemma_records_read_back, lemma_records_written_back, push_lines, push_records, read_records,
    read_strings, record_offset, records_at, records_bytes, records_fit, records_text, strings_field, views,
    BKString, BKStringView,
};
use crate::text::push_str;
use crate::yaml::{document_of, has_type, is_of_type, load_document, Node};

verus! {

/// The bytes every dialog begins with.
pub open spec fn dialog_prefix() -> Seq<u8> {
    seq![0x01u8, 0x03u8, 0x00u8]
}

/// A dialog: the strings of the lower and of the upper text box, and the
/// bytes it is stored as.
///
/// A dialog that was read from a payload keeps the bytes of the payload,
/// and is stored again as exactly these. A dialog that was made from its
/// strings, or read from a text, is stored as its strings are written.
pub struct Dialog {
    bottom: Vec<BKString>,
    top: Vec<BKString>,
    bytes: Vec<u8>,
}

/// What a [`Dialog`] holds, as plain values.
pub struct DialogView {
    pub bottom: Seq<BKStringView>,
    pub top: Seq<BKStringView>,
    pub stored: Seq<u8>,
}

impl View for Dialog {
    type V = DialogView;

    closed spec fn view(&self) -> DialogView {
        DialogView { bottom: views(self.bottom@), top: views(self.top@), stored: self.bytes@ }
    }
}

/// Whether the two lists can be written as a dialog: one byte can count
/// each of them and the length of each of their strings.
pub open spec fn dialog_wf(bottom: Seq<BKStringView>, top: Seq<BKStringView>) -> bool {
    &&& bottom.len() <= 0xFF
    &&& top.len() <= 0xFF
    &&& all_wf(bottom)
    &&& all_wf(top)
}

/// The two lists written as a dialog: the prefix, then each list as its
/// count and its records.
pub open spec fn dialog_written(bottom: Seq<BKStringView>, top: Seq<BKStringView>) -> Seq<u8> {
    dialog_prefix() + seq![bottom.len() as u8] + records_bytes(bottom) + seq![top.len() as u8] + records_bytes(
        top,
    )
}

/// The dialog made of the two lists: it is stored as they are written.
pub open spec fn dialog_made(bottom: Seq<BKStringView>, top: Seq<BKStringView>) -> DialogView {
    DialogView { bottom, top, stored: dialog_written(bottom, top) }
}

impl DialogView {
    /// The dialog as the text of a file.
    pub open spec fn text(self) -> Seq<char> {
        "type: Dialog\n"@ + "bottom:\n"@ + records_text(self.bottom) + "top:\n"@ + records_text(self.top)
    }
}

/// Where the count of the upper list of the dialog stored in `b` stands.
pub open spec fn dialog_top_at(b: Seq<u8>) -> int {
    record_offset(b, 4, b[3] as nat)
}

/// Where the dialog stored in `b` ends.
pub open spec fn dialog_end(b: Seq<u8>) -> int {
    record_offset(b, dialog_top_at(b) + 1, b[dialog_top_at(b)] as nat)
}

/// Whether `b` begins with a whole dialog.
pub open spec fn dialog_fits(b: Seq<u8>) -> bool {
    &&& has_prefix(b, dialog_prefix())
    &&& b.len() >= 4
    &&& records_fit(b, 4, b[3] as nat)
    &&& dialog_top_at(b) < b.len()
    &&& records_fit(b, dialog_top_at(b) + 1, b[dialog_top_at(b)] as nat)
}

/// The dialog that `b` begins with. It keeps all of `b`.
pub open spec fn dialog_of(b: Seq<u8>) -> DialogView {
    DialogView {
        bottom: records_at(b, 4, b[3] as nat),
        top: records_at(b, dialog_top_at(b) + 1, b[dialog_top_at(b)] as nat),
        stored: b,
    }
}

/// The dialog that a document stands for: one of the kind `Dialog` whose
/// lists `bottom` and `top` can be written as a dialog.
pub open spec fn dialog_of_node(doc: Node) -> Option<DialogView> {
    match (strings_field(doc, "bottom"@), strings_field(doc, "top"@)) {
        (Some(bottom), Some(top)) => if is_of_type(doc, "Dialog"@) && dialog_wf(bottom, top) {
            Some(dialog_made(bottom, top))
        } else {
            None
        },
        _ => None,
    }
}

impl Dialog {
    /// A dialog of the given lists, unless a list or a string is longer
    /// than one byte can count.
    pub fn new(bottom: Vec<BKString>, top: Vec<BKString>) -> (r: Result<Dialog, AssetError>)
        ensures
            match r {
                Ok(d) => dialog_wf(views(bottom@), views(top@)) && d@ == dialog_made(views(bottom@), views(top@)),
                Err(e) => e == AssetError::CodecError && !dialog_wf(views(bottom@), views(top@)),
            },
    {
        if bottom.len() > 0xFF || top.len() > 0xFF || !all_fit(bottom.as_slice()) || !all_fit(top.as_slice()) {
            return Err(AssetError::CodecError);
        }
        let mut bytes: Vec<u8> = Vec::new();
        bytes.push(0x01);
        bytes.push(0x03);
        bytes.push(0x00);
        bytes.push(bottom.len() as u8);
        assert(bytes@ =~= dialog_prefix() + seq![bottom@.len() as u8]);
        push_records(&mut bytes, bottom.as_slice());
        let ghost low = bytes@;
        bytes.push(top.len() as u8);
        assert(bytes@ =~= low + seq![top@.len() as u8]);
        push_records(&mut bytes, top.as_slice());
        Ok(Dialog { bottom, top, bytes })
    }

    /// The strings of the lower text box.
    pub fn bottom(&self) -> (list: &Vec<BKString>)
        ensures
            views(list@) == self@.bottom,
    {
        &self.bottom
    }

    /// The strings of the upper text box.
    pub fn top(&self) -> (list: &Vec<BKString>)
        ensures
            views(list@) == self@.top,
    {
        &self.top
    }

    /// Reads the dialog that `in_bytes` begin with, and keeps the bytes.
    /// Fails where they do not begin with the prefix of a dialog, or end
    /// before the dialog does.
    pub fn from_bytes(in_bytes: &[u8]) -> (r: Result<Dialog, AssetError>)
        ensures
            match r {
                Ok(d) => dialog_fits(in_bytes@) && d@ == dialog_of(in_bytes@),
                Err(e) => e == AssetError::CodecError && !dialog_fits(in_bytes@),
            },
    {
        let prefix: [u8; 3] = [0x01, 0x03, 0x00];
        if !starts_with(in_bytes, prefix.as_slice()) || in_bytes.len() < 4 {
            return Err(AssetError::CodecError);
        }
        let mut offset: usize = 4;
        let bottom: Vec<BKString> = match read_records(in_bytes, &mut offset, in_bytes[3]) {
            Ok(list) => list,
            Err(e) => {
                return Err(AssetError::CodecError);
            },
        };
        if offset >= in_bytes.len() {
            return Err(AssetError::CodecError);
        }
        let top_size: u8 = in_bytes[offset];
        offset += 1;
        let top: Vec<BKString> = match read_records(in_bytes, &mut offset, top_size) {
            Ok(list) => list,
            Err(e) => {
                return Err(AssetError::CodecError);
            },
        };
        Ok(Dialog { bottom, top, bytes: copy_all(in_bytes) })
    }

    /// The dialog as the text of a file.
    pub fn to_yaml(&self) -> (out: String)
        ensures
            out@ == self@.text(),
    {
        let mut out: String = String::from_str("type: Dialog\n");
        push_str(&mut out, "bottom:\n");
        push_lines(&mut out, self.bottom.as_slice());
        push_str(&mut out, "top:\n");
        push_lines(&mut out, self.top.as_slice());
        out
    }

    /// The dialog that a document stands for.
    pub fn from_yaml(doc: &Node) -> (r: Result<Dialog, AssetError>)
        ensures
            match r {
                Ok(d) => dialog_of_node(*doc) == Some(d@),
                Err(e) => e == AssetError::CodecError && dialog_of_node(*doc) is None,
            },
    {
        if !has_type(doc, "Dialog") {
            return Err(AssetError::CodecError);
        }
        let bottom: Vec<BKString> = match read_strings(doc, "bottom") {
            Ok(list) => list,
            Err(e) => {
                return Err(AssetError::CodecError);
            },
        };
        let top: Vec<BKString> = match read_strings(doc, "top") {
            Ok(list) => list,
            Err(e) => {
                return Err(AssetError::CodecError);
            },
        };
        Dialog::new(bottom, top)
    }

    /// Reads a dialog from the text of its file: the first document of the
    /// text, taken as [`Dialog::from_yaml`] takes it.
    pub fn read(text: &str) -> (r: Result<Dialog, AssetError>)
        ensures
            match r {
                Ok(d) => document_of(text@) matches Some(doc) && dialog_of_node(doc)
                    == Some(d@),
                Err(e) => e == AssetError::CodecError && !(document_of(text@) matches Some(
                    doc,
                ) && dialog_of_node(doc) is Some),
            },
    {
        match load_document(text) {
            Ok(doc) => Dialog::from_yaml(&doc),
            Err(e) => Err(AssetError::CodecError),
        }
    }
}

impl Asset for Dialog {
    open spec fn stored(&self) -> Seq<u8> {
        self@.stored
    }

    open spec fn kind(&self) -> AssetType {
        AssetType::Dialog
    }

    open spec fn file(&self) -> Seq<u8> {
        encode_utf8(self@.text())
    }

    fn to_bytes(&self) -> (out: Vec<u8>) {
        copy_all(self.bytes.as_slice())
    }

    fn get_type(&self) -> (kind: AssetType) {
        AssetType::Dialog
    }

    /// The text of the asset's file, as the bytes of the file.
    fn write(&self) -> (out: Vec<u8>) {
        text_file(&self.to_yaml())
    }
}

/// A dialog that was written is read back as itself: the dialog made of two
/// lists is what its stored bytes are read as, and nothing of them is left
/// over.
pub proof fn lemma_dialog_read_back(bottom: Seq<BKStringView>, top: Seq<BKStringView>)
    requires
        dialog_wf(bottom, top),
    ensures
        dialog_fits(dialog_written(bottom, top)),
        dialog_of(dialog_written(bottom, top)) == dialog_made(bottom, top),
        dialog_end(dialog_written(bottom, top)) == dialog_written(bottom, top).len(),
{
    let b = dialog_written(bottom, top);
    let low = records_bytes(bottom);
    let high = records_bytes(top);
    assert(b.subrange(0, 3) =~= dialog_prefix());
    assert(b.subrange(4, 4 + low.len() as int) =~= low);
    lemma_records_read_back(b, 4, bottom);
    let top_at: int = 4 + low.len() as int;
    assert(b.subrange(top_at + 1, top_at + 1 + high.len() as int) =~= high);
    lemma_records_read_back(b, top_at + 1, top);
}

/// A dialog that was read is stored again as the bytes it was read from,
/// all of them.
pub proof fn lemma_dialog_kept(b: Seq<u8>)
    requires
        dialog_fits(b),
    ensures
        dialog_of(b).stored == b,
{
}

/// The strings of a dialog that was read can be written, and are written
/// as the bytes they were read from: those of the payload up to where the
/// dialog ends.
pub proof fn lemma_dialog_written_back(b: Seq<u8>)
    requires
        dialog_fits(b),
    ensures
        dialog_wf(dialog_of(b).bottom, dialog_of(b).top),
        dialog_end(b) <= b.len(),
        dialog_written(dialog_of(b).bottom, dialog_of(b).top) == b.subrange(0, dialog_end(b)),
{
    lemma_records_written_back(b, 4, b[3] as nat);
    let top_at = dialog_top_at(b);
    lemma_records_written_back(b, top_at + 1, b[top_at] as nat);
    let d = dialog_of(b);
    let written = dialog_written(d.bottom, d.top);
    assert(written =~= b.subrange(0, 3) + b.subrange(3, 4) + b.subrange(4, top_at) + b.subrange(
        top_at,
        top_at + 1,
    ) + b.subrange(top_at + 1, dialog_end(b)));
}

} // verus!
