//! The manifest: the list of the assets that an archive was taken apart into.

use vstd::prelude::*;
use vstd::string::StringExecFns;
use crate::entry::{entry_of_node, AssetEntry, EntryView};
use crate::error::AssetError;
use crate::files::{path_of, relative_path};
use crate::kind::{kind_name, AssetType};
use crate::table::AssetMeta;
use crate::text::{hex4, hex_digits, pad_right, push_hex4, push_padded, push_str};
use crate::yaml::{document_of, load_document, Node};

verus! {

/// `true` or `false`.
pub open spec fn bool_text(b: bool) -> Seq<char> {
    if b {
        "true"@
    } else {
        "false"@
    }
}

/// The row of the manifest for an asset of kind `kind` in the slot `meta`
/// at place `uid`.
pub open spec fn manifest_row(uid: int, kind: AssetType, meta: AssetMeta) -> Seq<char> {
    "  - {uid: 0x"@ + hex4(uid as nat) + ", type: "@ + pad_right(kind_name(kind), 6) + ", compressed: "@
        + pad_right(bool_text(meta.c_flag), 5) + ", flags: 0x"@ + hex4(meta.t_flag as nat)
        + ", relative_path: \""@ + relative_path(kind, uid) + "\"}\n"@
}

/// The rows of the manifest: one for each entry that has an asset, in the
/// order of the table.
pub open spec fn manifest_rows(entries: Seq<EntryView>) -> Seq<char>
    decreases entries.len(),
{
    if entries.len() == 0 {
        Seq::empty()
    } else {
        manifest_rows(entries.drop_last()) + (match entries.last().data {
            Some(asset) => manifest_row(entries.last().uid, asset.kind(), entries.last().meta),
            None => Seq::empty(),
        })
    }
}

/// The manifest of an archive with the entries `entries`: the length of
/// its table, which is one more than its entries, and the rows.
pub open spec fn manifest_text(entries: Seq<EntryView>) -> Seq<char> {
    "tbl_len: 0x"@ + hex_digits(entries.len() + 1) + "\n"@ + "files:\n"@ + manifest_rows(entries)
}

/// The row of the manifest for an asset.
pub fn row_of(uid: usize, kind: AssetType, meta: AssetMeta) -> (out: String)
    ensures
        out@ == manifest_row(uid as int, kind, meta),
{
    let mut out: String = String::from_str("  - {uid: 0x");
    push_hex4(&mut out, uid as u128);
    push_str(&mut out, ", type: ");
    push_padded(&mut out, kind.name().as_str(), 6);
    push_str(&mut out, ", compressed: ");
    push_padded(&mut out, if meta.c_flag {
        "true"
    } else {
        "false"
    }, 5);
    push_str(&mut out, ", flags: 0x");
    push_hex4(&mut out, meta.t_flag as u128);
    push_str(&mut out, ", relative_path: \"");
    push_str(&mut out, path_of(kind, uid).as_str());
    push_str(&mut out, "\"}\n");
    out
}

/// One row of the manifest: the place of an asset, the name of its kind,
/// its slot's compression and flag, and where its file is kept.
pub struct ManifestRow {
    pub uid: usize,
    pub kind: String,
    pub compressed: bool,
    pub flags: u16,
    pub relative_path: String,
}

/// What a [`ManifestRow`] holds, as plain values.
pub struct RowView {
    pub uid: int,
    pub kind: Seq<char>,
    pub compressed: bool,
    pub flags: u16,
    pub relative_path: Seq<char>,
}

impl View for ManifestRow {
    type V = RowView;

    open spec fn view(&self) -> RowView {
        RowView {
            uid: self.uid as int,
            kind: self.kind@,
            compressed: self.compressed,
            flags: self.flags,
            relative_path: self.relative_path@,
        }
    }
}

/// The manifest of an archive: the length of its table and a row for each
/// of its assets.
pub struct Manifest {
    pub tbl_len: usize,
    pub files: Vec<ManifestRow>,
}

/// What a [`Manifest`] holds, as plain values.
pub struct ManifestView {
    pub tbl_len: int,
    pub files: Seq<RowView>,
}

/// The views of a list of rows.
pub open spec fn row_views(list: Seq<ManifestRow>) -> Seq<RowView> {
    Seq::new(list.len(), |i: int| list[i]@)
}

impl View for Manifest {
    type V = ManifestView;

    open spec fn view(&self) -> ManifestView {
        ManifestView { tbl_len: self.tbl_len as int, files: row_views(self.files@) }
    }
}

/// The row that a mapping of the manifest stands for: what
/// [`entry_of_node`] takes from it, and the texts `type` and `relative_path`.
pub open spec fn row_of_node(node: Node) -> Option<RowView> {
    match (entry_of_node(node), node.text_field("type"@), node.text_field("relative_path"@)) {
        (Some(entry), Some(kind), Some(path)) => Some(
            RowView {
                uid: entry.uid,
                kind: kind@,
                compressed: entry.meta.c_flag,
                flags: entry.meta.t_flag,
                relative_path: path@,
            },
        ),
        _ => None,
    }
}

/// The rows that a sequence of mappings stands for, where each of them
/// stands for one.
pub open spec fn rows_of_nodes(items: Seq<Node>) -> Option<Seq<RowView>> {
    if forall|i: int| 0 <= i < items.len() ==> row_of_node(#[trigger] items[i]) is Some {
        Some(Seq::new(items.len(), |i: int| row_of_node(items[i])->0))
    } else {
        None
    }
}

/// The manifest that a document stands for: a mapping with a `tbl_len`
/// from 0 to 2^32 - 1 and a list `files` of rows.
pub open spec fn manifest_of_node(doc: Node) -> Option<ManifestView> {
    match (doc.int_field("tbl_len"@), doc.list_field("files"@)) {
        (Some(tbl_len), Some(items)) => match rows_of_nodes(items) {
            Some(files) => if 0 <= tbl_len <= 0xFFFF_FFFF {
                Some(ManifestView { tbl_len: tbl_len as int, files })
            } else {
                None
            },
            None => None,
        },
        _ => None,
    }
}

impl ManifestRow {
    /// The row that a mapping of the manifest stands for.
    pub fn from_yaml(yaml: &Node) -> (r: Result<ManifestRow, AssetError>)
        ensures
            match r {
                Ok(row) => row_of_node(*yaml) == Some(row@),
                Err(e) => e == AssetError::CodecError && row_of_node(*yaml) is None,
            },
    {
        let entry: AssetEntry = match AssetEntry::from_yaml(yaml) {
            Ok(entry) => entry,
            Err(e) => {
                return Err(AssetError::CodecError);
            },
        };
        match (yaml.get_text("type"), yaml.get_text("relative_path")) {
            (Some(kind), Some(path)) => Ok(
                ManifestRow {
                    uid: entry.uid,
                    kind: kind.clone(),
                    compressed: entry.meta.c_flag,
                    flags: entry.meta.t_flag,
                    relative_path: path.clone(),
                },
            ),
            _ => Err(AssetError::CodecError),
        }
    }
}

impl Manifest {
    /// The manifest that a document stands for.
    pub fn from_yaml(doc: &Node) -> (r: Result<Manifest, AssetError>)
        ensures
            match r {
                Ok(manifest) => manifest_of_node(*doc) == Some(manifest@),
                Err(e) => e == AssetError::CodecError && manifest_of_node(*doc) is None,
            },
    {
        let tbl_len: i64 = match doc.get_int("tbl_len") {
            Some(tbl_len) => tbl_len,
            None => {
                return Err(AssetError::CodecError);
            },
        };
        let items: &[Node] = match doc.get_list("files") {
            Some(items) => items,
            None => {
                return Err(AssetError::CodecError);
            },
        };
        let mut files: Vec<ManifestRow> = Vec::new();
        let mut i: usize = 0;
        while i < items.len()
            invariant
                doc.list_field("files"@) == Some(items@),
                doc.int_field("tbl_len"@) == Some(tbl_len),
                i <= items@.len(),
                files@.len() == i,
                forall|k: int| 0 <= k < i ==> row_of_node(#[trigger] items@[k]) == Some(files@[k]@),
            decreases items@.len() - i,
        {
            match ManifestRow::from_yaml(&items[i]) {
                Ok(row) => {
                    files.push(row);
                },
                Err(e) => {
                    return Err(AssetError::CodecError);
                },
            }
            i += 1;
        }
        assert(row_views(files@) =~= rows_of_nodes(items@)->0);
        if tbl_len < 0 || tbl_len > 0xFFFF_FFFF {
            return Err(AssetError::CodecError);
        }
        Ok(Manifest { tbl_len: tbl_len as usize, files })
    }

    /// Reads a manifest from the text of its file: the first document of
    /// the text, taken as [`Manifest::from_yaml`] takes it.
    pub fn read(text: &str) -> (r: Result<Manifest, AssetError>)
        ensures
            match r {
                Ok(manifest) => document_of(text@) matches Some(doc) && manifest_of_node(doc)
                    == Some(manifest@),
                Err(e) => e == AssetError::CodecError && !(document_of(text@) matches Some(
                    doc,
                ) && manifest_of_node(doc) is Some),
            },
    {
        match load_document(text) {
            Ok(doc) => Manifest::from_yaml(&doc),
            Err(e) => Err(AssetError::CodecError),
        }
    }
}

/// The greatest place that a row names; zero where there is no row.
pub open spec fn max_uid(rows: Seq<RowView>) -> int
    decreases rows.len(),
{
    if rows.len() == 0 {
        0
    } else if max_uid(rows.drop_last()) > rows.last().uid {
        max_uid(rows.drop_last())
    } else {
        rows.last().uid
    }
}

/// How many entries the manifest calls for: as many as it says, and enough
/// to hold the greatest place that a row names.
pub open spec fn expected_len(manifest: ManifestView) -> int {
    if manifest.tbl_len < max_uid(manifest.files) + 1 {
        max_uid(manifest.files) + 1
    } else {
        manifest.tbl_len
    }
}

/// The greatest place that a row names.
pub fn greatest_uid(rows: &Vec<ManifestRow>) -> (max: usize)
    ensures
        max == max_uid(row_views(rows@)),
{
    let mut max: usize = 0;
    let mut i: usize = 0;
    while i < rows.len()
        invariant
            i <= rows@.len(),
            max == max_uid(row_views(rows@).subrange(0, i as int)),
        decreases rows@.len() - i,
    {
        proof {
            assert(row_views(rows@).subrange(0, i + 1).drop_last() =~= row_views(rows@).subrange(0, i as int));
        }
        if rows[i].uid >= max {
            max = rows[i].uid;
        }
        i += 1;
    }
    assert(row_views(rows@).subrange(0, i as int) =~= row_views(rows@));
    max
}

/// No row names a place beyond the greatest.
pub proof fn lemma_max_uid_bounds(rows: Seq<RowView>, i: int)
    requires
        0 <= i < rows.len(),
    ensures
        rows[i].uid <= max_uid(rows),
    decreases rows.len(),
{
    if i < rows.len() - 1 {
        lemma_max_uid_bounds(rows.drop_last(), i);
    }
}

} // verus!
