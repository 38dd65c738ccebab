//! The entries of an archive.

use vstd::prelude::*;
use crate::asset::{AnyAsset, AssetView};
use crate::error::AssetError;
use crate::table::AssetMeta;
use crate::yaml::Node;

verus! {

/// One entry of the archive: its place in the table, its segment, its
/// slot, and its asset, which an empty entry lacks.
pub struct AssetEntry {
    pub uid: usize,
    pub seg: usize,
    pub meta: AssetMeta,
    pub data: Option<AnyAsset>,
}

/// What an [`AssetEntry`] holds, as plain values.
pub struct EntryView {
    pub uid: int,
    pub seg: int,
    pub meta: AssetMeta,
    pub data: Option<AssetView>,
}

impl View for AssetEntry {
    type V = EntryView;

    open spec fn view(&self) -> EntryView {
        EntryView {
            uid: self.uid as int,
            seg: self.seg as int,
            meta: self.meta,
            data: match self.data {
                Some(asset) => Some(asset@),
                None => None,
            },
        }
    }
}

impl EntryView {
    /// The empty entry at place `uid`.
    pub open spec fn empty(uid: int) -> EntryView {
        EntryView { uid, seg: 0, meta: AssetMeta::empty(), data: None }
    }

    /// The bytes of the entry's asset before any compression; none for an
    /// entry without asset.
    pub open spec fn payload(self) -> Seq<u8> {
        match self.data {
            Some(asset) => asset.stored(),
            None => Seq::empty(),
        }
    }

    /// Whether the payload of the entry is to be stored compressed: it has
    /// an asset and its slot says so.
    pub open spec fn is_packed(self) -> bool {
        self.data is Some && self.meta.c_flag
    }
}

impl AssetEntry {
    /// The empty entry at place `uid`.
    pub fn new(uid: usize) -> (entry: AssetEntry)
        ensures
            entry@ == EntryView::empty(uid as int),
    {
        AssetEntry { uid, seg: 0, meta: AssetMeta { offset: 0, c_flag: false, t_flag: 4 }, data: None }
    }

    /// Whether the payload of the entry is to be stored compressed, and has
    /// to be packed before the archive is made.
    pub fn is_packed(&self) -> (packed: bool)
        ensures
            packed == self@.is_packed(),
    {
        self.data.is_some() && self.meta.c_flag
    }
}

/// The views of a list of entries.
pub open spec fn entry_views(list: Seq<AssetEntry>) -> Seq<EntryView> {
    Seq::new(list.len(), |i: int| list[i]@)
}

/// The entry that a row of the manifest stands for, as far as the row
/// itself says: its place, whether it is compressed, and its flag. The row
/// is a mapping with a `uid` below 2^32 - 1, a `compressed` that is true
/// or false, and `flags` from 0 to 0xFFFF.
pub open spec fn entry_of_node(node: Node) -> Option<EntryView> {
    match (node.int_field("uid"@), node.bool_field("compressed"@), node.int_field("flags"@)) {
        (Some(uid), Some(compressed), Some(flags)) => if 0 <= uid < 0xFFFF_FFFF && 0 <= flags <= 0xFFFF {
            Some(
                EntryView {
                    uid: uid as int,
                    seg: 0,
                    meta: AssetMeta { offset: 0, c_flag: compressed, t_flag: flags as u16 },
                    data: None,
                },
            )
        } else {
            None
        },
        _ => None,
    }
}

impl AssetEntry {
    /// The entry that a row of the manifest stands for. It has no asset yet.
    pub fn from_yaml(yaml: &Node) -> (r: Result<AssetEntry, AssetError>)
        ensures
            match r {
                Ok(entry) => entry_of_node(*yaml) == Some(entry@),
                Err(e) => e == AssetError::CodecError && entry_of_node(*yaml) is None,
            },
    {
        match (yaml.get_int("uid"), yaml.get_bool("compressed"), yaml.get_int("flags")) {
            (Some(uid), Some(compressed), Some(flags)) => {
                if 0 <= uid && uid < 0xFFFF_FFFF && 0 <= flags && flags <= 0xFFFF {
                    Ok(
                        AssetEntry {
                            uid: uid as usize,
                            seg: 0,
                            meta: AssetMeta { offset: 0, c_flag: compressed, t_flag: flags as u16 },
                            data: None,
                        },
                    )
                } else {
                    Err(AssetError::CodecError)
                }
            },
            _ => Err(AssetError::CodecError),
        }
    }
}

} // verus!
