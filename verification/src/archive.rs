//! The archive as a folder of assets: taking it apart and making it again.

use vstd::prelude::*;
use vstd::string::StringExecFns;
use crate::asset::{asset_of, asset_of_file, from_seg_indx_and_bytes, text_file, AnyAsset, Asset, AssetView};
use crate::bytes::{
    be_u16, be_u32, lemma_u16_written_back, lemma_u32_written_back, padded16, push_all, push_u32, u32_be,
};
use crate::entry::{entry_views, AssetEntry, EntryView};
use crate::error::AssetError;
use crate::files::{entry_files, file_views, files_upto, folder_files, OutFile};
use crate::manifest::{
    expected_len, greatest_uid, lemma_max_uid_bounds, manifest_rows, manifest_text, max_uid, row_of, Manifest,
    ManifestRow, ManifestView, RowView,
};
use crate::segment::{lemma_segment_bounded, segment_at, segment_state, SegmentState};
use crate::table::{
    archive_fits, data_end, data_start, entry_count, is_canonical, is_packed, payload_fits, read_slots, slot_at,
    slot_count, stored_assets, stored_payload, stored_views, AssetMeta, StoredAsset, StoredView,
};
use crate::text::{push_hex, push_str};

verus! {

/// The flags of a list of slots.
pub open spec fn flags_of(slots: Seq<StoredView>) -> Seq<u16> {
    Seq::new(slots.len(), |i: int| slots[i].meta.t_flag)
}

/// The entry that the `i`-th of `slots` makes, where its payload, no longer
/// compressed, is a whole asset of the kind that its segment calls for.
pub open spec fn entry_of(slots: Seq<StoredView>, i: int) -> Option<EntryView> {
    if slots[i].meta.t_flag == 4 {
        Some(EntryView { uid: i, seg: 0, meta: slots[i].meta, data: None })
    } else {
        match asset_of(segment_at(flags_of(slots), i), slots[i].bytes) {
            Some(asset) => Some(
                EntryView { uid: i, seg: segment_at(flags_of(slots), i), meta: slots[i].meta, data: Some(asset) },
            ),
            None => None,
        }
    }
}

/// The entries that `slots` make, where each of them makes one.
pub open spec fn entries_of(slots: Seq<StoredView>) -> Option<Seq<EntryView>> {
    if forall|i: int| 0 <= i < slots.len() ==> (#[trigger] entry_of(slots, i)) is Some {
        Some(Seq::new(slots.len(), |i: int| entry_of(slots, i)->0))
    } else {
        None
    }
}

/// The assets of an archive in the order of its table.
pub struct AssetFolder {
    assets: Vec<AssetEntry>,
}

impl View for AssetFolder {
    type V = Seq<EntryView>;

    closed spec fn view(&self) -> Seq<EntryView> {
        entry_views(self.assets@)
    }
}

impl AssetFolder {
    /// A folder without entries.
    pub fn new() -> (folder: AssetFolder)
        ensures
            folder@ == Seq::<EntryView>::empty(),
    {
        let folder = AssetFolder { assets: Vec::new() };
        assert(folder@ =~= Seq::<EntryView>::empty());
        folder
    }

    /// The entries in the order of the table.
    pub fn entries(&self) -> (list: &Vec<AssetEntry>)
        ensures
            entry_views(list@) == self@,
    {
        &self.assets
    }

    /// Makes the folder of an archive from its slots, each with its payload
    /// no longer compressed: tells the segment of each slot from the flags
    /// and reads each payload as the kind of asset that its segment calls
    /// for. Fails where a payload is not a whole asset of its kind.
    pub fn from_slots(slots: &Vec<StoredAsset>) -> (r: Result<AssetFolder, AssetError>)
        ensures
            match r {
                Ok(folder) => entries_of(stored_views(slots@)) == Some(folder@),
                Err(e) => e == AssetError::CodecError && entries_of(stored_views(slots@)) is None,
            },
    {
        let ghost all = stored_views(slots@);
        let mut state: SegmentState = SegmentState::new();
        let mut assets: Vec<AssetEntry> = Vec::new();
        let mut i: usize = 0;
        while i < slots.len()
            invariant
                all == stored_views(slots@),
                i <= slots@.len(),
                assets@.len() == i,
                (state.counter as int, state.prev_t) == segment_state(flags_of(all).subrange(0, i as int)),
                state.counter <= i,
                forall|k: int| 0 <= k < i ==> #[trigger] entry_of(all, k) == Some(assets@[k]@),
            decreases slots@.len() - i,
        {
            let slot: &StoredAsset = &slots[i];
            proof {
                assert(flags_of(all).subrange(0, i + 1).drop_last() =~= flags_of(all).subrange(0, i as int));
                lemma_segment_bounded(flags_of(all).subrange(0, i + 1));
            }
            state.step(slot.meta.t_flag);
            if slot.meta.t_flag == 4 {
                assets.push(AssetEntry { uid: i, seg: 0, meta: slot.meta, data: None });
            } else {
                match from_seg_indx_and_bytes(state.counter, i, slot.bytes.as_slice()) {
                    Ok(asset) => {
                        assets.push(AssetEntry { uid: i, seg: state.counter, meta: slot.meta, data: Some(asset) });
                    },
                    Err(e) => {
                        assert(entry_of(all, i as int) is None);
                        return Err(AssetError::CodecError);
                    },
                }
            }
            i += 1;
        }
        let folder = AssetFolder { assets };
        assert(folder@ =~= entries_of(all)->0);
        Ok(folder)
    }
}

impl AssetFolder {
    /// Reads an archive of which no payload is compressed. Fails with
    /// `FormatError` where the bytes end before the table or a payload
    /// does, else with `CompressionError` where a slot that is not empty
    /// has a compressed payload, else with `CodecError` where a payload is
    /// not a whole asset of its kind.
    pub fn from_bytes(in_bytes: &[u8]) -> (r: Result<AssetFolder, AssetError>)
        ensures
            match r {
                Ok(folder) => {
                    &&& archive_fits(in_bytes@)
                    &&& !is_packed(in_bytes@)
                    &&& entries_of(stored_assets(in_bytes@)) == Some(folder@)
                },
                Err(e) => if !archive_fits(in_bytes@) {
                    e == AssetError::FormatError
                } else if is_packed(in_bytes@) {
                    e == AssetError::CompressionError
                } else {
                    e == AssetError::CodecError && entries_of(stored_assets(in_bytes@)) is None
                },
            },
    {
        let slots: Vec<StoredAsset> = match read_slots(in_bytes) {
            Ok(slots) => slots,
            Err(e) => {
                return Err(AssetError::FormatError);
            },
        };
        assert(stored_views(slots@).len() == slots@.len());
        let mut i: usize = 0;
        while i < slots.len()
            invariant
                archive_fits(in_bytes@),
                stored_views(slots@) == stored_assets(in_bytes@),
                slots@.len() == entry_count(in_bytes@),
                i <= slots@.len(),
                forall|k: int|
                    0 <= k < i ==> !((#[trigger] slot_at(in_bytes@, k)).c_flag && slot_at(in_bytes@, k).t_flag != 4),
            decreases slots@.len() - i,
        {
            assert(stored_views(slots@)[i as int].meta == slot_at(in_bytes@, i as int));
            if slots[i].meta.c_flag && slots[i].meta.t_flag != 4 {
                return Err(AssetError::CompressionError);
            }
            i += 1;
        }
        AssetFolder::from_slots(&slots)
    }
}

/// The entries as the archive stores them: where the last entry has an
/// asset, an empty entry follows it, which bounds its payload.
pub open spec fn sealed(entries: Seq<EntryView>) -> Seq<EntryView> {
    if entries.len() > 0 && entries.last().data is Some {
        entries.push(EntryView::empty(entries.len() as int))
    } else {
        entries
    }
}

/// The payloads as the archive stores them: that of an entry without asset
/// is empty whatever was handed in for it, and so is that of the entry
/// that [`sealed`] adds.
pub open spec fn sealed_payloads(entries: Seq<EntryView>, stored: Seq<Seq<u8>>) -> Seq<Seq<u8>> {
    Seq::new(
        sealed(entries).len(),
        |i: int|
            if i < entries.len() && entries[i].data is Some {
                stored[i]
            } else {
                Seq::empty()
            },
    )
}

/// The length of all of `parts` together.
pub open spec fn total_len(parts: Seq<Seq<u8>>) -> int
    decreases parts.len(),
{
    if parts.len() == 0 {
        0
    } else {
        total_len(parts.drop_last()) + parts.last().len()
    }
}

/// All of `parts`, one after the other.
pub open spec fn concat_all(parts: Seq<Seq<u8>>) -> Seq<u8>
    decreases parts.len(),
{
    if parts.len() == 0 {
        Seq::empty()
    } else {
        concat_all(parts.drop_last()) + parts.last()
    }
}

/// The entries with the offset of each set to the length of the payloads
/// before it.
pub open spec fn placed(entries: Seq<EntryView>, payloads: Seq<Seq<u8>>) -> Seq<EntryView> {
    Seq::new(
        entries.len(),
        |i: int|
            EntryView {
                uid: entries[i].uid,
                seg: entries[i].seg,
                meta: AssetMeta {
                    offset: total_len(payloads.subrange(0, i)) as u32,
                    c_flag: entries[i].meta.c_flag,
                    t_flag: entries[i].meta.t_flag,
                },
                data: entries[i].data,
            },
    )
}

/// The records of the slots of `entries`, one after the other.
pub open spec fn table_bytes(entries: Seq<EntryView>) -> Seq<u8>
    decreases entries.len(),
{
    if entries.len() == 0 {
        Seq::empty()
    } else {
        table_bytes(entries.drop_last()) + entries.last().meta.bytes()
    }
}

/// The archive of `entries` with `payloads`: the count of the entries, four
/// bytes of 0xFF, the table, and the payloads one after the other.
pub open spec fn archive_bytes(entries: Seq<EntryView>, payloads: Seq<Seq<u8>>) -> Seq<u8> {
    u32_be(entries.len() as int) + seq![0xFFu8, 0xFFu8, 0xFFu8, 0xFFu8] + table_bytes(entries) + concat_all(
        payloads,
    )
}

/// Whether an archive can be made of `entries` with the payloads `stored`:
/// there is a payload for each entry, and 32 bits can hold the count of
/// the slots and the length of the payloads.
pub open spec fn can_store(entries: Seq<EntryView>, stored: Seq<Seq<u8>>) -> bool {
    &&& stored.len() == entries.len()
    &&& sealed(entries).len() <= u32::MAX
    &&& total_len(sealed_payloads(entries, stored)) <= u32::MAX
}

/// The views of a list of byte strings.
pub open spec fn byte_views(list: Seq<Vec<u8>>) -> Seq<Seq<u8>> {
    Seq::new(list.len(), |i: int| list[i]@)
}

impl AssetFolder {
    /// The bytes of each entry's asset before any compression, in the order
    /// of the table; none for an entry without asset.
    pub fn payloads(&self) -> (list: Vec<Vec<u8>>)
        ensures
            list@.len() == self@.len(),
            forall|i: int| 0 <= i < self@.len() ==> (#[trigger] list@[i])@ == self@[i].payload(),
    {
        let mut list: Vec<Vec<u8>> = Vec::new();
        let mut i: usize = 0;
        while i < self.assets.len()
            invariant
                i <= self.assets@.len(),
                list@.len() == i,
                forall|k: int| 0 <= k < i ==> (#[trigger] list@[k])@ == self@[k].payload(),
            decreases self.assets@.len() - i,
        {
            let bytes: Vec<u8> = match &self.assets[i].data {
                Some(asset) => asset.to_bytes(),
                None => Vec::new(),
            };
            list.push(bytes);
            i += 1;
        }
        list
    }

    /// Makes the archive. `stored` holds for each entry the payload to
    /// store: the bytes of its asset, compressed where its slot says so.
    /// Where the last entry has an asset, an empty entry is added behind
    /// it. Each slot gets as its offset the length of the payloads before
    /// it. Fails, and leaves the folder as it is, where an archive cannot
    /// be made of the entries with these payloads.
    pub fn to_bytes(&mut self, stored: &Vec<Vec<u8>>) -> (r: Result<Vec<u8>, AssetError>)
        ensures
            match r {
                Ok(out) => {
                    &&& can_store(old(self)@, byte_views(stored@))
                    &&& final(self)@ == placed(
                        sealed(old(self)@),
                        sealed_payloads(old(self)@, byte_views(stored@)),
                    )
                    &&& out@ == archive_bytes(final(self)@, sealed_payloads(old(self)@, byte_views(stored@)))
                },
                Err(e) => {
                    &&& e == AssetError::FormatError
                    &&& !can_store(old(self)@, byte_views(stored@))
                    &&& final(self)@ == old(self)@
                },
            },
    {
        let ghost entries = self@;
        let ghost given = byte_views(stored@);
        let ghost parts = sealed_payloads(entries, given);
        if stored.len() != self.assets.len() {
            return Err(AssetError::FormatError);
        }
        let count: usize = self.assets.len();
        let seal: bool = count > 0 && self.assets[count - 1].data.is_some();
        if count > 0xFFFF_FFFF || (seal && count == 0xFFFF_FFFF) {
            return Err(AssetError::FormatError);
        }
        // The length of the payloads, as far as 32 bits hold it.
        let mut total: u64 = 0;
        let mut i: usize = 0;
        assert(parts.subrange(0, 0) =~= Seq::<Seq<u8>>::empty());
        while i < count
            invariant
                count == self.assets@.len(),
                count == stored@.len(),
                self@ == entries,
                given == byte_views(stored@),
                parts == sealed_payloads(entries, given),
                i <= count,
                total == total_len(parts.subrange(0, i as int)),
                total <= u32::MAX,
            decreases count - i,
        {
            let size: usize = if self.assets[i].data.is_some() {
                stored[i].len()
            } else {
                0
            };
            proof {
                assert(parts.subrange(0, i + 1).drop_last() =~= parts.subrange(0, i as int));
                assert(parts.subrange(0, i + 1).last() == parts[i as int]);
                assert(parts[i as int].len() == size);
            }
            if size as u64 > 0xFFFF_FFFF - total {
                proof {
                    lemma_total_len_grows(parts, i + 1);
                }
                return Err(AssetError::FormatError);
            }
            total = total + size as u64;
            i += 1;
        }
        proof {
            if seal {
                assert(parts.drop_last() =~= parts.subrange(0, count as int));
                assert(parts.last() =~= Seq::<u8>::empty());
            } else {
                assert(parts.subrange(0, count as int) =~= parts);
            }
        }
        if seal {
            self.assets.push(AssetEntry::new(count));
        }
        assert(self@ =~= sealed(entries));
        let slots: usize = self.assets.len();
        let mut out: Vec<u8> = Vec::new();
        push_u32(&mut out, slots as u32);
        out.push(0xFF);
        out.push(0xFF);
        out.push(0xFF);
        out.push(0xFF);
        let ghost head = out@;
        assert(head =~= u32_be(slots as int) + seq![0xFFu8, 0xFFu8, 0xFFu8, 0xFFu8]);
        let mut offset: u32 = 0;
        let mut k: usize = 0;
        assert(placed(sealed(entries), parts).subrange(0, 0) =~= Seq::<EntryView>::empty());
        while k < slots
            invariant
                slots == self.assets@.len(),
                slots == parts.len(),
                slots <= u32::MAX,
                count == stored@.len(),
                count <= slots,
                given == byte_views(stored@),
                parts == sealed_payloads(entries, given),
                sealed(entries).len() == slots,
                entries.len() == count,
                total_len(parts) <= u32::MAX,
                k <= slots,
                offset == total_len(parts.subrange(0, k as int)),
                forall|j: int| 0 <= j < k ==> (#[trigger] self@[j]) == placed(sealed(entries), parts)[j],
                forall|j: int| k <= j < slots ==> (#[trigger] self@[j]) == sealed(entries)[j],
                out@ == head + table_bytes(placed(sealed(entries), parts).subrange(0, k as int)),
            decreases slots - k,
        {
            let ghost before = self@;
            let size: usize = if self.assets[k].data.is_some() && k < count {
                stored[k].len()
            } else {
                0
            };
            proof {
                assert(before[k as int] == sealed(entries)[k as int]);
                if k < count {
                    assert(sealed(entries)[k as int] == entries[k as int]);
                } else {
                    assert(sealed(entries)[k as int] == EntryView::empty(count as int));
                }
                assert(parts.subrange(0, k + 1).drop_last() =~= parts.subrange(0, k as int));
                assert(parts.subrange(0, k + 1).last() == parts[k as int]);
                assert(parts[k as int].len() == size);
                lemma_total_len_grows(parts, k + 1);
            }
            let meta = AssetMeta {
                offset,
                c_flag: self.assets[k].meta.c_flag,
                t_flag: self.assets[k].meta.t_flag,
            };
            self.assets[k].meta = meta;
            let record: Vec<u8> = meta.to_bytes();
            push_all(&mut out, record.as_slice());
            proof {
                let done = placed(sealed(entries), parts);
                assert(self@[k as int] == done[k as int]);
                assert forall|j: int| 0 <= j < k + 1 implies (#[trigger] self@[j]) == done[j] by {
                    if j < k {
                        assert(self@[j] == before[j]);
                    }
                }
                assert forall|j: int| k + 1 <= j < slots implies (#[trigger] self@[j]) == sealed(entries)[j] by {
                    assert(self@[j] == before[j]);
                }
                assert(done.subrange(0, k + 1).drop_last() =~= done.subrange(0, k as int));
                assert(done.subrange(0, k + 1).last() == done[k as int]);
                assert(out@ =~= head + table_bytes(done.subrange(0, k + 1)));
            }
            offset = offset + size as u32;
            k += 1;
        }
        proof {
            let done = placed(sealed(entries), parts);
            assert(done.subrange(0, slots as int) =~= done);
            assert(self@ =~= done);
        }
        let ghost table = out@;
        let mut n: usize = 0;
        assert(parts.subrange(0, 0) =~= Seq::<Seq<u8>>::empty());
        while n < count
            invariant
                count == stored@.len(),
                count <= self.assets@.len(),
                self@ == placed(sealed(entries), parts),
                given == byte_views(stored@),
                parts == sealed_payloads(entries, given),
                entries.len() == count,
                n <= count,
                out@ == table + concat_all(parts.subrange(0, n as int)),
            decreases count - n,
        {
            if self.assets[n].data.is_some() {
                push_all(&mut out, stored[n].as_slice());
            }
            proof {
                assert(self@[n as int].data == entries[n as int].data);
                assert(parts.subrange(0, n + 1).drop_last() =~= parts.subrange(0, n as int));
                assert(parts.subrange(0, n + 1).last() == parts[n as int]);
                assert(out@ =~= table + concat_all(parts.subrange(0, n + 1)));
            }
            n += 1;
        }
        proof {
            if seal {
                assert(parts.drop_last() =~= parts.subrange(0, count as int));
                assert(parts.last() =~= Seq::<u8>::empty());
                assert(concat_all(parts) =~= concat_all(parts.subrange(0, count as int)));
            } else {
                assert(parts.subrange(0, count as int) =~= parts);
            }
        }
        Ok(out)
    }
}

/// The length of the first so many parts is never more than that of all.
pub proof fn lemma_total_len_grows(parts: Seq<Seq<u8>>, n: int)
    requires
        0 <= n <= parts.len(),
    ensures
        0 <= total_len(parts.subrange(0, n)) <= total_len(parts),
    decreases parts.len() - n,
{
    if n == parts.len() {
        assert(parts.subrange(0, n) =~= parts);
        lemma_total_len_positive(parts);
    } else {
        lemma_total_len_grows(parts, n + 1);
        lemma_total_len_positive(parts.subrange(0, n));
        assert(parts.subrange(0, n + 1).drop_last() =~= parts.subrange(0, n));
    }
}

proof fn lemma_total_len_positive(parts: Seq<Seq<u8>>)
    ensures
        0 <= total_len(parts),
    decreases parts.len(),
{
    if parts.len() > 0 {
        lemma_total_len_positive(parts.drop_last());
    }
}

impl AssetFolder {
    /// The manifest of the folder.
    pub fn manifest(&self) -> (out: String)
        ensures
            out@ == manifest_text(self@),
    {
        let mut out: String = String::from_str("tbl_len: 0x");
        push_hex(&mut out, self.assets.len() as u128 + 1);
        push_str(&mut out, "\n");
        push_str(&mut out, "files:\n");
        let ghost head = out@;
        let mut i: usize = 0;
        while i < self.assets.len()
            invariant
                i <= self.assets@.len(),
                out@ == head + manifest_rows(self@.subrange(0, i as int)),
            decreases self.assets@.len() - i,
        {
            let entry: &AssetEntry = &self.assets[i];
            proof {
                assert(self@.subrange(0, i + 1).drop_last() =~= self@.subrange(0, i as int));
                assert(self@.subrange(0, i + 1).last() == entry@);
            }
            match &entry.data {
                Some(asset) => {
                    let row: String = row_of(entry.uid, asset.get_type(), entry.meta);
                    push_str(&mut out, row.as_str());
                    assert(out@ =~= head + (manifest_rows(self@.subrange(0, i as int)) + row@));
                },
                None => {},
            }
            i += 1;
        }
        assert(self@.subrange(0, i as int) =~= self@);
        out
    }
}

/// The entries, with empty entries behind them up to `len` entries.
pub open spec fn widened(entries: Seq<EntryView>, len: int) -> Seq<EntryView> {
    if entries.len() < len {
        Seq::new(
            len as nat,
            |i: int|
                if i < entries.len() {
                    entries[i]
                } else {
                    EntryView::empty(i)
                },
        )
    } else {
        entries
    }
}

/// The entry that a row makes with the asset read from its file.
pub open spec fn entry_of_row(row: RowView, asset: AssetView) -> EntryView {
    EntryView {
        uid: row.uid,
        seg: 0,
        meta: AssetMeta { offset: 0, c_flag: row.compressed, t_flag: row.flags },
        data: Some(asset),
    }
}

/// The entries after each row, in the order of the manifest, has put its
/// entry at its place.
pub open spec fn filled(entries: Seq<EntryView>, rows: Seq<RowView>, assets: Seq<AssetView>) -> Seq<EntryView>
    decreases rows.len(),
{
    if rows.len() == 0 {
        entries
    } else {
        filled(entries, rows.drop_last(), assets.drop_last()).update(
            rows.last().uid,
            entry_of_row(rows.last(), assets.last()),
        )
    }
}

/// The assets that the files hold, each read as the kind that its row
/// names, where each file holds one.
pub open spec fn assets_of_files(rows: Seq<RowView>, files: Seq<Seq<u8>>) -> Option<Seq<AssetView>> {
    if forall|i: int| 0 <= i < rows.len() ==> (#[trigger] asset_of_file(rows[i].kind, files[i])) is Some {
        Some(Seq::new(rows.len(), |i: int| asset_of_file(rows[i].kind, files[i])->0))
    } else {
        None
    }
}

/// Reads the asset of each row from its file. The assets come last row
/// first, so that taking them off the end gives them in the order of the rows.
fn read_files(manifest: &Manifest, files: &Vec<Vec<u8>>) -> (r: Result<Vec<AnyAsset>, AssetError>)
    requires
        files@.len() == manifest.files@.len(),
    ensures
        match r {
            Ok(assets) => {
                &&& assets_of_files(manifest@.files, byte_views(files@)) matches Some(read)
                &&& assets@.len() == read.len()
                &&& forall|k: int| 0 <= k < read.len() ==> (#[trigger] assets@[k])@ == read[read.len() - 1 - k]
            },
            Err(e) => e == AssetError::CodecError && assets_of_files(manifest@.files, byte_views(files@)) is None,
        },
{
    let count: usize = manifest.files.len();
    let mut assets: Vec<AnyAsset> = Vec::new();
    let mut i: usize = count;
    while i > 0
        invariant
            count == manifest.files@.len(),
            files@.len() == count,
            i <= count,
            assets@.len() == count - i,
            forall|k: int|
                i <= k < count ==> #[trigger] asset_of_file(manifest@.files[k].kind, byte_views(files@)[k]) == Some(
                    assets@[count - 1 - k]@,
                ),
        decreases i,
    {
        i -= 1;
        match AnyAsset::read(manifest.files[i].kind.as_str(), files[i].as_slice()) {
            Ok(asset) => {
                assets.push(asset);
            },
            Err(e) => {
                assert(asset_of_file(manifest@.files[i as int].kind, byte_views(files@)[i as int]) is None);
                return Err(AssetError::CodecError);
            },
        }
    }
    proof {
        let read = assets_of_files(manifest@.files, byte_views(files@))->0;
        assert forall|k: int| 0 <= k < read.len() implies (#[trigger] assets@[k])@ == read[read.len() - 1 - k] by {
            let j = count - 1 - k;
            assert(asset_of_file(manifest@.files[j].kind, byte_views(files@)[j]) == Some(assets@[count - 1 - j]@));
        }
    }
    Ok(assets)
}

/// Whether the folder can take up the manifest with the files of its rows:
/// there is a file for each row, each file holds an asset of the kind that
/// its row names, and no row names a place that this machine cannot count.
pub open spec fn can_read(manifest: ManifestView, files: Seq<Seq<u8>>) -> bool {
    &&& files.len() == manifest.files.len()
    &&& max_uid(manifest.files) < usize::MAX
    &&& assets_of_files(manifest.files, files) is Some
}

impl AssetFolder {
    /// Takes up a manifest and the files of its rows. The folder grows, by
    /// empty entries, to the length that the manifest calls for. Then each
    /// row, in the order of the manifest, puts at its place an entry with
    /// the compression and the flag that the row gives and with the asset
    /// that its file holds. Fails, and leaves the folder as it is, where
    /// the manifest cannot be taken up with these files.
    pub fn read(&mut self, manifest: &Manifest, files: &Vec<Vec<u8>>) -> (r: Result<(), AssetError>)
        ensures
            match r {
                Ok(_) => can_read(manifest@, byte_views(files@)) && final(self)@ == filled(
                    widened(old(self)@, expected_len(manifest@)),
                    manifest@.files,
                    assets_of_files(manifest@.files, byte_views(files@))->0,
                ),
                Err(e) => {
                    &&& !can_read(manifest@, byte_views(files@))
                    &&& final(self)@ == old(self)@
                    &&& e == (if files@.len() == manifest.files@.len() && max_uid(manifest@.files) < usize::MAX {
                        AssetError::CodecError
                    } else {
                        AssetError::FormatError
                    })
                },
            },
    {
        if files.len() != manifest.files.len() {
            return Err(AssetError::FormatError);
        }
        let max_id: usize = greatest_uid(&manifest.files);
        if max_id == usize::MAX {
            return Err(AssetError::FormatError);
        }
        let mut assets: Vec<AnyAsset> = match read_files(manifest, files) {
            Ok(assets) => assets,
            Err(e) => {
                return Err(AssetError::CodecError);
            },
        };
        let ghost rows = manifest@.files;
        let ghost read = assets_of_files(rows, byte_views(files@))->0;
        let expect_len: usize = if manifest.tbl_len < max_id + 1 {
            max_id + 1
        } else {
            manifest.tbl_len
        };
        let ghost before = self@;
        while self.assets.len() < expect_len
            invariant
                before.len() <= self@.len(),
                self@.len() <= expect_len || self@.len() == before.len(),
                forall|i: int| 0 <= i < before.len() ==> (#[trigger] self@[i]) == before[i],
                forall|i: int| before.len() <= i < self@.len() ==> (#[trigger] self@[i]) == EntryView::empty(i),
            decreases expect_len - self.assets@.len(),
        {
            let ghost grown = self@;
            let next: usize = self.assets.len();
            self.assets.push(AssetEntry::new(next));
            assert forall|i: int| 0 <= i < before.len() implies (#[trigger] self@[i]) == before[i] by {
                assert(self@[i] == grown[i]);
            }
            assert forall|i: int| before.len() <= i < self@.len() implies (#[trigger] self@[i])
                == EntryView::empty(i) by {
                if i < grown.len() {
                    assert(self@[i] == grown[i]);
                }
            }
        }
        let count: usize = manifest.files.len();
        let mut i: usize = 0;
        assert(rows.subrange(0, 0) =~= Seq::<RowView>::empty());
        while i < count
            invariant
                count == manifest.files@.len(),
                rows == manifest@.files,
                read.len() == count,
                i <= count,
                assets@.len() == count - i,
                forall|k: int| 0 <= k < count - i ==> (#[trigger] assets@[k])@ == read[count - 1 - k],
                self@.len() == widened(before, expect_len as int).len(),
                self@.len() > max_uid(rows),
                self@ == filled(
                    widened(before, expect_len as int),
                    rows.subrange(0, i as int),
                    read.subrange(0, i as int),
                ),
            decreases count - i,
        {
            let row: &ManifestRow = &manifest.files[i];
            let asset: AnyAsset = assets.pop().unwrap();
            proof {
                lemma_max_uid_bounds(rows, i as int);
                assert(asset@ == read[i as int]);
                assert(rows.subrange(0, i + 1).drop_last() =~= rows.subrange(0, i as int));
                assert(read.subrange(0, i + 1).drop_last() =~= read.subrange(0, i as int));
            }
            self.assets[row.uid] = AssetEntry {
                uid: row.uid,
                seg: 0,
                meta: AssetMeta { offset: 0, c_flag: row.compressed, t_flag: row.flags },
                data: Some(asset),
            };
            i += 1;
        }
        assert(rows.subrange(0, count as int) =~= rows);
        assert(read.subrange(0, count as int) =~= read);
        Ok(())
    }
}

/// Whether `entries` and `stored` are what the archive `x` holds: an entry
/// for each slot but the last, with the slot's compression and flag and
/// with an asset where the slot is not empty, and for each entry with an
/// asset the payload as `x` stores it.
pub open spec fn holds(x: Seq<u8>, entries: Seq<EntryView>, stored: Seq<Seq<u8>>) -> bool {
    &&& entries.len() == entry_count(x)
    &&& stored.len() == entries.len()
    &&& forall|i: int|
        0 <= i < entries.len() ==> {
            &&& (#[trigger] entries[i]).meta.c_flag == slot_at(x, i).c_flag
            &&& entries[i].meta.t_flag == slot_at(x, i).t_flag
            &&& entries[i].data is Some <==> slot_at(x, i).t_flag != 4
            &&& entries[i].data is Some ==> stored[i] == stored_payload(x, i)
        }
}

proof fn lemma_offsets(x: Seq<u8>, entries: Seq<EntryView>, stored: Seq<Seq<u8>>, i: int)
    requires
        is_canonical(x),
        holds(x, entries, stored),
        0 <= i <= slot_count(x) - 1,
    ensures
        total_len(sealed_payloads(entries, stored).subrange(0, i)) == slot_at(x, i).offset,
        concat_all(sealed_payloads(entries, stored).subrange(0, i)) == x.subrange(
            data_start(x),
            data_start(x) + slot_at(x, i).offset,
        ),
        data_start(x) + slot_at(x, i).offset <= x.len(),
    decreases i,
{
    let parts = sealed_payloads(entries, stored);
    let start = data_start(x);
    if i == 0 {
        assert(parts.subrange(0, 0) =~= Seq::<Seq<u8>>::empty());
        assert(x.subrange(start, start) =~= Seq::<u8>::empty());
    } else {
        lemma_offsets(x, entries, stored, i - 1);
        assert(parts.subrange(0, i).drop_last() =~= parts.subrange(0, i - 1));
        assert(parts.subrange(0, i).last() == parts[i - 1]);
        assert(payload_fits(x, i - 1));
        let from = slot_at(x, i - 1).offset as int;
        let to = slot_at(x, i).offset as int;
        if slot_at(x, i - 1).t_flag == 4 {
            assert(entries[i - 1].data is None);
            assert(parts[i - 1] =~= Seq::<u8>::empty());
            assert(to == from);
        } else {
            assert(entries[i - 1].data is Some);
            assert(parts[i - 1] == stored_payload(x, i - 1));
            assert(x.subrange(start, start + from) + x.subrange(start + from, start + to) =~= x.subrange(
                start,
                start + to,
            ));
        }
    }
}

proof fn lemma_record_written_back(x: Seq<u8>, i: int)
    requires
        0 <= i,
        8 + 8 * i + 8 <= x.len(),
        x[(8 + 8 * i) + 4] == 0,
        x[(8 + 8 * i) + 5] <= 1,
    ensures
        slot_at(x, i).bytes() == x.subrange(8 + 8 * i, 16 + 8 * i),
{
    let at = 8 + 8 * i;
    lemma_u32_written_back(x, at);
    lemma_u16_written_back(x, at + 6);
    let meta = slot_at(x, i);
    assert(meta.offset == be_u32(x, at));
    assert(meta.t_flag == be_u16(x, at + 6));
    assert(seq![0u8, if meta.c_flag { 1u8 } else { 0u8 }] =~= x.subrange(at + 4, at + 6));
    assert(x.subrange(at, at + 4) + x.subrange(at + 4, at + 6) + x.subrange(at + 6, at + 8) =~= x.subrange(
        at,
        at + 8,
    ));
}

proof fn lemma_table(x: Seq<u8>, table: Seq<EntryView>, k: int)
    requires
        is_canonical(x),
        table.len() == slot_count(x),
        forall|i: int| 0 <= i < table.len() ==> (#[trigger] table[i]).meta == slot_at(x, i),
        0 <= k <= slot_count(x),
    ensures
        table_bytes(table.subrange(0, k)) == x.subrange(8, 8 + 8 * k),
    decreases k,
{
    if k == 0 {
        assert(table.subrange(0, 0) =~= Seq::<EntryView>::empty());
        assert(x.subrange(8, 8) =~= Seq::<u8>::empty());
    } else {
        lemma_table(x, table, k - 1);
        assert(table.subrange(0, k).drop_last() =~= table.subrange(0, k - 1));
        assert(table.subrange(0, k).last() == table[k - 1]);
        assert(x[(8 + 8 * (k - 1)) + 4] == 0 && x[(8 + 8 * (k - 1)) + 5] <= 1);
        lemma_record_written_back(x, k - 1);
        assert(x.subrange(8, 8 + 8 * (k - 1)) + x.subrange(8 + 8 * (k - 1), 16 + 8 * (k - 1)) =~= x.subrange(
            8,
            8 + 8 * k,
        ));
    }
}

proof fn lemma_made_data(x: Seq<u8>, entries: Seq<EntryView>, stored: Seq<Seq<u8>>)
    requires
        is_canonical(x),
        holds(x, entries, stored),
    ensures
        sealed(entries).len() == slot_count(x),
        entries.len() == slot_count(x) - 1,
        data_end(x) <= x.len(),
        total_len(sealed_payloads(entries, stored)) == slot_at(x, slot_count(x) - 1).offset,
        concat_all(sealed_payloads(entries, stored)) == x.subrange(data_start(x), data_end(x)),
{
    let n = slot_count(x);
    let parts = sealed_payloads(entries, stored);
    assert(entries.len() == n - 1);
    assert(entries.last().data is Some);
    lemma_offsets(x, entries, stored, n - 1);
    assert(parts.drop_last() =~= parts.subrange(0, n - 1));
    assert(parts.last() =~= Seq::<u8>::empty());
    assert(concat_all(parts) =~= concat_all(parts.subrange(0, n - 1)));
}

proof fn lemma_made_table(x: Seq<u8>, entries: Seq<EntryView>, stored: Seq<Seq<u8>>)
    requires
        is_canonical(x),
        holds(x, entries, stored),
    ensures
        table_bytes(placed(sealed(entries), sealed_payloads(entries, stored))) == x.subrange(8, data_start(x)),
{
    let n = slot_count(x);
    let parts = sealed_payloads(entries, stored);
    let table = placed(sealed(entries), parts);
    lemma_made_data(x, entries, stored);
    assert forall|i: int| 0 <= i < table.len() implies (#[trigger] table[i]).meta == slot_at(x, i) by {
        lemma_offsets(x, entries, stored, i);
        if i < n - 1 {
            assert(sealed(entries)[i] == entries[i]);
        } else {
            assert(sealed(entries)[i] == EntryView::empty(n - 1));
        }
    }
    lemma_table(x, table, n);
    assert(table.subrange(0, n) =~= table);
}

proof fn lemma_made_whole(x: Seq<u8>, entries: Seq<EntryView>, stored: Seq<Seq<u8>>)
    requires
        is_canonical(x),
        holds(x, entries, stored),
    ensures
        can_store(entries, stored),
        sealed(entries).len() == entries.len() + 1,
        archive_bytes(placed(sealed(entries), sealed_payloads(entries, stored)), sealed_payloads(entries, stored))
            == x.subrange(0, data_end(x)),
{
    let parts = sealed_payloads(entries, stored);
    let table = placed(sealed(entries), parts);
    lemma_made_data(x, entries, stored);
    lemma_made_table(x, entries, stored);
    lemma_u32_written_back(x, 0);
    assert(u32_be(table.len() as int) == x.subrange(0, 4));
    assert(table_bytes(table) == x.subrange(8, data_start(x)));
    assert(concat_all(parts) == x.subrange(data_start(x), data_end(x)));
    lemma_joined(x, data_start(x), data_end(x));
}

proof fn lemma_joined(x: Seq<u8>, start: int, end: int)
    requires
        8 <= start <= end <= x.len(),
    ensures
        x.subrange(0, 4) + x.subrange(4, 8) + x.subrange(8, start) + x.subrange(start, end) == x.subrange(0, end),
{
    assert(x.subrange(0, 4) + x.subrange(4, 8) + x.subrange(8, start) + x.subrange(start, end) =~= x.subrange(
        0,
        end,
    ));
}

/// An archive is made again as it was read. Where `x` is an archive as this
/// library makes one, and a folder holds its entries with the payloads as
/// `x` stores them, the archive made of the folder with these payloads
/// is, once its length is brought to a multiple of sixteen, `x` again:
/// one slot more than the folder has entries, and byte for byte the same.
pub proof fn lemma_archive_round_trip(x: Seq<u8>, entries: Seq<EntryView>, stored: Seq<Seq<u8>>)
    requires
        is_canonical(x),
        holds(x, entries, stored),
    ensures
        can_store(entries, stored),
        sealed(entries).len() == entries.len() + 1,
        padded16(
            archive_bytes(
                placed(sealed(entries), sealed_payloads(entries, stored)),
                sealed_payloads(entries, stored),
            ),
        ) == x,
{
    lemma_made_whole(x, entries, stored);
}

/// An archive is made again from a folder that was taken up from its
/// manifest. Such a folder has an entry for every slot of the archive, the
/// last of them empty. Where `x` is an archive as this library makes one,
/// and the folder holds, before its last entry, the entries of `x` with
/// the payloads as `x` stores them, the archive made of the folder is,
/// once its length is brought to a multiple of sixteen, `x` again, with
/// no slot more than the folder has entries.
pub proof fn lemma_archive_round_trip_by_manifest(x: Seq<u8>, entries: Seq<EntryView>, stored: Seq<Seq<u8>>)
    requires
        is_canonical(x),
        entries.len() == slot_count(x),
        stored.len() == entries.len(),
        entries.last() == EntryView::empty(entries.len() - 1),
        holds(x, entries.drop_last(), stored.drop_last()),
    ensures
        can_store(entries, stored),
        sealed(entries) == entries,
        padded16(
            archive_bytes(
                placed(sealed(entries), sealed_payloads(entries, stored)),
                sealed_payloads(entries, stored),
            ),
        ) == x,
{
    let before = entries.drop_last();
    let given = stored.drop_last();
    lemma_archive_round_trip(x, before, given);
    assert(sealed(before) =~= entries);
    assert(sealed_payloads(before, given) =~= sealed_payloads(entries, stored));
}

/// The manifest of an archive is settled by its slots and their payloads:
/// two folders made of the same slots have the same manifest.
pub proof fn lemma_manifest_determined(slots: Seq<StoredView>, first: Seq<EntryView>, second: Seq<EntryView>)
    requires
        entries_of(slots) == Some(first),
        entries_of(slots) == Some(second),
    ensures
        manifest_text(first) == manifest_text(second),
{
}

impl AssetFolder {
    /// The files that the folder is written as: first the manifest, then
    /// the files of every entry in the order of the table. Fails where a
    /// frame of a sprite is no image.
    pub fn write(&self) -> (r: Result<Vec<OutFile>, AssetError>)
        ensures
            match r {
                Ok(files) => folder_files(self@) == Some(file_views(files@)),
                Err(e) => e == AssetError::CodecError && folder_files(self@) is None,
            },
    {
        let mut files: Vec<OutFile> = Vec::new();
        let manifest = OutFile { path: String::from_str("assets.yaml"), bytes: text_file(&self.manifest()) };
        let ghost head = seq![manifest@];
        files.push(manifest);
        let mut i: usize = 0;
        while i < self.assets.len()
            invariant
                i <= self.assets@.len(),
                forall|k: int| 0 <= k < i ==> entry_files(#[trigger] self@[k]) is Some,
                file_views(files@) == head + files_upto(self@, i as nat),
            decreases self.assets@.len() - i,
        {
            let ghost before = file_views(files@);
            assert(self@[i as int] == self.assets@[i as int]@);
            let mut own: Vec<OutFile> = match self.assets[i].write() {
                Ok(own) => own,
                Err(e) => {
                    return Err(AssetError::CodecError);
                },
            };
            let ghost added = file_views(own@);
            files.append(&mut own);
            assert(file_views(files@) =~= before + added);
            i += 1;
        }
        Ok(files)
    }
}

/// Whether each entry stands at the place that its `uid` names.
pub open spec fn is_dense(entries: Seq<EntryView>) -> bool {
    forall|i: int| 0 <= i < entries.len() ==> (#[trigger] entries[i]).uid == i
}

/// In the folder of an archive each entry stands at the place that its
/// `uid` names.
pub proof fn lemma_entries_dense(slots: Seq<StoredView>)
    requires
        entries_of(slots) is Some,
    ensures
        is_dense(entries_of(slots)->0),
{
}

/// Making the archive leaves each entry at the place that its `uid` names.
pub proof fn lemma_stored_dense(entries: Seq<EntryView>, stored: Seq<Seq<u8>>)
    requires
        is_dense(entries),
    ensures
        is_dense(placed(sealed(entries), sealed_payloads(entries, stored))),
{
}

/// Taking up a manifest leaves each entry at the place that its `uid`
/// names.
pub proof fn lemma_read_dense(entries: Seq<EntryView>, manifest: ManifestView, assets: Seq<AssetView>)
    requires
        is_dense(entries),
        assets.len() == manifest.files.len(),
        forall|i: int| 0 <= i < manifest.files.len() ==> (#[trigger] manifest.files[i]).uid >= 0,
    ensures
        is_dense(filled(widened(entries, expected_len(manifest)), manifest.files, assets)),
{
    let wide = widened(entries, expected_len(manifest));
    lemma_filled_dense(wide, manifest.files, assets, manifest.files.len() as int);
    assert(manifest.files.subrange(0, manifest.files.len() as int) =~= manifest.files);
    assert(assets.subrange(0, manifest.files.len() as int) =~= assets);
}

proof fn lemma_filled_dense(entries: Seq<EntryView>, rows: Seq<RowView>, assets: Seq<AssetView>, n: int)
    requires
        is_dense(entries),
        assets.len() == rows.len(),
        0 <= n <= rows.len(),
        entries.len() > max_uid(rows),
        forall|i: int| 0 <= i < rows.len() ==> (#[trigger] rows[i]).uid >= 0,
    ensures
        is_dense(filled(entries, rows.subrange(0, n), assets.subrange(0, n))),
        filled(entries, rows.subrange(0, n), assets.subrange(0, n)).len() == entries.len(),
    decreases n,
{
    if n > 0 {
        lemma_filled_dense(entries, rows, assets, n - 1);
        lemma_max_uid_bounds(rows, n - 1);
        assert(rows.subrange(0, n).drop_last() =~= rows.subrange(0, n - 1));
        assert(assets.subrange(0, n).drop_last() =~= assets.subrange(0, n - 1));
    }
}

} // verus!
