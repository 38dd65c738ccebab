//! The table of slots in front of an archive, and the payloads it bounds.

use vstd::prelude::*;
use crate::bytes::{be_u16, be_u32, copy_range, padded16, push_u16, push_u32, read_u16, read_u32, u16_be, u32_be};
use crate::error::AssetError;

verus! {

/// One slot of the table: where its payload begins in the data region,
/// whether the payload is compressed, and the flag that tells an empty
/// slot (4), a slot that goes on with its segment (2), and every other.
#[derive(Clone, Copy, Debug, PartialEq, Eq, Structural)]
pub struct AssetMeta {
    pub offset: u32,
    pub c_flag: bool,
    pub t_flag: u16,
}

/// The slot whose record of eight bytes is at `at`.
pub open spec fn meta_at(b: Seq<u8>, at: int) -> AssetMeta {
    AssetMeta { offset: be_u32(b, at) as u32, c_flag: be_u16(b, at + 4) != 0, t_flag: be_u16(b, at + 6) as u16 }
}

impl AssetMeta {
    /// The record of the slot: the offset, a zero byte, a byte that is one
    /// for a compressed payload, and the flag.
    pub open spec fn bytes(self) -> Seq<u8> {
        u32_be(self.offset as int) + seq![0u8, if self.c_flag { 1u8 } else { 0u8 }] + u16_be(self.t_flag as int)
    }

    /// The slot that an empty entry has.
    pub open spec fn empty() -> AssetMeta {
        AssetMeta { offset: 0, c_flag: false, t_flag: 4 }
    }

    /// Reads a slot from its record of eight bytes.
    pub fn from_bytes(in_bytes: &[u8]) -> (meta: AssetMeta)
        requires
            in_bytes.len() >= 8,
        ensures
            meta == meta_at(in_bytes@, 0),
    {
        meta_from(in_bytes, 0)
    }

    /// The record of the slot.
    pub fn to_bytes(&self) -> (out: Vec<u8>)
        ensures
            out@ == self.bytes(),
    {
        let mut out: Vec<u8> = Vec::new();
        push_u32(&mut out, self.offset);
        out.push(0x00);
        out.push(if self.c_flag {
            1
        } else {
            0
        });
        push_u16(&mut out, self.t_flag);
        out
    }
}

/// The number of slots that the archive's first four bytes give.
pub open spec fn slot_count(x: Seq<u8>) -> int {
    be_u32(x, 0)
}

/// Where the payloads of the archive begin: behind the table.
pub open spec fn data_start(x: Seq<u8>) -> int {
    8 + 8 * slot_count(x)
}

/// The `i`-th slot of the archive's table.
pub open spec fn slot_at(x: Seq<u8>, i: int) -> AssetMeta {
    meta_at(x, 8 + 8 * i)
}

/// How many entries the archive has: one for every slot but the last,
/// which only bounds the payload of the slot before it.
pub open spec fn entry_count(x: Seq<u8>) -> int {
    if slot_count(x) == 0 {
        0
    } else {
        slot_count(x) - 1
    }
}

/// Whether `x` holds the whole payload of its `i`-th slot. An empty slot
/// has none.
pub open spec fn payload_fits(x: Seq<u8>, i: int) -> bool {
    slot_at(x, i).t_flag != 4 ==> slot_at(x, i).offset <= slot_at(x, i + 1).offset && data_start(x) + slot_at(
        x,
        i + 1,
    ).offset <= x.len()
}

/// The payload of the `i`-th slot as the archive stores it: the bytes of
/// the data region from the offset of the slot to that of the next.
pub open spec fn stored_payload(x: Seq<u8>, i: int) -> Seq<u8> {
    if slot_at(x, i).t_flag == 4 {
        Seq::empty()
    } else {
        x.subrange(data_start(x) + slot_at(x, i).offset, data_start(x) + slot_at(x, i + 1).offset)
    }
}

/// Whether `x` holds a whole archive: the count, the table, and the payload
/// of every entry.
pub open spec fn archive_fits(x: Seq<u8>) -> bool {
    &&& x.len() >= 8
    &&& data_start(x) <= x.len()
    &&& forall|i: int| 0 <= i < entry_count(x) ==> #[trigger] payload_fits(x, i)
}

/// A slot together with its payload.
pub struct StoredAsset {
    pub meta: AssetMeta,
    pub bytes: Vec<u8>,
}

/// What a [`StoredAsset`] holds, as plain values.
pub struct StoredView {
    pub meta: AssetMeta,
    pub bytes: Seq<u8>,
}

impl View for StoredAsset {
    type V = StoredView;

    open spec fn view(&self) -> StoredView {
        StoredView { meta: self.meta, bytes: self.bytes@ }
    }
}

impl StoredView {
    /// Whether the payload is stored compressed: the slot says so and is
    /// not empty.
    pub open spec fn is_packed(self) -> bool {
        self.meta.c_flag && self.meta.t_flag != 4
    }
}

impl StoredAsset {
    /// Whether the payload is stored compressed, and has to be unpacked
    /// before it is read as an asset.
    pub fn is_packed(&self) -> (packed: bool)
        ensures
            packed == self@.is_packed(),
    {
        self.meta.c_flag && self.meta.t_flag != 4
    }
}

/// The slots of the archive `x`, each with its payload as it is stored.
pub open spec fn stored_assets(x: Seq<u8>) -> Seq<StoredView> {
    Seq::new(entry_count(x) as nat, |i: int| StoredView { meta: slot_at(x, i), bytes: stored_payload(x, i) })
}

/// The views of a list of slots with their payloads.
pub open spec fn stored_views(list: Seq<StoredAsset>) -> Seq<StoredView> {
    Seq::new(list.len(), |i: int| list[i]@)
}

/// Reads the table of an archive and cuts the data region into the
/// payloads of its slots, each as it is stored: a compressed one still
/// compressed. Fails where the bytes end before the table or a payload does.
pub fn read_slots(in_bytes: &[u8]) -> (r: Result<Vec<StoredAsset>, AssetError>)
    ensures
        match r {
            Ok(list) => archive_fits(in_bytes@) && stored_views(list@) == stored_assets(in_bytes@),
            Err(e) => e == AssetError::FormatError && !archive_fits(in_bytes@),
        },
{
    if in_bytes.len() < 8 {
        return Err(AssetError::FormatError);
    }
    let count: u32 = read_u32(in_bytes, 0);
    if count as u64 > ((in_bytes.len() - 8) / 8) as u64 {
        return Err(AssetError::FormatError);
    }
    let slots: usize = count as usize;
    let data: usize = 8 + 8 * slots;
    let entries: usize = if slots == 0 {
        0
    } else {
        slots - 1
    };
    let mut list: Vec<StoredAsset> = Vec::new();
    let mut i: usize = 0;
    while i < entries
        invariant
            in_bytes.len() >= 8,
            slots == slot_count(in_bytes@),
            data == data_start(in_bytes@),
            data <= in_bytes.len(),
            entries == entry_count(in_bytes@),
            i <= entries,
            list@.len() == i,
            forall|k: int| 0 <= k < i ==> #[trigger] payload_fits(in_bytes@, k),
            forall|k: int|
                0 <= k < i ==> (#[trigger] list@[k])@ == (StoredView {
                    meta: slot_at(in_bytes@, k),
                    bytes: stored_payload(in_bytes@, k),
                }),
        decreases entries - i,
    {
        let this: AssetMeta = meta_from(in_bytes, 8 + 8 * i);
        let next: AssetMeta = meta_from(in_bytes, 16 + 8 * i);
        let bytes: Vec<u8> = if this.t_flag == 4 {
            Vec::new()
        } else {
            if this.offset > next.offset || next.offset as u64 > (in_bytes.len() - data) as u64 {
                assert(!payload_fits(in_bytes@, i as int));
                return Err(AssetError::FormatError);
            }
            copy_range(in_bytes, data + this.offset as usize, data + next.offset as usize)
        };
        list.push(StoredAsset { meta: this, bytes });
        i += 1;
    }
    Ok(list)
}

/// Reads the slot whose record is at `at`.
pub fn meta_from(in_bytes: &[u8], at: usize) -> (meta: AssetMeta)
    requires
        at + 8 <= in_bytes.len(),
    ensures
        meta == meta_at(in_bytes@, at as int),
{
    let offset: u32 = read_u32(in_bytes, at);
    let c_flag: u16 = read_u16(in_bytes, at + 4);
    let t_flag: u16 = read_u16(in_bytes, at + 6);
    AssetMeta { offset, c_flag: c_flag != 0, t_flag }
}

/// Whether a slot of the archive that is not empty has a compressed payload.
pub open spec fn is_packed(x: Seq<u8>) -> bool {
    exists|i: int| 0 <= i < entry_count(x) && (#[trigger] slot_at(x, i)).c_flag && slot_at(x, i).t_flag != 4
}

/// Where the payloads of the archive end.
pub open spec fn data_end(x: Seq<u8>) -> int {
    data_start(x) + slot_at(x, slot_count(x) - 1).offset
}

/// Whether `x` is an archive as this library makes one from a folder whose
/// last entry has an asset: it has at least two slots, of which the last is
/// an empty one that is not compressed and the one before it is not
/// empty; the four bytes behind the count are 0xFF; in each record the
/// fifth byte is zero and the sixth is zero or one; the first payload
/// begins at offset zero, and an empty slot takes no room; and behind the
/// payloads stand only the zero bytes that bring the length to a multiple
/// of sixteen.
pub open spec fn is_canonical(x: Seq<u8>) -> bool {
    &&& archive_fits(x)
    &&& slot_count(x) >= 2
    &&& x.subrange(4, 8) == seq![0xFFu8, 0xFFu8, 0xFFu8, 0xFFu8]
    &&& slot_at(x, 0).offset == 0
    &&& forall|i: int|
        0 <= i < slot_count(x) ==> x[#[trigger] (8 + 8 * i) + 4] == 0 && x[(8 + 8 * i) + 5] <= 1
    &&& forall|i: int|
        0 <= i < slot_count(x) - 1 && (#[trigger] slot_at(x, i)).t_flag == 4 ==> slot_at(x, i + 1).offset
            == slot_at(x, i).offset
    &&& slot_at(x, slot_count(x) - 1).t_flag == 4
    &&& !slot_at(x, slot_count(x) - 1).c_flag
    &&& slot_at(x, slot_count(x) - 2).t_flag != 4
    &&& x == padded16(x.subrange(0, data_end(x)))
}

} // verus!
