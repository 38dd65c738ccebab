//! Strings of game text, each with a command byte, and lists of them.

use vstd::prelude::*;
use vstd::string::StringExecFns;
use vstd::utf8::encode_utf8;
use crate::bytes::{copy_all, copy_range, push_all};
use crate::error::AssetError;
use crate::text::{hex2, push_hex2, push_str, stored_of, string_to_vecu8, text_of, vecu8_to_string};
use crate::yaml::Node;

verus! {

/// A string of game text with its command byte.
pub struct BKString {
    pub cmd: u8,
    pub string: Vec<u8>,
}

/// What a [`BKString`] holds, as plain values.
pub struct BKStringView {
    pub cmd: u8,
    pub string: Seq<u8>,
}

impl View for BKString {
    type V = BKStringView;

    open spec fn view(&self) -> BKStringView {
        BKStringView { cmd: self.cmd, string: self.string@ }
    }
}

impl BKString {
    /// The line of text for the string in a list.
    pub fn write_line(&self) -> (out: String)
        ensures
            out@ == self@.line(),
    {
        let mut out: String = String::from_str("  - { cmd: 0x");
        push_hex2(&mut out, self.cmd as u128);
        push_str(&mut out, ", string: \"");
        let shown: String = vecu8_to_string(&self.string);
        push_str(&mut out, shown.as_str());
        push_str(&mut out, "\"}\n");
        out
    }

    /// The string that a mapping with `cmd` and `string` stands for.
    pub fn from_yaml(yaml: &Node) -> (r: Result<BKString, AssetError>)
        ensures
            match r {
                Ok(s) => string_of_node(*yaml) == Some(s@),
                Err(e) => e == AssetError::CodecError && string_of_node(*yaml) is None,
            },
    {
        let cmd: i64 = match yaml.get_int("cmd") {
            Some(cmd) => cmd,
            None => {
                return Err(AssetError::CodecError);
            },
        };
        let text: &String = match yaml.get_text("string") {
            Some(text) => text,
            None => {
                return Err(AssetError::CodecError);
            },
        };
        if cmd < 0 || cmd > 0xFF {
            return Err(AssetError::CodecError);
        }
        Ok(BKString { cmd: cmd as u8, string: string_to_vecu8(text.as_str()) })
    }
}

impl Clone for BKString {
    fn clone(&self) -> (out: BKString)
        ensures
            out@ == self@,
    {
        BKString { cmd: self.cmd, string: copy_all(self.string.as_slice()) }
    }
}

/// The views of a list of strings.
pub open spec fn views(list: Seq<BKString>) -> Seq<BKStringView> {
    Seq::new(list.len(), |i: int| list[i]@)
}

impl BKStringView {
    /// A string can be stored where one byte can hold its length.
    pub open spec fn wf(self) -> bool {
        self.string.len() <= 0xFF
    }

    /// The record of the string: command byte, length byte, the bytes.
    pub open spec fn record(self) -> Seq<u8> {
        seq![self.cmd, self.string.len() as u8] + self.string
    }

    /// The line of text for the string in a list.
    pub open spec fn line(self) -> Seq<char> {
        "  - { cmd: 0x"@ + hex2(self.cmd as nat) + ", string: \""@ + text_of(self.string) + "\"}\n"@
    }
}

/// Whether each string of the list can be stored.
pub open spec fn all_wf(list: Seq<BKStringView>) -> bool {
    forall|i: int| 0 <= i < list.len() ==> (#[trigger] list[i]).wf()
}

/// The records of a list of strings, one after the other.
pub open spec fn records_bytes(list: Seq<BKStringView>) -> Seq<u8>
    decreases list.len(),
{
    if list.len() == 0 {
        Seq::empty()
    } else {
        records_bytes(list.drop_last()) + list.last().record()
    }
}

/// The lines of text of a list of strings, one after the other.
pub open spec fn records_text(list: Seq<BKStringView>) -> Seq<char>
    decreases list.len(),
{
    if list.len() == 0 {
        Seq::empty()
    } else {
        records_text(list.drop_last()) + list.last().line()
    }
}

/// Whether `b` holds a whole record at `at`.
pub open spec fn record_fits(b: Seq<u8>, at: int) -> bool {
    &&& 0 <= at
    &&& at + 2 <= b.len()
    &&& at + 2 + b[at + 1] <= b.len()
}

/// Where the record at `at` ends.
pub open spec fn record_end(b: Seq<u8>, at: int) -> int {
    at + 2 + b[at + 1]
}

/// The string whose record is at `at`.
pub open spec fn record_at(b: Seq<u8>, at: int) -> BKStringView {
    BKStringView { cmd: b[at], string: b.subrange(at + 2, record_end(b, at)) }
}

/// Where the `k`-th of the records that follow one another from `start` begins.
pub open spec fn record_offset(b: Seq<u8>, start: int, k: nat) -> int
    decreases k,
{
    if k == 0 {
        start
    } else {
        record_end(b, record_offset(b, start, (k - 1) as nat))
    }
}

/// Whether `b` holds the first `n` records from `start` in full.
pub open spec fn records_fit(b: Seq<u8>, start: int, n: nat) -> bool {
    forall|k: nat| k < n ==> record_fits(b, #[trigger] record_offset(b, start, k))
}

/// The strings of the first `n` records from `start`.
pub open spec fn records_at(b: Seq<u8>, start: int, n: nat) -> Seq<BKStringView> {
    Seq::new(n, |k: int| record_at(b, record_offset(b, start, k as nat)))
}

/// Reads `count` records from `*offset` on and moves the offset behind them.
/// Fails where `in_bytes` ends before a record does.
pub fn read_records(in_bytes: &[u8], offset: &mut usize, count: u8) -> (r: Result<Vec<BKString>, AssetError>)
    requires
        *old(offset) <= in_bytes.len(),
    ensures
        match r {
            Ok(list) => {
                &&& records_fit(in_bytes@, *old(offset) as int, count as nat)
                &&& views(list@) == records_at(in_bytes@, *old(offset) as int, count as nat)
                &&& all_wf(views(list@))
                &&& *final(offset) == record_offset(in_bytes@, *old(offset) as int, count as nat)
                &&& *final(offset) <= in_bytes.len()
            },
            Err(e) => e == AssetError::CodecError && !records_fit(in_bytes@, *old(offset) as int, count as nat),
        },
{
    let ghost start = *offset as int;
    let mut list: Vec<BKString> = Vec::new();
    let mut i: u8 = 0;
    while i < count
        invariant
            i <= count,
            start == *old(offset),
            *offset <= in_bytes.len(),
            *offset == record_offset(in_bytes@, start, i as nat),
            list@.len() == i,
            forall|k: nat| k < i ==> record_fits(in_bytes@, #[trigger] record_offset(in_bytes@, start, k)),
            forall|k: int|
                0 <= k < i ==> (#[trigger] list@[k])@ == record_at(
                    in_bytes@,
                    record_offset(in_bytes@, start, k as nat),
                ),
        decreases count - i,
    {
        let at: usize = *offset;
        if in_bytes.len() - at < 2 {
            return Err(AssetError::CodecError);
        }
        let cmd: u8 = in_bytes[at];
        let str_size: usize = in_bytes[at + 1] as usize;
        if in_bytes.len() - at - 2 < str_size {
            return Err(AssetError::CodecError);
        }
        list.push(BKString { cmd, string: copy_range(in_bytes, at + 2, at + 2 + str_size) });
        *offset = at + 2 + str_size;
        i += 1;
    }
    Ok(list)
}

/// Appends the record of each string of the list.
pub fn push_records(out: &mut Vec<u8>, list: &[BKString])
    requires
        all_wf(views(list@)),
    ensures
        final(out)@ == old(out)@ + records_bytes(views(list@)),
{
    let mut i: usize = 0;
    while i < list.len()
        invariant
            i <= list.len(),
            all_wf(views(list@)),
            out@ == old(out)@ + records_bytes(views(list@).subrange(0, i as int)),
        decreases list.len() - i,
    {
        let text: &BKString = &list[i];
        out.push(text.cmd);
        out.push(text.string.len() as u8);
        push_all(out, text.string.as_slice());
        proof {
            assert(views(list@).subrange(0, i + 1).drop_last() =~= views(list@).subrange(0, i as int));
        }
        i += 1;
    }
    assert(views(list@).subrange(0, i as int) =~= views(list@));
}

/// Appends the line of text of each string of the list.
pub fn push_lines(out: &mut String, list: &[BKString])
    ensures
        final(out)@ == old(out)@ + records_text(views(list@)),
{
    let mut i: usize = 0;
    while i < list.len()
        invariant
            i <= list.len(),
            out@ == old(out)@ + records_text(views(list@).subrange(0, i as int)),
        decreases list.len() - i,
    {
        let text: &BKString = &list[i];
        let line: String = text.write_line();
        push_str(out, line.as_str());
        proof {
            assert(views(list@).subrange(0, i + 1).drop_last() =~= views(list@).subrange(0, i as int));
        }
        i += 1;
    }
    assert(views(list@).subrange(0, i as int) =~= views(list@));
}

/// Whether each string of the list can be stored.
pub fn all_fit(list: &[BKString]) -> (r: bool)
    ensures
        r == all_wf(views(list@)),
{
    let mut i: usize = 0;
    while i < list.len()
        invariant
            i <= list.len(),
            forall|k: int| 0 <= k < i ==> (#[trigger] views(list@)[k]).wf(),
        decreases list.len() - i,
    {
        if list[i].string.len() > 0xFF {
            assert(!views(list@)[i as int].wf());
            return false;
        }
        i += 1;
    }
    true
}

/// The string that a mapping with a `cmd` from 0 to 255 and a `string`
/// stands for.
pub open spec fn string_of_node(node: Node) -> Option<BKStringView> {
    match (node.int_field("cmd"@), node.text_field("string"@)) {
        (Some(cmd), Some(text)) => if 0 <= cmd <= 0xFF {
            Some(BKStringView { cmd: cmd as u8, string: stored_of(encode_utf8(text@)) })
        } else {
            None
        },
        _ => None,
    }
}

/// The strings that a sequence of such mappings stands for, where each of
/// them stands for one.
pub open spec fn strings_of_nodes(items: Seq<Node>) -> Option<Seq<BKStringView>> {
    if forall|i: int| 0 <= i < items.len() ==> string_of_node(#[trigger] items[i]) is Some {
        Some(Seq::new(items.len(), |i: int| string_of_node(items[i])->0))
    } else {
        None
    }
}

/// The strings that the document lists under `key`.
pub open spec fn strings_field(doc: Node, key: Seq<char>) -> Option<Seq<BKStringView>> {
    match doc.list_field(key) {
        Some(items) => strings_of_nodes(items),
        None => None,
    }
}

/// The strings that the document lists under `key`.
pub fn read_strings(doc: &Node, key: &str) -> (r: Result<Vec<BKString>, AssetError>)
    ensures
        match r {
            Ok(list) => strings_field(*doc, key@) == Some(views(list@)),
            Err(e) => e == AssetError::CodecError && strings_field(*doc, key@) is None,
        },
{
    let items: &[Node] = match doc.get_list(key) {
        Some(items) => items,
        None => {
            return Err(AssetError::CodecError);
        },
    };
    let mut list: Vec<BKString> = Vec::new();
    let mut i: usize = 0;
    while i < items.len()
        invariant
            doc.list_field(key@) == Some(items@),
            i <= items@.len(),
            list@.len() == i,
            forall|k: int| 0 <= k < i ==> string_of_node(#[trigger] items@[k]) == Some(list@[k]@),
        decreases items@.len() - i,
    {
        match BKString::from_yaml(&items[i]) {
            Ok(s) => {
                list.push(s);
            },
            Err(e) => {
                return Err(AssetError::CodecError);
            },
        }
        i += 1;
    }
    Ok(list)
}

/// Records that were written are read back as the strings they were
/// written from: where `b` holds the records of `list` from `start` on, the
/// first `list.len()` records from `start` fit, are the strings of `list`,
/// and end where the written bytes end.
pub proof fn lemma_records_read_back(b: Seq<u8>, start: int, list: Seq<BKStringView>)
    requires
        all_wf(list),
        0 <= start,
        start + records_bytes(list).len() <= b.len(),
        b.subrange(start, start + records_bytes(list).len()) == records_bytes(list),
    ensures
        records_fit(b, start, list.len()),
        records_at(b, start, list.len()) == list,
        record_offset(b, start, list.len()) == start + records_bytes(list).len(),
    decreases list.len(),
{
    let n = list.len();
    if n > 0 {
        let init = list.drop_last();
        let last = list.last();
        let written = records_bytes(list);
        let at = start + records_bytes(init).len();
        assert(b.subrange(start, at) =~= written.subrange(0, records_bytes(init).len() as int));
        assert(written.subrange(0, records_bytes(init).len() as int) =~= records_bytes(init));
        lemma_records_read_back(b, start, init);
        assert(b[at] == written[at - start]);
        assert(b[at + 1] == written[at + 1 - start]);
        assert(b.subrange(at + 2, at + 2 + last.string.len()) =~= last.string) by {
            assert forall|i: int| 0 <= i < last.string.len() implies b[at + 2 + i] == last.string[i] by {
                assert(b[at + 2 + i] == written[at + 2 + i - start]);
            }
        }
        assert(records_at(b, start, n) =~= list) by {
            assert forall|k: int| 0 <= k < n implies records_at(b, start, n)[k] == list[k] by {
                if k < n - 1 {
                    assert(records_at(b, start, (n - 1) as nat)[k] == init[k]);
                }
            }
        }
    }
}

/// Records that were read are written back as the bytes they were read
/// from: where the first `n` records from `start` fit in `b`, their strings
/// can be stored, and their records are the bytes of `b` from `start` to
/// where the last of them ends.
pub proof fn lemma_records_written_back(b: Seq<u8>, start: int, n: nat)
    requires
        0 <= start <= b.len(),
        records_fit(b, start, n),
    ensures
        all_wf(records_at(b, start, n)),
        start <= record_offset(b, start, n) <= b.len(),
        records_bytes(records_at(b, start, n)) == b.subrange(start, record_offset(b, start, n)),
    decreases n,
{
    if n > 0 {
        let m = (n - 1) as nat;
        lemma_records_written_back(b, start, m);
        let list = records_at(b, start, n);
        assert(list.drop_last() =~= records_at(b, start, m));
    }
}

/// The records of two lists that follow one another are the records of the
/// one list made of both.
pub proof fn lemma_records_bytes_concat(a: Seq<BKStringView>, b: Seq<BKStringView>)
    ensures
        records_bytes(a + b) == records_bytes(a) + records_bytes(b),
    decreases b.len(),
{
    if b.len() > 0 {
        lemma_records_bytes_concat(a, b.drop_last());
        assert((a + b).drop_last() =~= a + b.drop_last());
    }
}

} // verus!
