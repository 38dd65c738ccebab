//! Recorded controller input for the demo sequences.

use vstd::prelude::*;
use vstd::string::StringExecFns;
use vstd::utf8::encode_utf8;
use crate::asset::{text_file, Asset};
use crate::bytes::{
    be_u16, be_u32, copy_all, lemma_u16_read_back, lemma_u16_written_back, lemma_u32_read_back,
    lemma_u32_written_back, push_u16, push_u32, read_u16, read_u32, u16_be, u32_be,
};
use crate::error::AssetError;
use crate::kind::AssetType;
use crate::text::{dec3, dec_digits, hex2, hex4, push_dec, push_dec3, push_hex2, push_hex4, push_str};
use crate::yaml::{document_of, has_type, is_of_type, load_document, Node};

verus! {

/// One sample of the controller: the stick, the buttons, and for how many
/// frames it is held.
#[derive(Clone, Copy, Debug, PartialEq, Eq, Structural)]
pub struct ContInput {
    pub x: i8,
    pub y: i8,
    pub buttons: u16,
    pub frames: u8,
}

/// The byte that stores a signed value in two's complement.
pub open spec fn signed_byte(v: i8) -> u8 {
    if v < 0 {
        (v + 256) as u8
    } else {
        v as u8
    }
}

/// The signed value that a byte stores in two's complement.
pub open spec fn byte_signed(b: u8) -> i8 {
    if b >= 128 {
        (b - 256) as i8
    } else {
        b as i8
    }
}

/// The sample whose record is at `at`.
pub open spec fn input_at(b: Seq<u8>, at: int) -> ContInput {
    ContInput {
        x: byte_signed(b[at]),
        y: byte_signed(b[at + 1]),
        buttons: be_u16(b, at + 2) as u16,
        frames: b[at + 4],
    }
}

impl ContInput {
    /// The six bytes of the sample's record; the last of them is zero.
    pub open spec fn bytes(self) -> Seq<u8> {
        seq![signed_byte(self.x), signed_byte(self.y)] + u16_be(self.buttons as int) + seq![self.frames, 0u8]
    }

    /// The line of text for the sample.
    pub open spec fn line(self) -> Seq<char> {
        "  - {x: "@ + dec3(self.x as int) + ", y: "@ + dec3(self.y as int) + ", buttons: 0x"@ + hex4(
            self.buttons as nat,
        ) + ", frames: "@ + dec_digits(self.frames as nat) + "}\n"@
    }

    /// The line of text for the sample.
    pub fn write_line(&self) -> (out: String)
        ensures
            out@ == self.line(),
    {
        let mut out: String = String::from_str("  - {x: ");
        push_dec3(&mut out, self.x);
        push_str(&mut out, ", y: ");
        push_dec3(&mut out, self.y);
        push_str(&mut out, ", buttons: 0x");
        push_hex4(&mut out, self.buttons as u128);
        push_str(&mut out, ", frames: ");
        push_dec(&mut out, self.frames as u128);
        push_str(&mut out, "}\n");
        out
    }

    /// The six bytes of the sample's record.
    pub fn to_bytes(&self) -> (out: Vec<u8>)
        ensures
            out@ == self.bytes(),
    {
        let mut out: Vec<u8> = Vec::new();
        out.push(store_signed(self.x));
        out.push(store_signed(self.y));
        push_u16(&mut out, self.buttons);
        out.push(self.frames);
        out.push(0);
        out
    }
}

/// The byte that stores a signed value in two's complement.
pub fn store_signed(v: i8) -> (b: u8)
    ensures
        b == signed_byte(v),
{
    if v < 0 {
        (v as i16 + 256) as u8
    } else {
        v as u8
    }
}

/// The signed value that a byte stores in two's complement.
pub fn load_signed(b: u8) -> (v: i8)
    ensures
        v == byte_signed(b),
{
    if b >= 128 {
        (b as i16 - 256) as i8
    } else {
        b as i8
    }
}

/// A recorded demo: the flag of its first frame, the samples in order, and
/// the bytes it is stored as.
///
/// A demo that was read from a payload keeps the bytes of the payload, and
/// is stored again as exactly these. A demo that was made from its
/// samples, or read from a text, is stored as its samples are written. A
/// demo without samples is always stored as no bytes at all.
pub struct DemoButtonFile {
    inputs: Vec<ContInput>,
    frame1_flag: u8,
    bytes: Vec<u8>,
}

/// What a [`DemoButtonFile`] holds, as plain values.
pub struct DemoView {
    pub inputs: Seq<ContInput>,
    pub frame1_flag: u8,
    pub stored: Seq<u8>,
}

impl View for DemoButtonFile {
    type V = DemoView;

    closed spec fn view(&self) -> DemoView {
        DemoView { inputs: self.inputs@, frame1_flag: self.frame1_flag, stored: self.bytes@ }
    }
}

/// The lines of text of the samples, one after the other.
pub open spec fn inputs_text(inputs: Seq<ContInput>) -> Seq<char>
    decreases inputs.len(),
{
    if inputs.len() == 0 {
        Seq::empty()
    } else {
        inputs_text(inputs.drop_last()) + inputs.last().line()
    }
}

/// Whether the samples can be written as a demo: 32 bits can hold the
/// length of their records.
pub open spec fn demo_wf(inputs: Seq<ContInput>) -> bool {
    6 * inputs.len() <= u32::MAX
}

/// The records of the samples, one after the other, with the flag in the
/// last byte of the first record.
pub open spec fn demo_records(inputs: Seq<ContInput>, frame1_flag: u8) -> Seq<u8> {
    Seq::new(
        6 * inputs.len(),
        |k: int|
            if k == 5 {
                frame1_flag
            } else {
                inputs[k / 6].bytes()[k % 6]
            },
    )
}

/// The samples written as a demo: nothing at all where there are none,
/// else the length of the records and the records.
pub open spec fn demo_written(inputs: Seq<ContInput>, frame1_flag: u8) -> Seq<u8> {
    if inputs.len() == 0 {
        Seq::empty()
    } else {
        u32_be(6 * inputs.len() as int) + demo_records(inputs, frame1_flag)
    }
}

/// The demo made of the samples: it is stored as they are written.
pub open spec fn demo_made(inputs: Seq<ContInput>, frame1_flag: u8) -> DemoView {
    DemoView { inputs, frame1_flag, stored: demo_written(inputs, frame1_flag) }
}

impl DemoView {
    /// The demo as the text of a file.
    pub open spec fn text(self) -> Seq<char> {
        "type: DemoInput\n"@ + "flag: 0x"@ + hex2(self.frame1_flag as nat) + "\n"@ + (if self.inputs.len()
            == 0 {
            "inputs: []\n"@
        } else {
            "inputs:\n"@ + inputs_text(self.inputs)
        })
    }
}

/// How many whole records follow the length in `b`.
pub open spec fn demo_count(b: Seq<u8>) -> int {
    (b.len() - 4) / 6
}

/// Whether `b` holds a demo: fewer than four bytes stand for the empty
/// demo; else the length in front is that of the whole records behind it,
/// and the first record is there.
pub open spec fn demo_fits(b: Seq<u8>) -> bool {
    b.len() >= 4 ==> b.len() >= 10 && be_u32(b, 0) == 6 * demo_count(b)
}

/// The demo stored in `b`. Fewer than four bytes stand for the demo
/// without samples and with flag zero, which is stored as no bytes at
/// all; any other demo keeps all of `b`.
pub open spec fn demo_of(b: Seq<u8>) -> DemoView {
    if b.len() < 4 {
        DemoView { inputs: Seq::empty(), frame1_flag: 0, stored: Seq::empty() }
    } else {
        DemoView {
            inputs: Seq::new(demo_count(b) as nat, |k: int| input_at(b, 4 + 6 * k)),
            frame1_flag: b[9],
            stored: b,
        }
    }
}

impl DemoButtonFile {
    /// A demo of the given samples, unless their records are longer than 32
    /// bits can say.
    pub fn new(inputs: Vec<ContInput>, frame1_flag: u8) -> (r: Result<DemoButtonFile, AssetError>)
        ensures
            match r {
                Ok(d) => demo_wf(inputs@) && d@ == demo_made(inputs@, frame1_flag),
                Err(e) => e == AssetError::CodecError && !demo_wf(inputs@),
            },
    {
        if inputs.len() > 0xFFFF_FFFF / 6 {
            return Err(AssetError::CodecError);
        }
        let bytes: Vec<u8> = write_demo(&inputs, frame1_flag);
        Ok(DemoButtonFile { inputs, frame1_flag, bytes })
    }

    /// The samples in order.
    pub fn inputs(&self) -> (inputs: &Vec<ContInput>)
        ensures
            inputs@ == self@.inputs,
    {
        &self.inputs
    }

    /// The flag of the first frame.
    pub fn frame1_flag(&self) -> (flag: u8)
        ensures
            flag == self@.frame1_flag,
    {
        self.frame1_flag
    }

    /// Reads a demo. Fewer than four bytes give the demo without samples
    /// and with flag zero, which is stored as no bytes at all. Any other
    /// demo keeps the bytes it was read from. Fails where the length in
    /// front is not that of the whole records behind it, or the first
    /// record is missing.
    pub fn from_bytes(in_bytes: &[u8]) -> (r: Result<DemoButtonFile, AssetError>)
        ensures
            match r {
                Ok(d) => demo_fits(in_bytes@) && d@ == demo_of(in_bytes@),
                Err(e) => e == AssetError::CodecError && !demo_fits(in_bytes@),
            },
    {
        if in_bytes.len() < 4 {
            return Ok(DemoButtonFile { inputs: Vec::new(), frame1_flag: 0, bytes: Vec::new() });
        }
        let count: usize = (in_bytes.len() - 4) / 6;
        let expect_len: u32 = read_u32(in_bytes, 0);
        if in_bytes.len() < 10 || expect_len as usize != 6 * count {
            return Err(AssetError::CodecError);
        }
        let f1f: u8 = in_bytes[9];
        let mut inputs: Vec<ContInput> = Vec::new();
        let mut k: usize = 0;
        while k < count
            invariant
                in_bytes.len() >= 4,
                count == demo_count(in_bytes@),
                k <= count,
                inputs@.len() == k,
                forall|j: int| 0 <= j < k ==> #[trigger] inputs@[j] == input_at(in_bytes@, 4 + 6 * j),
            decreases count - k,
        {
            let at: usize = 4 + 6 * k;
            inputs.push(
                ContInput {
                    x: load_signed(in_bytes[at]),
                    y: load_signed(in_bytes[at + 1]),
                    buttons: read_u16(in_bytes, at + 2),
                    frames: in_bytes[at + 4],
                },
            );
            k += 1;
        }
        assert(inputs@ =~= demo_of(in_bytes@).inputs);
        Ok(DemoButtonFile { inputs, frame1_flag: f1f, bytes: copy_all(in_bytes) })
    }

    /// The demo as the text of a file.
    pub fn to_yaml(&self) -> (out: String)
        ensures
            out@ == self@.text(),
    {
        let mut out: String = String::from_str("type: DemoInput\n");
        push_str(&mut out, "flag: 0x");
        push_hex2(&mut out, self.frame1_flag as u128);
        push_str(&mut out, "\n");
        let ghost head = out@;
        if self.inputs.len() == 0 {
            push_str(&mut out, "inputs: []\n");
            return out;
        }
        push_str(&mut out, "inputs:\n");
        let mut k: usize = 0;
        while k < self.inputs.len()
            invariant
                k <= self.inputs@.len(),
                out@ == head + ("inputs:\n"@ + inputs_text(self.inputs@.subrange(0, k as int))),
            decreases self.inputs@.len() - k,
        {
            let input: &ContInput = &self.inputs[k];
            let line: String = input.write_line();
            push_str(&mut out, line.as_str());
            proof {
                assert(out@ =~= head + ("inputs:\n"@ + (inputs_text(self.inputs@.subrange(0, k as int))
                    + input.line())));
                assert(self.inputs@.subrange(0, k + 1).drop_last() =~= self.inputs@.subrange(0, k as int));
            }
            k += 1;
        }
        assert(self.inputs@.subrange(0, k as int) =~= self.inputs@);
        out
    }
}

/// Writes the samples as a demo.
fn write_demo(inputs: &Vec<ContInput>, frame1_flag: u8) -> (out: Vec<u8>)
    requires
        demo_wf(inputs@),
    ensures
        out@ == demo_written(inputs@, frame1_flag),
{
    let mut out: Vec<u8> = Vec::new();
    if inputs.len() == 0 {
        return out;
    }
    push_u32(&mut out, (6 * inputs.len()) as u32);
    let ghost head = out@;
    let ghost records = demo_records(inputs@, frame1_flag);
    let mut k: usize = 0;
    while k < inputs.len()
        invariant
            k <= inputs@.len(),
            records == demo_records(inputs@, frame1_flag),
            out@.len() == head.len() + 6 * k,
            out@.subrange(0, head.len() as int) == head,
            forall|j: int| 0 <= j < 6 * k ==> #[trigger] out@[head.len() + j] == records[j],
        decreases inputs@.len() - k,
    {
        let input: &ContInput = &inputs[k];
        out.push(store_signed(input.x));
        out.push(store_signed(input.y));
        push_u16(&mut out, input.buttons);
        out.push(input.frames);
        out.push(if k == 0 {
            frame1_flag
        } else {
            0
        });
        k += 1;
    }
    proof {
        let whole = head + records;
        assert forall|i: int| 0 <= i < out@.len() implies out@[i] == whole[i] by {
            if i >= head.len() {
                let j = i - head.len();
                assert(out@[head.len() + j] == records[j]);
            }
        }
    }
    out
}

impl Asset for DemoButtonFile {
    open spec fn stored(&self) -> Seq<u8> {
        self@.stored
    }

    open spec fn kind(&self) -> AssetType {
        AssetType::DemoInput
    }

    open spec fn file(&self) -> Seq<u8> {
        encode_utf8(self@.text())
    }

    fn to_bytes(&self) -> (out: Vec<u8>) {
        copy_all(self.bytes.as_slice())
    }

    fn get_type(&self) -> (kind: AssetType) {
        AssetType::DemoInput
    }

    /// The text of the asset's file, as the bytes of the file.
    fn write(&self) -> (out: Vec<u8>) {
        text_file(&self.to_yaml())
    }
}

/// A demo that was written is read back as itself: the demo made of the
/// samples is what its stored bytes are read as. Without samples nothing
/// is written, and so no flag: a demo without samples is read back as
/// itself only where its flag is zero.
pub proof fn lemma_demo_read_back(inputs: Seq<ContInput>, frame1_flag: u8)
    requires
        demo_wf(inputs),
        inputs.len() > 0 || frame1_flag == 0,
    ensures
        demo_fits(demo_written(inputs, frame1_flag)),
        demo_of(demo_written(inputs, frame1_flag)) == demo_made(inputs, frame1_flag),
{
    let b = demo_written(inputs, frame1_flag);
    let n = inputs.len() as int;
    if n == 0 {
        assert(demo_of(b).inputs =~= inputs);
    } else {
        assert(b.subrange(0, 4) =~= u32_be(6 * n));
        lemma_u32_read_back(b, 0, 6 * n);
        assert forall|k: int| 0 <= k < n implies input_at(b, 4 + 6 * k) == inputs[k] by {
            let at = 4 + 6 * k;
            let input = inputs[k];
            assert((6 * k) / 6 == k && (6 * k + 1) / 6 == k && (6 * k + 2) / 6 == k && (6 * k + 3) / 6 == k
                && (6 * k + 4) / 6 == k);
            assert(b.subrange(at + 2, at + 4) =~= u16_be(input.buttons as int));
            lemma_u16_read_back(b, at + 2, input.buttons as int);
        }
        assert(demo_of(b).inputs =~= inputs);
    }
}

/// A demo that was read from four bytes or more is stored again as the
/// bytes it was read from, all of them; one that was read from fewer is
/// stored as no bytes at all.
pub proof fn lemma_demo_kept(b: Seq<u8>)
    requires
        demo_fits(b),
    ensures
        b.len() >= 4 ==> demo_of(b).stored == b,
        b.len() < 4 ==> demo_of(b).stored == Seq::<u8>::empty(),
{
}

/// The samples of a demo that was read can be written, and are written as
/// the bytes they were read from, where those hold whole records only and
/// every record but the first ends in a zero byte.
pub proof fn lemma_demo_written_back(b: Seq<u8>)
    requires
        demo_fits(b),
        b.len() >= 4,
        (b.len() - 4) % 6 == 0,
        forall|k: int| 1 <= k < demo_count(b) ==> #[trigger] b[4 + 6 * k + 5] == 0,
    ensures
        demo_wf(demo_of(b).inputs),
        demo_written(demo_of(b).inputs, demo_of(b).frame1_flag) == b,
{
    let d = demo_of(b);
    let records = demo_records(d.inputs, d.frame1_flag);
    let n = demo_count(b);
    lemma_u32_written_back(b, 0);
    assert forall|j: int| 0 <= j < 6 * n implies records[j] == b[4 + j] by {
        let k = j / 6;
        let at = 4 + 6 * k;
        if j != 5 {
            lemma_u16_written_back(b, at + 2);
            if j % 6 == 5 {
                assert(1 <= k < n);
                assert(b[4 + 6 * k + 5] == 0);
            }
        }
    }
}

/// The sample that a mapping with `x`, `y`, `buttons` and `frames` stands
/// for, where each of them is a whole number that its field can hold.
pub open spec fn input_of_node(node: Node) -> Option<ContInput> {
    match (node.int_field("x"@), node.int_field("y"@), node.int_field("buttons"@), node.int_field("frames"@)) {
        (Some(x), Some(y), Some(buttons), Some(frames)) => if -0x80 <= x <= 0x7F && -0x80 <= y <= 0x7F && 0
            <= buttons <= 0xFFFF && 0 <= frames <= 0xFF {
            Some(ContInput { x: x as i8, y: y as i8, buttons: buttons as u16, frames: frames as u8 })
        } else {
            None
        },
        _ => None,
    }
}

/// The samples that a sequence of such mappings stands for, where each of
/// them stands for one.
pub open spec fn inputs_of_nodes(items: Seq<Node>) -> Option<Seq<ContInput>> {
    if forall|i: int| 0 <= i < items.len() ==> input_of_node(#[trigger] items[i]) is Some {
        Some(Seq::new(items.len(), |i: int| input_of_node(items[i])->0))
    } else {
        None
    }
}

/// The demo that a document stands for: one of the kind `DemoInput` with a
/// `flag` from 0 to 255 and a list `inputs` of samples.
pub open spec fn demo_of_node(doc: Node) -> Option<DemoView> {
    match (doc.int_field("flag"@), doc.list_field("inputs"@)) {
        (Some(flag), Some(items)) => match inputs_of_nodes(items) {
            Some(inputs) => if is_of_type(doc, "DemoInput"@) && 0 <= flag <= 0xFF && demo_wf(inputs) {
                Some(demo_made(inputs, flag as u8))
            } else {
                None
            },
            None => None,
        },
        _ => None,
    }
}

impl ContInput {
    /// The sample that a mapping with `x`, `y`, `buttons` and `frames` stands for.
    pub fn from_yaml(yaml: &Node) -> (r: Result<ContInput, AssetError>)
        ensures
            match r {
                Ok(input) => input_of_node(*yaml) == Some(input),
                Err(e) => e == AssetError::CodecError && input_of_node(*yaml) is None,
            },
    {
        match (yaml.get_int("x"), yaml.get_int("y"), yaml.get_int("buttons"), yaml.get_int("frames")) {
            (Some(x), Some(y), Some(buttons), Some(frames)) => {
                if -0x80 <= x && x <= 0x7F && -0x80 <= y && y <= 0x7F && 0 <= buttons && buttons <= 0xFFFF && 0
                    <= frames && frames <= 0xFF {
                    Ok(ContInput { x: x as i8, y: y as i8, buttons: buttons as u16, frames: frames as u8 })
                } else {
                    Err(AssetError::CodecError)
                }
            },
            _ => Err(AssetError::CodecError),
        }
    }
}

impl DemoButtonFile {
    /// The demo that a document stands for.
    pub fn from_yaml(doc: &Node) -> (r: Result<DemoButtonFile, AssetError>)
        ensures
            match r {
                Ok(d) => demo_of_node(*doc) == Some(d@),
                Err(e) => e == AssetError::CodecError && demo_of_node(*doc) is None,
            },
    {
        if !has_type(doc, "DemoInput") {
            return Err(AssetError::CodecError);
        }
        let flag: i64 = match doc.get_int("flag") {
            Some(flag) => flag,
            None => {
                return Err(AssetError::CodecError);
            },
        };
        let items: &[Node] = match doc.get_list("inputs") {
            Some(items) => items,
            None => {
                return Err(AssetError::CodecError);
            },
        };
        if flag < 0 || flag > 0xFF {
            return Err(AssetError::CodecError);
        }
        let mut inputs: Vec<ContInput> = Vec::new();
        let mut i: usize = 0;
        while i < items.len()
            invariant
                doc.list_field("inputs"@) == Some(items@),
                doc.int_field("flag"@) == Some(flag),
                i <= items@.len(),
                inputs@.len() == i,
                forall|k: int| 0 <= k < i ==> input_of_node(#[trigger] items@[k]) == Some(inputs@[k]),
            decreases items@.len() - i,
        {
            match ContInput::from_yaml(&items[i]) {
                Ok(input) => {
                    inputs.push(input);
                },
                Err(e) => {
                    return Err(AssetError::CodecError);
                },
            }
            i += 1;
        }
        assert(inputs@ =~= inputs_of_nodes(items@)->0);
        DemoButtonFile::new(inputs, flag as u8)
    }

    /// Reads a demo from the text of its file: the first document of the
    /// text, taken as [`DemoButtonFile::from_yaml`] takes it.
    pub fn read(text: &str) -> (r: Result<DemoButtonFile, AssetError>)
        ensures
            match r {
                Ok(d) => document_of(text@) matches Some(doc) && demo_of_node(doc) == Some(
                    d@,
                ),
                Err(e) => e == AssetError::CodecError && !(document_of(text@) matches Some(
                    doc,
                ) && demo_of_node(doc) is Some),
            },
    {
        match load_document(text) {
            Ok(doc) => DemoButtonFile::from_yaml(&doc),
            Err(e) => Err(AssetError::CodecError),
        }
    }
}

} // verus!
