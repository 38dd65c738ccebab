//! Byte strings: big-endian integers, copies, prefixes and padding.

use vstd::prelude::*;

verus! {

/// The unsigned 16-bit big-endian value stored at `at`.
pub open spec fn be_u16(b: Seq<u8>, at: int) -> int {
    b[at] as int * 256 + b[at + 1] as int
}

/// The signed 16-bit big-endian value stored at `at`.
pub open spec fn be_i16(b: Seq<u8>, at: int) -> int {
    if be_u16(b, at) >= 0x8000 {
        be_u16(b, at) - 0x10000
    } else {
        be_u16(b, at)
    }
}

/// The unsigned 32-bit big-endian value stored at `at`.
pub open spec fn be_u32(b: Seq<u8>, at: int) -> int {
    be_u16(b, at) * 0x10000 + be_u16(b, at + 2)
}

/// The two bytes that store `v` big-endian.
pub open spec fn u16_be(v: int) -> Seq<u8> {
    seq![(v / 256 % 256) as u8, (v % 256) as u8]
}

/// The four bytes that store `v` big-endian.
pub open spec fn u32_be(v: int) -> Seq<u8> {
    u16_be(v / 0x10000) + u16_be(v % 0x10000)
}

/// The least multiple of eight that is not below `n`.
pub open spec fn align8(n: int) -> int {
    (n + 7) / 8 * 8
}

/// Whether `b` begins with `prefix`.
pub open spec fn has_prefix(b: Seq<u8>, prefix: Seq<u8>) -> bool {
    b.len() >= prefix.len() && b.subrange(0, prefix.len() as int) == prefix
}

/// The bytes of `bytes` and after them as many zero bytes as bring the
/// length to a multiple of sixteen.
pub open spec fn padded16(bytes: Seq<u8>) -> Seq<u8> {
    bytes + Seq::new(((16 - bytes.len() % 16) % 16) as nat, |i: int| 0u8)
}

/// Reads the unsigned 16-bit big-endian value stored at `at`.
pub fn read_u16(b: &[u8], at: usize) -> (r: u16)
    requires
        at + 2 <= b.len(),
    ensures
        r == be_u16(b@, at as int),
{
    let hi: u16 = b[at] as u16;
    let lo: u16 = b[at + 1] as u16;
    hi * 256 + lo
}

/// Reads the signed 16-bit big-endian value stored at `at`.
pub fn read_i16(b: &[u8], at: usize) -> (r: i16)
    requires
        at + 2 <= b.len(),
    ensures
        r == be_i16(b@, at as int),
{
    let u: u16 = read_u16(b, at);
    if u >= 0x8000 {
        (u as i32 - 0x10000) as i16
    } else {
        u as i16
    }
}

/// Reads the unsigned 32-bit big-endian value stored at `at`.
pub fn read_u32(b: &[u8], at: usize) -> (r: u32)
    requires
        at + 4 <= b.len(),
    ensures
        r == be_u32(b@, at as int),
{
    let hi: u32 = read_u16(b, at) as u32;
    let lo: u32 = read_u16(b, at + 2) as u32;
    hi * 0x10000 + lo
}

/// Appends the two bytes that store `v` big-endian.
pub fn push_u16(out: &mut Vec<u8>, v: u16)
    ensures
        final(out)@ == old(out)@ + u16_be(v as int),
{
    out.push((v / 256) as u8);
    out.push((v % 256) as u8);
}

/// Appends the four bytes that store `v` big-endian.
pub fn push_u32(out: &mut Vec<u8>, v: u32)
    ensures
        final(out)@ == old(out)@ + u32_be(v as int),
{
    push_u16(out, (v / 0x10000) as u16);
    push_u16(out, (v % 0x10000) as u16);
}

/// Appends a copy of `src` to `out`.
pub fn push_all(out: &mut Vec<u8>, src: &[u8])
    ensures
        final(out)@ == old(out)@ + src@,
{
    let mut i: usize = 0;
    while i < src.len()
        invariant
            i <= src@.len(),
            out@ == old(out)@ + src@.subrange(0, i as int),
        decreases src@.len() - i,
    {
        out.push(src[i]);
        i += 1;
    }
}

/// A copy of the bytes of `src` from `from` up to `to`.
pub fn copy_range(src: &[u8], from: usize, to: usize) -> (out: Vec<u8>)
    requires
        from <= to <= src.len(),
    ensures
        out@ == src@.subrange(from as int, to as int),
{
    let mut out: Vec<u8> = Vec::new();
    let mut i: usize = from;
    while i < to
        invariant
            from <= i <= to <= src.len(),
            out@ == src@.subrange(from as int, i as int),
        decreases to - i,
    {
        out.push(src[i]);
        i += 1;
    }
    out
}

/// A copy of the bytes of `src`.
pub fn copy_all(src: &[u8]) -> (out: Vec<u8>)
    ensures
        out@ == src@,
{
    let out = copy_range(src, 0, src.len());
    out
}

/// `n` rounded up to a multiple of eight, where that fits.
pub fn align_up8(n: usize) -> (r: usize)
    requires
        n + 7 <= usize::MAX,
    ensures
        r == align8(n as int),
        n <= r < n + 8,
        r % 8 == 0,
{
    (n + 7) / 8 * 8
}

/// Whether `bytes` begin with `prefix`.
pub fn starts_with(bytes: &[u8], prefix: &[u8]) -> (r: bool)
    ensures
        r == has_prefix(bytes@, prefix@),
{
    if bytes.len() < prefix.len() {
        return false;
    }
    let mut i: usize = 0;
    while i < prefix.len()
        invariant
            i <= prefix.len() <= bytes.len(),
            bytes@.subrange(0, i as int) == prefix@.subrange(0, i as int),
        decreases prefix.len() - i,
    {
        if bytes[i] != prefix[i] {
            return false;
        }
        assert(bytes@.subrange(0, i + 1) =~= bytes@.subrange(0, i as int).push(bytes@[i as int]));
        i += 1;
    }
    assert(prefix@.subrange(0, i as int) =~= prefix@);
    true
}

/// Brings the length to a multiple of sixteen with zero bytes.
pub fn pad_to_16(bytes: &mut Vec<u8>)
    ensures
        final(bytes)@ == padded16(old(bytes)@),
        final(bytes)@.len() % 16 == 0,
{
    let ghost start = bytes@;
    while bytes.len() % 16 != 0
        invariant
            bytes@.len() >= start.len(),
            bytes@.len() - start.len() <= (16 - start.len() % 16) % 16,
            bytes@ == start + Seq::new((bytes@.len() - start.len()) as nat, |i: int| 0u8),
        decreases (16 - start.len() % 16) % 16 - (bytes@.len() - start.len()),
    {
        bytes.push(0);
    }
}

/// Rounding up to a multiple of eight clears the last three bits of the
/// number seven above.
pub proof fn lemma_align8_is_mask(n: u64)
    requires
        n <= u64::MAX - 7,
    ensures
        align8(n as int) == (((n + 7) as u64) & !7u64),
{
    let above: u64 = (n + 7) as u64;
    assert(above / 8 * 8 == (above & !7u64)) by (bit_vector);
}

/// A value of 16 bits is read back from the two bytes that store it.
pub proof fn lemma_u16_read_back(b: Seq<u8>, at: int, v: int)
    requires
        0 <= v <= 0xFFFF,
        0 <= at,
        at + 2 <= b.len(),
        b.subrange(at, at + 2) == u16_be(v),
    ensures
        be_u16(b, at) == v,
{
}

/// A value of 32 bits is read back from the four bytes that store it.
pub proof fn lemma_u32_read_back(b: Seq<u8>, at: int, v: int)
    requires
        0 <= v <= 0xFFFF_FFFF,
        0 <= at,
        at + 4 <= b.len(),
        b.subrange(at, at + 4) == u32_be(v),
    ensures
        be_u32(b, at) == v,
{
    assert(b.subrange(at, at + 2) =~= u16_be(v / 0x10000));
    assert(b.subrange(at + 2, at + 4) =~= u16_be(v % 0x10000)) by {
        assert(b[at + 2] == b.subrange(at, at + 4)[2]);
        assert(b[at + 3] == b.subrange(at, at + 4)[3]);
    }
    lemma_u16_read_back(b, at, v / 0x10000);
    lemma_u16_read_back(b, at + 2, v % 0x10000);
}

/// The bytes at `at` are those that store the value read from them.
pub proof fn lemma_u16_written_back(b: Seq<u8>, at: int)
    requires
        0 <= at,
        at + 2 <= b.len(),
    ensures
        u16_be(be_u16(b, at)) == b.subrange(at, at + 2),
{
}

/// The bytes at `at` are those that store the value read from them.
pub proof fn lemma_u32_written_back(b: Seq<u8>, at: int)
    requires
        0 <= at,
        at + 4 <= b.len(),
    ensures
        u32_be(be_u32(b, at)) == b.subrange(at, at + 4),
{
    lemma_u16_written_back(b, at);
    lemma_u16_written_back(b, at + 2);
    let v = be_u32(b, at);
    assert(v / 0x10000 == be_u16(b, at));
}

} // verus!
