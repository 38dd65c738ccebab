//! The game's one-byte text encoding, and numbers as text.

use vstd::prelude::*;
use vstd::string::{StrSliceExecFns, StringExecFns, StringSliceAdditionalSpecFns};
use vstd::utf8::is_ascii_chars_encode_utf8;

verus! {

/// `String::push` of the standard library: the text grows by the one
/// character at its end.
pub assume_specification[ String::push ](s: &mut String, c: char)
    ensures
        final(s)@ == old(s)@.push(c),
;

/// `core::str::from_utf8` of the standard library: the text that the bytes
/// are the UTF-8 of, or nothing where they are no valid UTF-8.
#[verifier::external_body]
pub(crate) fn utf8_text(bytes: &[u8]) -> (r: Option<&str>)
    ensures
        match r {
            Some(text) => vstd::utf8::valid_utf8(bytes@) && text.spec_bytes() == bytes@,
            None => !vstd::utf8::valid_utf8(bytes@),
        },
{
    core::str::from_utf8(bytes).ok()
}

/// The text that a file holds, where its bytes are valid UTF-8.
pub open spec fn file_text(file: Seq<u8>) -> Option<Seq<char>> {
    if vstd::utf8::valid_utf8(file) {
        Some(vstd::utf8::decode_utf8(file))
    } else {
        None
    }
}

/// The text that a file holds. Fails where its bytes are no valid UTF-8.
pub fn read_text(file: &[u8]) -> (r: Option<&str>)
    ensures
        match r {
            Some(text) => file_text(file@) == Some(text@),
            None => file_text(file@) is None,
        },
{
    let r = utf8_text(file);
    proof {
        if let Some(text) = r {
            vstd::utf8::encode_utf8_decode_utf8(text@);
        }
    }
    r
}

/// Whether two texts are the same.
pub fn same_text(a: &str, b: &str) -> (r: bool)
    ensures
        r == (a@ == b@),
{
    let left: String = String::from_str(a);
    let right: String = String::from_str(b);
    left == right
}

/// The upper-case hexadecimal digit for `n`.
pub open spec fn hex_char(n: int) -> char {
    if n < 10 {
        (48 + n) as char
    } else {
        (55 + n) as char
    }
}

/// `v` in upper-case hexadecimal, with as many digits as it needs.
pub open spec fn hex_digits(v: nat) -> Seq<char>
    decreases v,
{
    if v < 16 {
        seq![hex_char(v as int)]
    } else {
        hex_digits(v / 16).push(hex_char((v % 16) as int))
    }
}

/// `v` in upper-case hexadecimal, with zeros in front up to two digits.
pub open spec fn hex2(v: nat) -> Seq<char> {
    if v < 0x10 {
        seq!['0'] + hex_digits(v)
    } else {
        hex_digits(v)
    }
}

/// `v` in upper-case hexadecimal, with zeros in front up to four digits.
pub open spec fn hex4(v: nat) -> Seq<char> {
    if v < 0x10 {
        seq!['0', '0', '0'] + hex_digits(v)
    } else if v < 0x100 {
        seq!['0', '0'] + hex_digits(v)
    } else if v < 0x1000 {
        seq!['0'] + hex_digits(v)
    } else {
        hex_digits(v)
    }
}

/// `v` in decimal, with as many digits as it needs.
pub open spec fn dec_digits(v: nat) -> Seq<char>
    decreases v,
{
    if v < 10 {
        seq![(48 + v) as char]
    } else {
        dec_digits(v / 10).push((48 + v % 10) as char)
    }
}

/// `v` in decimal with its sign, with spaces in front up to three characters.
pub open spec fn dec3(v: int) -> Seq<char> {
    let body = if v < 0 {
        seq!['-'] + dec_digits((-v) as nat)
    } else {
        dec_digits(v as nat)
    };
    if body.len() < 3 {
        Seq::new((3 - body.len()) as nat, |i: int| ' ') + body
    } else {
        body
    }
}

/// A byte of the game's text is printable where it is ASCII from space to tilde.
pub open spec fn is_printable(b: u8) -> bool {
    0x20 <= b <= 0x7E
}

/// How one byte of game text is written out: a printable byte as its
/// character, any other as a backslash, `x` and its two hexadecimal digits.
pub open spec fn escaped(b: u8) -> Seq<char> {
    if is_printable(b) {
        seq![b as char]
    } else {
        seq!['\\', 'x', hex_char(b as int / 16), hex_char(b as int % 16)]
    }
}

/// Every byte of `bytes` written out, one after the other.
pub open spec fn escaped_all(bytes: Seq<u8>) -> Seq<char>
    decreases bytes.len(),
{
    if bytes.len() == 0 {
        Seq::empty()
    } else {
        escaped_all(bytes.drop_last()) + escaped(bytes.last())
    }
}

/// The text shown for a stored string: its last byte is dropped, the rest
/// is written out byte by byte.
pub open spec fn text_of(bytes: Seq<u8>) -> Seq<char> {
    if bytes.len() == 0 {
        Seq::empty()
    } else {
        escaped_all(bytes.drop_last())
    }
}

/// `src` with every pair `C3 BD` replaced by the single byte `FD`.
pub open spec fn collapse(src: Seq<u8>) -> Seq<u8>
    decreases src.len(),
{
    if src.len() == 0 {
        Seq::empty()
    } else if src.len() >= 2 && src[0] == 0xC3 && src[1] == 0xBD {
        seq![0xFDu8] + collapse(src.skip(2))
    } else {
        seq![src[0]] + collapse(src.skip(1))
    }
}

/// The stored string for a text given as UTF-8: the pairs collapsed, and a
/// zero byte at the end.
pub open spec fn stored_of(utf8: Seq<u8>) -> Seq<u8> {
    collapse(utf8).push(0u8)
}

/// The upper-case hexadecimal digit for `n`.
pub fn hex_digit(n: u8) -> (c: char)
    requires
        n < 16,
    ensures
        c == hex_char(n as int),
{
    if n < 10 {
        (48 + n) as char
    } else {
        (55 + n) as char
    }
}

/// Appends `v` in upper-case hexadecimal.
pub fn push_hex(out: &mut String, v: u128)
    ensures
        final(out)@ == old(out)@ + hex_digits(v as nat),
    decreases v,
{
    if v >= 16 {
        push_hex(out, v / 16);
    }
    out.push(hex_digit((v % 16) as u8));
}

/// Appends `v` in upper-case hexadecimal, at least two digits wide.
pub fn push_hex2(out: &mut String, v: u128)
    ensures
        final(out)@ == old(out)@ + hex2(v as nat),
{
    if v < 0x10 {
        out.push('0');
    }
    push_hex(out, v);
}

/// Appends `v` in upper-case hexadecimal, at least four digits wide.
pub fn push_hex4(out: &mut String, v: u128)
    ensures
        final(out)@ == old(out)@ + hex4(v as nat),
{
    if v < 0x1000 {
        out.push('0');
    }
    if v < 0x100 {
        out.push('0');
    }
    if v < 0x10 {
        out.push('0');
    }
    push_hex(out, v);
}

/// Appends `v` in decimal.
pub fn push_dec(out: &mut String, v: u128)
    ensures
        final(out)@ == old(out)@ + dec_digits(v as nat),
    decreases v,
{
    if v >= 10 {
        push_dec(out, v / 10);
    }
    out.push((48 + (v % 10) as u8) as char);
}

/// Appends `v` in decimal with its sign, at least three characters wide.
pub fn push_dec3(out: &mut String, v: i8)
    ensures
        final(out)@ == old(out)@ + dec3(v as int),
{
    let size: u8 = if v < 0 {
        (-(v as i16)) as u8
    } else {
        v as u8
    };
    proof {
        reveal_with_fuel(dec_digits, 3);
    }
    if v >= 0 && v < 10 {
        out.push(' ');
        out.push(' ');
    } else if v >= 10 && v < 100 {
        out.push(' ');
    } else if v < 0 && v > -10 {
        out.push(' ');
    }
    if v < 0 {
        out.push('-');
    }
    push_dec(out, size as u128);
}

/// `text`, with spaces behind it up to `width` characters.
pub open spec fn pad_right(text: Seq<char>, width: nat) -> Seq<char> {
    if text.len() < width {
        text + Seq::new((width - text.len()) as nat, |i: int| ' ')
    } else {
        text
    }
}

/// Appends `text`, with spaces behind it up to `width` characters.
pub fn push_padded(out: &mut String, text: &str, width: usize)
    ensures
        final(out)@ == old(out)@ + pad_right(text@, width as nat),
{
    let len: usize = text.unicode_len();
    out.append(text);
    let ghost body = out@;
    let mut n: usize = len;
    while n < width
        invariant
            len == text@.len(),
            len <= n,
            n <= width || n == len,
            out@ == body + Seq::new((n - len) as nat, |i: int| ' '),
        decreases width - n,
    {
        out.push(' ');
        n += 1;
    }
}

/// Appends a copy of `s`.
pub fn push_str(out: &mut String, s: &str)
    ensures
        final(out)@ == old(out)@ + s@,
{
    out.append(s);
}

/// The text shown for a stored string: the last byte is dropped, and of the
/// others each printable one stands as it is and each other one as its escape.
pub fn vecu8_to_string(bytes: &Vec<u8>) -> (out: String)
    ensures
        out@ == text_of(bytes@),
{
    let mut out: String = String::new();
    if bytes.len() == 0 {
        return out;
    }
    let shown: usize = bytes.len() - 1;
    let mut i: usize = 0;
    while i < shown
        invariant
            shown == bytes.len() - 1,
            i <= shown,
            out@ == escaped_all(bytes@.subrange(0, i as int)),
        decreases shown - i,
    {
        let b: u8 = bytes[i];
        if 0x20 <= b && b <= 0x7E {
            out.push(b as char);
        } else {
            out.push('\\');
            out.push('x');
            out.push(hex_digit(b / 16));
            out.push(hex_digit(b % 16));
        }
        proof {
            assert(bytes@.subrange(0, i + 1).drop_last() =~= bytes@.subrange(0, i as int));
        }
        i += 1;
    }
    assert(bytes@.subrange(0, shown as int) =~= bytes@.drop_last());
    out
}

/// The stored string for a text: its UTF-8 bytes, with each two-byte
/// sequence `C3 BD` made the one byte `FD`, and a zero byte at the end.
pub fn string_to_vecu8(string: &str) -> (out: Vec<u8>)
    ensures
        out@ == stored_of(string.spec_bytes()),
{
    let src: &[u8] = string.as_bytes();
    let mut out: Vec<u8> = Vec::new();
    let mut i: usize = 0;
    assert(src@.skip(0) =~= src@);
    while i < src.len()
        invariant
            i <= src.len(),
            out@ + collapse(src@.skip(i as int)) == collapse(src@),
        decreases src.len() - i,
    {
        let ghost rest = src@.skip(i as int);
        if src[i] == 0xC3 && i + 1 < src.len() && src[i + 1] == 0xBD {
            out.push(0xFD);
            proof {
                assert(rest.skip(2) =~= src@.skip(i + 2));
            }
            i += 2;
        } else {
            out.push(src[i]);
            proof {
                assert(rest.skip(1) =~= src@.skip(i + 1));
            }
            i += 1;
        }
    }
    out.push(0);
    out
}

/// Whether every character of `text` is printable ASCII, from space to tilde.
pub open spec fn is_plain_text(text: Seq<char>) -> bool {
    forall|i: int| 0 <= i < text.len() ==> 0x20 <= #[trigger] text[i] as int <= 0x7E
}

proof fn lemma_collapse_ascii(src: Seq<u8>)
    requires
        forall|i: int| 0 <= i < src.len() ==> #[trigger] src[i] < 0x80,
    ensures
        collapse(src) == src,
    decreases src.len(),
{
    if src.len() > 0 {
        lemma_collapse_ascii(src.skip(1));
    }
}

proof fn lemma_escaped_plain(bytes: Seq<u8>, text: Seq<char>)
    requires
        is_plain_text(text),
        bytes.len() == text.len(),
        forall|i: int| 0 <= i < text.len() ==> #[trigger] bytes[i] == text[i] as u8,
    ensures
        escaped_all(bytes) == text,
    decreases bytes.len(),
{
    if bytes.len() > 0 {
        lemma_escaped_plain(bytes.drop_last(), text.drop_last());
    }
}

/// The text codec gives a text back: a text of printable ASCII characters,
/// which is all that a stored string is ever shown as, is stored and shown
/// again as itself.
pub proof fn lemma_shown_text_is_kept(text: Seq<char>)
    requires
        is_plain_text(text),
    ensures
        text_of(stored_of(vstd::utf8::encode_utf8(text))) == text,
{
    let utf8 = vstd::utf8::encode_utf8(text);
    is_ascii_chars_encode_utf8(text);
    lemma_collapse_ascii(utf8);
    assert(stored_of(utf8).drop_last() =~= utf8);
    lemma_escaped_plain(utf8, text);
}

/// The text codec gives a stored string back: a string that ends in a zero
/// byte and is printable before it is shown and stored again as itself.
pub proof fn lemma_stored_text_is_kept(bytes: Seq<u8>)
    requires
        bytes.len() > 0,
        bytes.last() == 0,
        forall|i: int| 0 <= i < bytes.len() - 1 ==> is_printable(#[trigger] bytes[i]),
    ensures
        stored_of(vstd::utf8::encode_utf8(text_of(bytes))) == bytes,
{
    let shown = bytes.drop_last();
    let text = text_of(bytes);
    lemma_printable_shown(shown);
    lemma_shown_text_is_plain(bytes);
    is_ascii_chars_encode_utf8(text);
    let utf8 = vstd::utf8::encode_utf8(text);
    assert(utf8 =~= shown) by {
    }
    lemma_collapse_ascii(shown);
    assert(shown.push(0u8) =~= bytes);
}

proof fn lemma_printable_shown(bytes: Seq<u8>)
    requires
        forall|i: int| 0 <= i < bytes.len() ==> is_printable(#[trigger] bytes[i]),
    ensures
        escaped_all(bytes).len() == bytes.len(),
        forall|i: int| 0 <= i < bytes.len() ==> #[trigger] escaped_all(bytes)[i] == bytes[i] as char,
    decreases bytes.len(),
{
    if bytes.len() > 0 {
        lemma_printable_shown(bytes.drop_last());
    }
}

/// What a stored string is shown as is always printable ASCII.
pub proof fn lemma_shown_text_is_plain(bytes: Seq<u8>)
    ensures
        is_plain_text(escaped_all(bytes)),
        is_plain_text(text_of(bytes)),
    decreases bytes.len(),
{
    if bytes.len() > 0 {
        lemma_shown_text_is_plain(bytes.drop_last());
        let b = bytes.last();
        assert(is_plain_text(escaped(b)));
    }
}

} // verus!
