//! The pixel formats that textures and sprites are stored in.

use vstd::prelude::*;

verus! {

/// The pixel formats a texture can be stored in.
#[derive(Clone, Copy, Debug, PartialEq, Eq, Structural)]
pub enum ImgFmt {
    CI4,
    CI8,
    I4,
    I8,
    RGBA16,
    RGBA32,
    IA4,
    IA8,
    Unknown(u16),
}

impl ImgFmt {
    /// Whether the format is one of those that pixels can be read in.
    pub fn is_known(&self) -> (known: bool)
        ensures
            known == !(self is Unknown),
    {
        match self {
            ImgFmt::Unknown(_) => false,
            _ => true,
        }
    }
}

/// Bits each stored pixel takes; zero for a format that is not known.
pub open spec fn bits_per_pixel(fmt: ImgFmt) -> int {
    match fmt {
        ImgFmt::CI4 | ImgFmt::I4 | ImgFmt::IA4 => 4,
        ImgFmt::CI8 | ImgFmt::I8 | ImgFmt::IA8 => 8,
        ImgFmt::RGBA16 => 16,
        ImgFmt::RGBA32 => 32,
        ImgFmt::Unknown(_) => 0,
    }
}

/// Bytes of palette a format carries in front of its pixels.
pub open spec fn palette_len(fmt: ImgFmt) -> int {
    match fmt {
        ImgFmt::CI4 => 0x20,
        ImgFmt::CI8 => 0x200,
        _ => 0,
    }
}

/// The name of a pixel format in capitals.
pub open spec fn format_name(fmt: ImgFmt) -> Seq<char> {
    match fmt {
        ImgFmt::CI4 => "CI4"@,
        ImgFmt::CI8 => "CI8"@,
        ImgFmt::I4 => "I4"@,
        ImgFmt::I8 => "I8"@,
        ImgFmt::RGBA16 => "RGBA16"@,
        ImgFmt::RGBA32 => "RGBA32"@,
        ImgFmt::IA4 => "IA4"@,
        ImgFmt::IA8 => "IA8"@,
        ImgFmt::Unknown(_) => "UNKNOWN"@,
    }
}

/// The name of a pixel format in small letters.
pub open spec fn format_tag(fmt: ImgFmt) -> Seq<char> {
    match fmt {
        ImgFmt::CI4 => "ci4"@,
        ImgFmt::CI8 => "ci8"@,
        ImgFmt::I4 => "i4"@,
        ImgFmt::I8 => "i8"@,
        ImgFmt::RGBA16 => "rgba16"@,
        ImgFmt::RGBA32 => "rgba32"@,
        ImgFmt::IA4 => "ia4"@,
        ImgFmt::IA8 => "ia8"@,
        ImgFmt::Unknown(_) => "unknown"@,
    }
}

/// Bits each stored pixel takes; zero for a format that is not known.
pub fn pixel_bits(fmt: ImgFmt) -> (bits: u64)
    ensures
        bits == bits_per_pixel(fmt),
{
    match fmt {
        ImgFmt::CI4 | ImgFmt::I4 | ImgFmt::IA4 => 4,
        ImgFmt::CI8 | ImgFmt::I8 | ImgFmt::IA8 => 8,
        ImgFmt::RGBA16 => 16,
        ImgFmt::RGBA32 => 32,
        ImgFmt::Unknown(_) => 0,
    }
}

/// Bytes of palette a format carries.
pub fn palette_size(fmt: ImgFmt) -> (n: usize)
    ensures
        n == palette_len(fmt),
{
    match fmt {
        ImgFmt::CI4 => 0x20,
        ImgFmt::CI8 => 0x200,
        _ => 0,
    }
}

/// The name of a pixel format in capitals.
pub fn format_upper(fmt: ImgFmt) -> (name: &'static str)
    ensures
        name@ == format_name(fmt),
{
    match fmt {
        ImgFmt::CI4 => "CI4",
        ImgFmt::CI8 => "CI8",
        ImgFmt::I4 => "I4",
        ImgFmt::I8 => "I8",
        ImgFmt::RGBA16 => "RGBA16",
        ImgFmt::RGBA32 => "RGBA32",
        ImgFmt::IA4 => "IA4",
        ImgFmt::IA8 => "IA8",
        ImgFmt::Unknown(_) => "UNKNOWN",
    }
}

/// The name of a pixel format in small letters.
pub fn format_lower(fmt: ImgFmt) -> (name: &'static str)
    ensures
        name@ == format_tag(fmt),
{
    match fmt {
        ImgFmt::CI4 => "ci4",
        ImgFmt::CI8 => "ci8",
        ImgFmt::I4 => "i4",
        ImgFmt::I8 => "i8",
        ImgFmt::RGBA16 => "rgba16",
        ImgFmt::RGBA32 => "rgba32",
        ImgFmt::IA4 => "ia4",
        ImgFmt::IA8 => "ia8",
        ImgFmt::Unknown(_) => "unknown",
    }
}

} // verus!
