//! The kinds of asset and the names that go with them.

use vstd::prelude::*;
use vstd::string::StringExecFns;
use crate::format::{format_lower, format_name, format_tag, format_upper, ImgFmt};
use crate::text::push_str;

verus! {

/// The kind of an asset.
#[derive(Clone, Copy, Debug, PartialEq, Eq, Structural)]
pub enum AssetType {
    Animation,
    Binary,
    DemoInput,
    Dialog,
    GruntyQuestion,
    LevelSetup,
    Midi,
    Model,
    QuizQuestion,
    Sprite(ImgFmt),
}

/// The kind under which an asset is listed and filed: its own, but for a
/// sprite of unknown format, which is listed and filed as an asset of no
/// known structure.
pub open spec fn listed_kind(kind: AssetType) -> AssetType {
    match kind {
        AssetType::Sprite(ImgFmt::Unknown(_)) => AssetType::Binary,
        _ => kind,
    }
}

/// The name by which the manifest calls a kind of asset.
pub open spec fn kind_name(kind: AssetType) -> Seq<char> {
    match listed_kind(kind) {
        AssetType::Animation => "Animation"@,
        AssetType::Binary => "Binary"@,
        AssetType::DemoInput => "DemoInput"@,
        AssetType::Dialog => "Dialog"@,
        AssetType::GruntyQuestion => "GruntyQuestion"@,
        AssetType::LevelSetup => "LevelSetup"@,
        AssetType::Midi => "Midi"@,
        AssetType::Model => "Model"@,
        AssetType::QuizQuestion => "QuizQuestion"@,
        AssetType::Sprite(fmt) => "Sprite_"@ + format_name(fmt),
    }
}

/// The ending of the name of the file that an asset of a kind is kept in.
pub open spec fn file_ext(kind: AssetType) -> Seq<char> {
    match listed_kind(kind) {
        AssetType::Animation => ".anim.bin"@,
        AssetType::Binary => ".bin"@,
        AssetType::DemoInput => ".demo"@,
        AssetType::Dialog => ".dialog"@,
        AssetType::GruntyQuestion => ".grunty_q"@,
        AssetType::LevelSetup => ".lvl_setup.bin"@,
        AssetType::Midi => ".midi.bin"@,
        AssetType::Model => ".model.bin"@,
        AssetType::QuizQuestion => ".quiz_q"@,
        AssetType::Sprite(fmt) => ".sprite."@ + format_tag(fmt) + ".bin"@,
    }
}

/// The directory that the assets of a kind are kept in.
pub open spec fn folder_name(kind: AssetType) -> Seq<char> {
    match listed_kind(kind) {
        AssetType::Animation => "anim"@,
        AssetType::Binary => "bin"@,
        AssetType::DemoInput => "demo"@,
        AssetType::Dialog => "dialog"@,
        AssetType::GruntyQuestion => "grunty_q"@,
        AssetType::LevelSetup => "lvl_setup"@,
        AssetType::Midi => "midi"@,
        AssetType::Model => "model"@,
        AssetType::QuizQuestion => "quiz_q"@,
        AssetType::Sprite(_) => "sprite"@,
    }
}

/// The kind under which an asset is listed and filed.
pub fn kind_as_listed(kind: AssetType) -> (listed: AssetType)
    ensures
        listed == listed_kind(kind),
{
    match kind {
        AssetType::Sprite(ImgFmt::Unknown(_)) => AssetType::Binary,
        _ => kind,
    }
}

impl AssetType {
    /// The name by which the manifest calls the kind.
    pub fn name(&self) -> (out: String)
        ensures
            out@ == kind_name(*self),
    {
        match kind_as_listed(*self) {
            AssetType::Animation => String::from_str("Animation"),
            AssetType::Binary => String::from_str("Binary"),
            AssetType::DemoInput => String::from_str("DemoInput"),
            AssetType::Dialog => String::from_str("Dialog"),
            AssetType::GruntyQuestion => String::from_str("GruntyQuestion"),
            AssetType::LevelSetup => String::from_str("LevelSetup"),
            AssetType::Midi => String::from_str("Midi"),
            AssetType::Model => String::from_str("Model"),
            AssetType::QuizQuestion => String::from_str("QuizQuestion"),
            AssetType::Sprite(fmt) => {
                let mut out: String = String::from_str("Sprite_");
                push_str(&mut out, format_upper(fmt));
                out
            },
        }
    }

    /// The ending of the name of the file that an asset of the kind is kept in.
    pub fn extension(&self) -> (out: String)
        ensures
            out@ == file_ext(*self),
    {
        match kind_as_listed(*self) {
            AssetType::Animation => String::from_str(".anim.bin"),
            AssetType::Binary => String::from_str(".bin"),
            AssetType::DemoInput => String::from_str(".demo"),
            AssetType::Dialog => String::from_str(".dialog"),
            AssetType::GruntyQuestion => String::from_str(".grunty_q"),
            AssetType::LevelSetup => String::from_str(".lvl_setup.bin"),
            AssetType::Midi => String::from_str(".midi.bin"),
            AssetType::Model => String::from_str(".model.bin"),
            AssetType::QuizQuestion => String::from_str(".quiz_q"),
            AssetType::Sprite(fmt) => {
                let mut out: String = String::from_str(".sprite.");
                push_str(&mut out, format_lower(fmt));
                push_str(&mut out, ".bin");
                out
            },
        }
    }

    /// The directory that the assets of the kind are kept in.
    pub fn folder(&self) -> (out: String)
        ensures
            out@ == folder_name(*self),
    {
        match kind_as_listed(*self) {
            AssetType::Animation => String::from_str("anim"),
            AssetType::Binary => String::from_str("bin"),
            AssetType::DemoInput => String::from_str("demo"),
            AssetType::Dialog => String::from_str("dialog"),
            AssetType::GruntyQuestion => String::from_str("grunty_q"),
            AssetType::LevelSetup => String::from_str("lvl_setup"),
            AssetType::Midi => String::from_str("midi"),
            AssetType::Model => String::from_str("model"),
            AssetType::QuizQuestion => String::from_str("quiz_q"),
            AssetType::Sprite(_) => String::from_str("sprite"),
        }
    }
}

} // verus!
