//! Assets of any kind, and which kind a payload or a file holds.

use vstd::prelude::*;
use vstd::utf8::encode_utf8;
use crate::bytes::{copy_all, has_prefix, starts_with};
use crate::demo::{demo_fits, demo_of, demo_of_node, DemoButtonFile, DemoView};
use crate::dialog::{dialog_fits, dialog_of, dialog_of_node, dialog_prefix, Dialog, DialogView};
use crate::error::AssetError;
use crate::format::ImgFmt;
use crate::kind::{kind_name, AssetType};
use crate::opaque::{Animation, Binary, LevelSetup, MidiSeqFile, Model};
use crate::question::{
    grunty_prefix, question_fits, question_of, question_of_node, quiz_prefix, GruntyQuestion, QuestionView,
    QuizQuestion,
};
use crate::sprite::{sprite_fits, sprite_of, Sprite, SpriteView};
use crate::text::{file_text, read_text, same_text};
use crate::yaml::{document_of, load_document, Node};

verus! {

/// What every asset can do: give the bytes it is stored as in the
/// archive, its kind, and the bytes of the file it is kept in on disk.
pub trait Asset {
    /// The bytes the asset is stored as in the archive.
    spec fn stored(&self) -> Seq<u8>;

    /// The kind of the asset.
    spec fn kind(&self) -> AssetType;

    /// The bytes of the file the asset is kept in on disk.
    spec fn file(&self) -> Seq<u8>;

    /// The bytes the asset is stored as in the archive.
    fn to_bytes(&self) -> (out: Vec<u8>)
        ensures
            out@ == self.stored(),
    ;

    /// The kind of the asset.
    fn get_type(&self) -> (kind: AssetType)
        ensures
            kind == self.kind(),
    ;

    /// The bytes of the file the asset is kept in on disk.
    fn write(&self) -> (out: Vec<u8>)
        ensures
            out@ == self.file(),
    ;
}

/// The bytes of a text as a file holds it.
pub fn text_file(text: &String) -> (out: Vec<u8>)
    ensures
        out@ == encode_utf8(text@),
{
    copy_all(text.as_str().as_bytes())
}

/// An asset of any kind.
pub enum AnyAsset {
    Animation(Animation),
    Binary(Binary),
    DemoInput(DemoButtonFile),
    Dialog(Dialog),
    GruntyQuestion(GruntyQuestion),
    LevelSetup(LevelSetup),
    Midi(MidiSeqFile),
    Model(Model),
    QuizQuestion(QuizQuestion),
    Sprite(Sprite),
}

/// What an [`AnyAsset`] holds, as plain values.
pub enum AssetView {
    Animation(Seq<u8>),
    Binary(Seq<u8>),
    DemoInput(DemoView),
    Dialog(DialogView),
    GruntyQuestion(QuestionView),
    LevelSetup(Seq<u8>),
    Midi(Seq<u8>),
    Model(Seq<u8>),
    QuizQuestion(QuestionView),
    Sprite(SpriteView),
}

impl View for AnyAsset {
    type V = AssetView;

    open spec fn view(&self) -> AssetView {
        match self {
            AnyAsset::Animation(a) => AssetView::Animation(a@),
            AnyAsset::Binary(a) => AssetView::Binary(a@),
            AnyAsset::DemoInput(a) => AssetView::DemoInput(a@),
            AnyAsset::Dialog(a) => AssetView::Dialog(a@),
            AnyAsset::GruntyQuestion(a) => AssetView::GruntyQuestion(a@),
            AnyAsset::LevelSetup(a) => AssetView::LevelSetup(a@),
            AnyAsset::Midi(a) => AssetView::Midi(a@),
            AnyAsset::Model(a) => AssetView::Model(a@),
            AnyAsset::QuizQuestion(a) => AssetView::QuizQuestion(a@),
            AnyAsset::Sprite(a) => AssetView::Sprite(a@),
        }
    }
}

impl AssetView {
    /// The bytes the asset is stored as in the archive.
    pub open spec fn stored(self) -> Seq<u8> {
        match self {
            AssetView::Animation(b) => b,
            AssetView::Binary(b) => b,
            AssetView::DemoInput(d) => d.stored,
            AssetView::Dialog(d) => d.stored,
            AssetView::GruntyQuestion(q) => q.stored,
            AssetView::LevelSetup(b) => b,
            AssetView::Midi(b) => b,
            AssetView::Model(b) => b,
            AssetView::QuizQuestion(q) => q.stored,
            AssetView::Sprite(s) => s.bytes,
        }
    }

    /// The kind of the asset.
    pub open spec fn kind(self) -> AssetType {
        match self {
            AssetView::Animation(_) => AssetType::Animation,
            AssetView::Binary(_) => AssetType::Binary,
            AssetView::DemoInput(_) => AssetType::DemoInput,
            AssetView::Dialog(_) => AssetType::Dialog,
            AssetView::GruntyQuestion(_) => AssetType::GruntyQuestion,
            AssetView::LevelSetup(_) => AssetType::LevelSetup,
            AssetView::Midi(_) => AssetType::Midi,
            AssetView::Model(_) => AssetType::Model,
            AssetView::QuizQuestion(_) => AssetType::QuizQuestion,
            AssetView::Sprite(s) => AssetType::Sprite(s.format),
        }
    }

    /// The bytes of the file the asset is kept in on disk: a text for the
    /// kinds that have one, else the bytes as they are stored.
    pub open spec fn file(self) -> Seq<u8> {
        match self {
            AssetView::DemoInput(d) => encode_utf8(d.text()),
            AssetView::Dialog(d) => encode_utf8(d.text()),
            AssetView::GruntyQuestion(q) => encode_utf8(q.text("GruntyQuestion"@)),
            AssetView::QuizQuestion(q) => encode_utf8(q.text("QuizQuestion"@)),
            _ => self.stored(),
        }
    }
}

impl Asset for AnyAsset {
    open spec fn stored(&self) -> Seq<u8> {
        self@.stored()
    }

    open spec fn kind(&self) -> AssetType {
        self@.kind()
    }

    open spec fn file(&self) -> Seq<u8> {
        self@.file()
    }

    fn to_bytes(&self) -> (out: Vec<u8>) {
        match self {
            AnyAsset::Animation(a) => a.to_bytes(),
            AnyAsset::Binary(a) => a.to_bytes(),
            AnyAsset::DemoInput(a) => a.to_bytes(),
            AnyAsset::Dialog(a) => a.to_bytes(),
            AnyAsset::GruntyQuestion(a) => a.to_bytes(),
            AnyAsset::LevelSetup(a) => a.to_bytes(),
            AnyAsset::Midi(a) => a.to_bytes(),
            AnyAsset::Model(a) => a.to_bytes(),
            AnyAsset::QuizQuestion(a) => a.to_bytes(),
            AnyAsset::Sprite(a) => a.to_bytes(),
        }
    }

    fn get_type(&self) -> (kind: AssetType) {
        match self {
            AnyAsset::Animation(a) => a.get_type(),
            AnyAsset::Binary(a) => a.get_type(),
            AnyAsset::DemoInput(a) => a.get_type(),
            AnyAsset::Dialog(a) => a.get_type(),
            AnyAsset::GruntyQuestion(a) => a.get_type(),
            AnyAsset::LevelSetup(a) => a.get_type(),
            AnyAsset::Midi(a) => a.get_type(),
            AnyAsset::Model(a) => a.get_type(),
            AnyAsset::QuizQuestion(a) => a.get_type(),
            AnyAsset::Sprite(a) => a.get_type(),
        }
    }

    fn write(&self) -> (out: Vec<u8>) {
        match self {
            AnyAsset::Animation(a) => a.write(),
            AnyAsset::Binary(a) => a.write(),
            AnyAsset::DemoInput(a) => a.write(),
            AnyAsset::Dialog(a) => a.write(),
            AnyAsset::GruntyQuestion(a) => a.write(),
            AnyAsset::LevelSetup(a) => a.write(),
            AnyAsset::Midi(a) => a.write(),
            AnyAsset::Model(a) => a.write(),
            AnyAsset::QuizQuestion(a) => a.write(),
            AnyAsset::Sprite(a) => a.write(),
        }
    }
}

/// The bytes every model begins with.
pub open spec fn model_prefix() -> Seq<u8> {
    seq![0x00u8, 0x00u8, 0x00u8, 0x0Bu8]
}

/// The asset that the payload `b` of a slot in segment `segment` is, or
/// nothing where the payload is not a whole asset of its kind.
///
/// Segment 0 holds animations, segment 2 level setups, segment 5 models and
/// segment 6 music. Segments 1 and 3 hold models, which begin with the
/// prefix of a model, and sprites. Segment 4 holds quiz questions,
/// questions of Grunty's and dialogs, each told by its prefix, and demos.
/// A payload of any other segment is an asset of no known structure.
pub open spec fn asset_of(segment: int, b: Seq<u8>) -> Option<AssetView> {
    if segment == 0 {
        Some(AssetView::Animation(b))
    } else if segment == 1 || segment == 3 {
        if has_prefix(b, model_prefix()) {
            Some(AssetView::Model(b))
        } else if sprite_fits(b) {
            Some(AssetView::Sprite(sprite_of(b)))
        } else {
            None
        }
    } else if segment == 2 {
        Some(AssetView::LevelSetup(b))
    } else if segment == 4 {
        if has_prefix(b, quiz_prefix()) {
            if question_fits(b, quiz_prefix()) {
                Some(AssetView::QuizQuestion(question_of(b)))
            } else {
                None
            }
        } else if has_prefix(b, grunty_prefix()) {
            if question_fits(b, grunty_prefix()) {
                Some(AssetView::GruntyQuestion(question_of(b)))
            } else {
                None
            }
        } else if has_prefix(b, dialog_prefix()) {
            if dialog_fits(b) {
                Some(AssetView::Dialog(dialog_of(b)))
            } else {
                None
            }
        } else if demo_fits(b) {
            Some(AssetView::DemoInput(demo_of(b)))
        } else {
            None
        }
    } else if segment == 5 {
        Some(AssetView::Model(b))
    } else if segment == 6 {
        Some(AssetView::Midi(b))
    } else {
        Some(AssetView::Binary(b))
    }
}

/// Reads the payload of a slot as the kind of asset that its segment and
/// its first bytes call for. Fails where the payload is not a whole asset
/// of that kind.
pub fn from_seg_indx_and_bytes(segment: usize, i: usize, in_bytes: &[u8]) -> (r: Result<AnyAsset, AssetError>)
    ensures
        match r {
            Ok(asset) => asset_of(segment as int, in_bytes@) == Some(asset@),
            Err(e) => e == AssetError::CodecError && asset_of(segment as int, in_bytes@) is None,
        },
{
    if segment == 0 {
        Ok(AnyAsset::Animation(Animation::from_bytes(in_bytes)))
    } else if segment == 1 || segment == 3 {
        let model: [u8; 4] = [0x00, 0x00, 0x00, 0x0B];
        if starts_with(in_bytes, model.as_slice()) {
            Ok(AnyAsset::Model(Model::from_bytes(in_bytes)))
        } else {
            match Sprite::from_bytes(in_bytes) {
                Ok(sprite) => Ok(AnyAsset::Sprite(sprite)),
                Err(e) => Err(AssetError::CodecError),
            }
        }
    } else if segment == 2 {
        Ok(AnyAsset::LevelSetup(LevelSetup::from_bytes(in_bytes)))
    } else if segment == 4 {
        let quiz: [u8; 5] = [0x01, 0x01, 0x02, 0x05, 0x00];
        let grunty: [u8; 5] = [0x01, 0x03, 0x00, 0x05, 0x00];
        let dialog: [u8; 3] = [0x01, 0x03, 0x00];
        if starts_with(in_bytes, quiz.as_slice()) {
            match QuizQuestion::from_bytes(in_bytes) {
                Ok(question) => Ok(AnyAsset::QuizQuestion(question)),
                Err(e) => Err(AssetError::CodecError),
            }
        } else if starts_with(in_bytes, grunty.as_slice()) {
            match GruntyQuestion::from_bytes(in_bytes) {
                Ok(question) => Ok(AnyAsset::GruntyQuestion(question)),
                Err(e) => Err(AssetError::CodecError),
            }
        } else if starts_with(in_bytes, dialog.as_slice()) {
            match Dialog::from_bytes(in_bytes) {
                Ok(dialog) => Ok(AnyAsset::Dialog(dialog)),
                Err(e) => Err(AssetError::CodecError),
            }
        } else {
            match DemoButtonFile::from_bytes(in_bytes) {
                Ok(demo) => Ok(AnyAsset::DemoInput(demo)),
                Err(e) => Err(AssetError::CodecError),
            }
        }
    } else if segment == 5 {
        Ok(AnyAsset::Model(Model::from_bytes(in_bytes)))
    } else if segment == 6 {
        Ok(AnyAsset::Midi(MidiSeqFile::from_bytes(in_bytes)))
    } else {
        Ok(AnyAsset::Binary(Binary::from_bytes(in_bytes)))
    }
}

/// The first YAML document of the text that a file holds.
pub open spec fn file_document(file: Seq<u8>) -> Option<Node> {
    match file_text(file) {
        Some(text) => document_of(text),
        None => None,
    }
}

/// Whether `name` is the name by which the manifest calls a sprite.
pub open spec fn is_sprite_name(name: Seq<char>) -> bool {
    ||| name == kind_name(AssetType::Sprite(ImgFmt::CI4))
    ||| name == kind_name(AssetType::Sprite(ImgFmt::CI8))
    ||| name == kind_name(AssetType::Sprite(ImgFmt::I4))
    ||| name == kind_name(AssetType::Sprite(ImgFmt::I8))
    ||| name == kind_name(AssetType::Sprite(ImgFmt::RGBA16))
    ||| name == kind_name(AssetType::Sprite(ImgFmt::RGBA32))
    ||| name == kind_name(AssetType::Sprite(ImgFmt::IA4))
    ||| name == kind_name(AssetType::Sprite(ImgFmt::IA8))
}

/// The asset that a file holds which the manifest lists under the name
/// `name`, or nothing where the name is none of the manifest's or the file
/// does not hold an asset of that kind.
///
/// A dialog, a question and a demo are read from the first YAML document of
/// the file's text. An asset of any other kind is the bytes of the file; of
/// a sprite only these are kept, and neither format nor frames.
pub open spec fn asset_of_file(name: Seq<char>, file: Seq<u8>) -> Option<AssetView> {
    if name == "Dialog"@ {
        match file_document(file) {
            Some(doc) => match dialog_of_node(doc) {
                Some(dialog) => Some(AssetView::Dialog(dialog)),
                None => None,
            },
            None => None,
        }
    } else if name == "GruntyQuestion"@ {
        match file_document(file) {
            Some(doc) => match question_of_node(doc, "GruntyQuestion"@, grunty_prefix()) {
                Some(question) => Some(AssetView::GruntyQuestion(question)),
                None => None,
            },
            None => None,
        }
    } else if name == "QuizQuestion"@ {
        match file_document(file) {
            Some(doc) => match question_of_node(doc, "QuizQuestion"@, quiz_prefix()) {
                Some(question) => Some(AssetView::QuizQuestion(question)),
                None => None,
            },
            None => None,
        }
    } else if name == "DemoInput"@ {
        match file_document(file) {
            Some(doc) => match demo_of_node(doc) {
                Some(demo) => Some(AssetView::DemoInput(demo)),
                None => None,
            },
            None => None,
        }
    } else if name == "Binary"@ {
        Some(AssetView::Binary(file))
    } else if name == "Animation"@ {
        Some(AssetView::Animation(file))
    } else if name == "LevelSetup"@ {
        Some(AssetView::LevelSetup(file))
    } else if name == "Midi"@ {
        Some(AssetView::Midi(file))
    } else if name == "Model"@ {
        Some(AssetView::Model(file))
    } else if is_sprite_name(name) {
        Some(AssetView::Sprite(SpriteView { format: ImgFmt::Unknown(0), frames: Seq::empty(), bytes: file }))
    } else {
        None
    }
}

/// The first YAML document of the text that a file holds. Fails where the
/// file is no text, the text no YAML, or the YAML without a document.
pub fn read_document(file: &[u8]) -> (r: Result<Node, AssetError>)
    ensures
        match r {
            Ok(doc) => file_document(file@) == Some(doc),
            Err(e) => e == AssetError::CodecError && file_document(file@) is None,
        },
{
    match read_text(file) {
        Some(text) => load_document(text),
        None => Err(AssetError::CodecError),
    }
}

/// Whether `name` is the name by which the manifest calls a sprite.
pub fn names_sprite(name: &str) -> (r: bool)
    ensures
        r == is_sprite_name(name@),
{
    same_text(name, AssetType::Sprite(ImgFmt::CI4).name().as_str()) || same_text(
        name,
        AssetType::Sprite(ImgFmt::CI8).name().as_str(),
    ) || same_text(name, AssetType::Sprite(ImgFmt::I4).name().as_str()) || same_text(
        name,
        AssetType::Sprite(ImgFmt::I8).name().as_str(),
    ) || same_text(name, AssetType::Sprite(ImgFmt::RGBA16).name().as_str()) || same_text(
        name,
        AssetType::Sprite(ImgFmt::RGBA32).name().as_str(),
    ) || same_text(name, AssetType::Sprite(ImgFmt::IA4).name().as_str()) || same_text(
        name,
        AssetType::Sprite(ImgFmt::IA8).name().as_str(),
    )
}

impl AnyAsset {
    /// Reads the asset that a file holds which the manifest lists under
    /// the name `name`. Fails where the name is none of the manifest's, and
    /// where the file does not hold an asset of that kind.
    pub fn read(name: &str, file: &[u8]) -> (r: Result<AnyAsset, AssetError>)
        ensures
            match r {
                Ok(asset) => asset_of_file(name@, file@) == Some(asset@),
                Err(e) => e == AssetError::CodecError && asset_of_file(name@, file@) is None,
            },
    {
        if same_text(name, "Dialog") {
            match read_document(file) {
                Ok(doc) => match Dialog::from_yaml(&doc) {
                    Ok(dialog) => Ok(AnyAsset::Dialog(dialog)),
                    Err(e) => Err(AssetError::CodecError),
                },
                Err(e) => Err(AssetError::CodecError),
            }
        } else if same_text(name, "GruntyQuestion") {
            match read_document(file) {
                Ok(doc) => match GruntyQuestion::from_yaml(&doc) {
                    Ok(question) => Ok(AnyAsset::GruntyQuestion(question)),
                    Err(e) => Err(AssetError::CodecError),
                },
                Err(e) => Err(AssetError::CodecError),
            }
        } else if same_text(name, "QuizQuestion") {
            match read_document(file) {
                Ok(doc) => match QuizQuestion::from_yaml(&doc) {
                    Ok(question) => Ok(AnyAsset::QuizQuestion(question)),
                    Err(e) => Err(AssetError::CodecError),
                },
                Err(e) => Err(AssetError::CodecError),
            }
        } else if same_text(name, "DemoInput") {
            match read_document(file) {
                Ok(doc) => match DemoButtonFile::from_yaml(&doc) {
                    Ok(demo) => Ok(AnyAsset::DemoInput(demo)),
                    Err(e) => Err(AssetError::CodecError),
                },
                Err(e) => Err(AssetError::CodecError),
            }
        } else if same_text(name, "Binary") {
            Ok(AnyAsset::Binary(Binary::read(file)))
        } else if same_text(name, "Animation") {
            Ok(AnyAsset::Animation(Animation::read(file)))
        } else if same_text(name, "LevelSetup") {
            Ok(AnyAsset::LevelSetup(LevelSetup::read(file)))
        } else if same_text(name, "Midi") {
            Ok(AnyAsset::Midi(MidiSeqFile::read(file)))
        } else if same_text(name, "Model") {
            Ok(AnyAsset::Model(Model::read(file)))
        } else if names_sprite(name) {
            Ok(AnyAsset::Sprite(Sprite::read(file)))
        } else {
            Err(AssetError::CodecError)
        }
    }
}

/// An asset that was read from a payload is stored again as the bytes of
/// that payload, all of them and no others. The one exception is a demo
/// read from fewer than four bytes, which is stored as no bytes at all.
pub proof fn lemma_asset_written_back(segment: int, b: Seq<u8>)
    requires
        asset_of(segment, b) is Some,
    ensures
        asset_of(segment, b)->0 is DemoInput && b.len() < 4 ==> asset_of(segment, b)->0.stored()
            == Seq::<u8>::empty(),
        !(asset_of(segment, b)->0 is DemoInput && b.len() < 4) ==> asset_of(segment, b)->0.stored() == b,
{
}

/// An asset that is kept on disk as the bytes it is stored as, which is
/// every asset but a dialog, a question and a demo, is read back from its
/// file, under the name of its kind, with the same stored bytes.
pub proof fn lemma_file_read_back(asset: AssetView)
    requires
        !(asset is Dialog),
        !(asset is QuizQuestion),
        !(asset is GruntyQuestion),
        !(asset is DemoInput),
    ensures
        asset_of_file(kind_name(asset.kind()), asset.file()) matches Some(read) && read.stored()
            == asset.stored(),
{
    reveal_strlit("Dialog");
    reveal_strlit("GruntyQuestion");
    reveal_strlit("QuizQuestion");
    reveal_strlit("DemoInput");
    reveal_strlit("Binary");
    reveal_strlit("Animation");
    reveal_strlit("LevelSetup");
    reveal_strlit("Midi");
    reveal_strlit("Model");
    reveal_strlit("Sprite_");
    let name = kind_name(asset.kind());
    assert(name[0] != 'D' && name[0] != 'G' && name[0] != 'Q');
    match asset {
        AssetView::Sprite(sprite) => {
            if !(sprite.format is Unknown) {
                assert(name[0] == 'S');
                assert(is_sprite_name(name));
            }
        },
        AssetView::Model(_) => {
            assert(name[1] == 'o');
        },
        _ => {},
    }
}

} // verus!
