//! The files that the assets of an archive are kept in.

use vstd::prelude::*;
use vstd::string::StringExecFns;
use vstd::utf8::encode_utf8;
use crate::asset::{text_file, AnyAsset, Asset, AssetView};
use crate::entry::{AssetEntry, EntryView};
use crate::error::AssetError;
use crate::format::ImgFmt;
use crate::frame::{FrameView, SpriteFrame};
use crate::kind::{file_ext, folder_name, AssetType};
use crate::manifest::manifest_text;
use crate::png::frame_png;
use crate::sprite::{frame_file, frame_file_name, Sprite};
use crate::text::{hex4, push_hex4, push_str};

verus! {

/// Where the file of the asset at place `uid` is kept, from the directory
/// of the manifest: the directory of its kind, and in it the place in four
/// hexadecimal digits with the ending of the kind.
pub open spec fn relative_path(kind: AssetType, uid: int) -> Seq<char> {
    folder_name(kind) + "/"@ + hex4(uid as nat) + file_ext(kind)
}

/// The directory, from that of the manifest, in which the frames of the
/// sprite at place `uid` are kept: one named by the place, beside the
/// sprite's file.
pub open spec fn frames_dir(uid: int) -> Seq<char> {
    "sprite/"@ + hex4(uid as nat)
}

/// Where the descriptor of the sprite at place `uid` is kept.
pub open spec fn descriptor_path(uid: int) -> Seq<char> {
    "sprite/"@ + hex4(uid as nat) + ".sprite.yaml"@
}

/// The directory in which the frames of the sprite at place `uid` are kept.
pub fn frames_dir_of(uid: usize) -> (out: String)
    ensures
        out@ == frames_dir(uid as int),
{
    let mut out: String = String::from_str("sprite/");
    push_hex4(&mut out, uid as u128);
    out
}

/// Where the descriptor of the sprite at place `uid` is kept.
pub fn descriptor_path_of(uid: usize) -> (out: String)
    ensures
        out@ == descriptor_path(uid as int),
{
    let mut out: String = String::from_str("sprite/");
    push_hex4(&mut out, uid as u128);
    push_str(&mut out, ".sprite.yaml");
    out
}

/// Where the file of the asset at place `uid` is kept.
pub fn path_of(kind: AssetType, uid: usize) -> (out: String)
    ensures
        out@ == relative_path(kind, uid as int),
{
    let mut out: String = kind.folder();
    push_str(&mut out, "/");
    push_hex4(&mut out, uid as u128);
    push_str(&mut out, kind.extension().as_str());
    out
}

/// A file to be written: where it is kept, from the directory of the
/// manifest, and what it holds.
pub struct OutFile {
    pub path: String,
    pub bytes: Vec<u8>,
}

/// What an [`OutFile`] holds, as plain values.
pub struct FileView {
    pub path: Seq<char>,
    pub bytes: Seq<u8>,
}

impl View for OutFile {
    type V = FileView;

    open spec fn view(&self) -> FileView {
        FileView { path: self.path@, bytes: self.bytes@ }
    }
}

/// The views of a list of files.
pub open spec fn file_views(list: Seq<OutFile>) -> Seq<FileView> {
    Seq::new(list.len(), |i: int| list[i]@)
}

/// The PNG files of the frames of a sprite, kept in `dir`, where there is
/// one of each frame.
pub open spec fn frame_files(dir: Seq<char>, fmt: ImgFmt, frames: Seq<FrameView>) -> Option<Seq<FileView>> {
    if forall|i: int| 0 <= i < frames.len() ==> frame_png(#[trigger] frames[i]) is Some {
        Some(
            Seq::new(
                frames.len(),
                |i: int| FileView { path: dir + "/"@ + frame_file(i as nat, fmt), bytes: frame_png(frames[i])->0 },
            ),
        )
    } else {
        None
    }
}

/// The files of one entry. An entry without asset has none. An asset has
/// the file that holds it. A sprite of a known format has besides its
/// descriptor and, in a directory of its own, a PNG file of each frame.
pub open spec fn entry_files(entry: EntryView) -> Option<Seq<FileView>> {
    match entry.data {
        None => Some(Seq::empty()),
        Some(asset) => {
            let own = FileView { path: relative_path(asset.kind(), entry.uid), bytes: asset.file() };
            match asset {
                AssetView::Sprite(sprite) => if sprite.format is Unknown {
                    Some(seq![own])
                } else {
                    match frame_files(frames_dir(entry.uid), sprite.format, sprite.frames) {
                        Some(frames) => Some(
                            seq![
                                own,
                                FileView {
                                    path: descriptor_path(entry.uid),
                                    bytes: encode_utf8(sprite.descriptor(frames_dir(entry.uid))),
                                },
                            ] + frames,
                        ),
                        None => None,
                    }
                },
                _ => Some(seq![own]),
            }
        },
    }
}

/// The files of the first `n` entries, in the order of the table.
pub open spec fn files_upto(entries: Seq<EntryView>, n: nat) -> Seq<FileView>
    decreases n,
{
    if n == 0 {
        Seq::empty()
    } else {
        files_upto(entries, (n - 1) as nat) + entry_files(entries[n - 1])->0
    }
}

/// The files that a folder is written as: the manifest, named
/// `assets.yaml`, and the files of every entry; or nothing where a frame of
/// a sprite is no image.
pub open spec fn folder_files(entries: Seq<EntryView>) -> Option<Seq<FileView>> {
    if forall|i: int| 0 <= i < entries.len() ==> entry_files(#[trigger] entries[i]) is Some {
        Some(
            seq![FileView { path: "assets.yaml"@, bytes: encode_utf8(manifest_text(entries)) }] + files_upto(
                entries,
                entries.len(),
            ),
        )
    } else {
        None
    }
}

/// The PNG files of the frames of a sprite, kept in `dir`.
pub fn write_frames(dir: &str, sprite: &Sprite) -> (r: Result<Vec<OutFile>, AssetError>)
    ensures
        match r {
            Ok(files) => frame_files(dir@, sprite@.format, sprite@.frames) == Some(file_views(files@)),
            Err(e) => e == AssetError::CodecError && frame_files(dir@, sprite@.format, sprite@.frames) is None,
        },
{
    let mut files: Vec<OutFile> = Vec::new();
    let mut i: usize = 0;
    while i < sprite.frame.len()
        invariant
            i <= sprite.frame@.len(),
            files@.len() == i,
            forall|k: int| 0 <= k < i ==> frame_png(#[trigger] sprite@.frames[k]) is Some,
            forall|k: int|
                0 <= k < i ==> (#[trigger] files@[k])@ == (FileView {
                    path: dir@ + "/"@ + frame_file(k as nat, sprite@.format),
                    bytes: frame_png(sprite@.frames[k])->0,
                }),
        decreases sprite.frame@.len() - i,
    {
        let frame: &SpriteFrame = &sprite.frame[i];
        assert(sprite@.frames[i as int] == frame@);
        let bytes: Vec<u8> = match frame.to_png() {
            Ok(bytes) => bytes,
            Err(e) => {
                return Err(AssetError::CodecError);
            },
        };
        let mut path: String = String::from_str(dir);
        push_str(&mut path, "/");
        push_str(&mut path, frame_file_name(i, sprite.format).as_str());
        files.push(OutFile { path, bytes });
        i += 1;
    }
    Ok(files)
}

impl AssetEntry {
    /// The files of the entry.
    pub fn write(&self) -> (r: Result<Vec<OutFile>, AssetError>)
        ensures
            match r {
                Ok(files) => entry_files(self@) == Some(file_views(files@)),
                Err(e) => e == AssetError::CodecError && entry_files(self@) is None,
            },
    {
        let mut files: Vec<OutFile> = Vec::new();
        let asset: &AnyAsset = match &self.data {
            Some(asset) => asset,
            None => {
                return Ok(files);
            },
        };
        let own = OutFile { path: path_of(asset.get_type(), self.uid), bytes: asset.write() };
        files.push(own);
        if let AnyAsset::Sprite(sprite) = asset {
            if sprite.format.is_known() {
                let dir: String = frames_dir_of(self.uid);
                let mut frames: Vec<OutFile> = match write_frames(dir.as_str(), sprite) {
                    Ok(frames) => frames,
                    Err(e) => {
                        return Err(AssetError::CodecError);
                    },
                };
                let descriptor = OutFile {
                    path: descriptor_path_of(self.uid),
                    bytes: text_file(&sprite.descriptor(dir.as_str())),
                };
                files.push(descriptor);
                files.append(&mut frames);
                return Ok(files);
            }
        }
        Ok(files)
    }
}

} // verus!
