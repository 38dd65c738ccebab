//! Reading and rebuilding the asset archive of Banjo-Kazooie.
//!
//! The archive is a table of slots in front of the payloads that the slots
//! bound. [`table`] cuts an archive into its slots and their payloads,
//! [`segment`] tells from the flags of the slots which kind of asset each
//! payload holds, and [`asset`] reads a payload as that kind: a
//! [`dialog`], a [`question`], a [`demo`], a [`sprite`], or one of the
//! kinds in [`opaque`], which are kept as bytes. [`archive`] holds the
//! assets of an archive as a folder and makes the archive again;
//! [`manifest`] and [`files`] say which files a folder is written as and
//! how it is taken up from them again.
//!
//! Underneath, [`bytes`] reads and writes big-endian integers, [`text`]
//! translates the one-byte text of the game, [`texture`] expands stored
//! pixels to RGBA8, [`chunk`] and [`frame`] put the images of a sprite
//! together, [`png`] makes PNG files of them, and [`yaml`] reads YAML text
//! into a tree of plain values.
//!
//! Compressed payloads are packed and unpacked by the caller: the library
//! hands out and takes in every payload as bytes, and says of each whether
//! it is stored compressed.

pub mod archive;
pub mod asset;
pub mod bytes;
pub mod chunk;
pub mod demo;
pub mod dialog;
pub mod entry;
pub mod error;
pub mod files;
pub mod format;
pub mod frame;
pub mod kind;
pub mod manifest;
pub mod opaque;
pub mod png;
pub mod question;
pub mod segment;
pub mod sprite;
pub mod strings;
pub mod table;
pub mod text;
pub mod texture;
pub mod yaml;
