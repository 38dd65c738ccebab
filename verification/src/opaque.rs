//! Assets that are kept as the bytes they are stored as.

use vstd::prelude::*;
use crate::asset::Asset;
use crate::bytes::copy_all;
use crate::kind::AssetType;

verus! {

/// An asset of no known structure.
pub struct Binary {
    bytes: Vec<u8>,
}

impl View for Binary {
    type V = Seq<u8>;

    closed spec fn view(&self) -> Seq<u8> {
        self.bytes@
    }
}

impl Binary {
    /// The asset that the bytes of a payload are.
    pub fn from_bytes(in_bytes: &[u8]) -> (asset: Binary)
        ensures
            asset@ == in_bytes@,
    {
        Binary { bytes: copy_all(in_bytes) }
    }

    /// The asset that the bytes of its file are.
    pub fn read(file: &[u8]) -> (asset: Binary)
        ensures
            asset@ == file@,
    {
        Binary { bytes: copy_all(file) }
    }
}

impl Asset for Binary {
    open spec fn stored(&self) -> Seq<u8> {
        self@
    }

    open spec fn kind(&self) -> AssetType {
        AssetType::Binary
    }

    open spec fn file(&self) -> Seq<u8> {
        self@
    }

    fn to_bytes(&self) -> (out: Vec<u8>) {
        copy_all(self.bytes.as_slice())
    }

    fn get_type(&self) -> (kind: AssetType) {
        AssetType::Binary
    }

    fn write(&self) -> (out: Vec<u8>) {
        copy_all(self.bytes.as_slice())
    }
}

/// A sequence of music, kept as the bytes it is stored as.
pub struct MidiSeqFile {
    bytes: Vec<u8>,
}

impl View for MidiSeqFile {
    type V = Seq<u8>;

    closed spec fn view(&self) -> Seq<u8> {
        self.bytes@
    }
}

impl MidiSeqFile {
    /// The asset that the bytes of a payload are.
    pub fn from_bytes(in_bytes: &[u8]) -> (asset: MidiSeqFile)
        ensures
            asset@ == in_bytes@,
    {
        MidiSeqFile { bytes: copy_all(in_bytes) }
    }

    /// The asset that the bytes of its file are.
    pub fn read(file: &[u8]) -> (asset: MidiSeqFile)
        ensures
            asset@ == file@,
    {
        MidiSeqFile { bytes: copy_all(file) }
    }
}

impl Asset for MidiSeqFile {
    open spec fn stored(&self) -> Seq<u8> {
        self@
    }

    open spec fn kind(&self) -> AssetType {
        AssetType::Midi
    }

    open spec fn file(&self) -> Seq<u8> {
        self@
    }

    fn to_bytes(&self) -> (out: Vec<u8>) {
        copy_all(self.bytes.as_slice())
    }

    fn get_type(&self) -> (kind: AssetType) {
        AssetType::Midi
    }

    fn write(&self) -> (out: Vec<u8>) {
        copy_all(self.bytes.as_slice())
    }
}

/// The setup of a level, kept as the bytes it is stored as.
pub struct LevelSetup {
    bytes: Vec<u8>,
}

impl View for LevelSetup {
    type V = Seq<u8>;

    closed spec fn view(&self) -> Seq<u8> {
        self.bytes@
    }
}

impl LevelSetup {
    /// The asset that the bytes of a payload are.
    pub fn from_bytes(in_bytes: &[u8]) -> (asset: LevelSetup)
        ensures
            asset@ == in_bytes@,
    {
        LevelSetup { bytes: copy_all(in_bytes) }
    }

    /// The asset that the bytes of its file are.
    pub fn read(file: &[u8]) -> (asset: LevelSetup)
        ensures
            asset@ == file@,
    {
        LevelSetup { bytes: copy_all(file) }
    }
}

impl Asset for LevelSetup {
    open spec fn stored(&self) -> Seq<u8> {
        self@
    }

    open spec fn kind(&self) -> AssetType {
        AssetType::LevelSetup
    }

    open spec fn file(&self) -> Seq<u8> {
        self@
    }

    fn to_bytes(&self) -> (out: Vec<u8>) {
        copy_all(self.bytes.as_slice())
    }

    fn get_type(&self) -> (kind: AssetType) {
        AssetType::LevelSetup
    }

    fn write(&self) -> (out: Vec<u8>) {
        copy_all(self.bytes.as_slice())
    }
}

/// An animation, kept as the bytes it is stored as.
pub struct Animation {
    bytes: Vec<u8>,
}

impl View for Animation {
    type V = Seq<u8>;

    closed spec fn view(&self) -> Seq<u8> {
        self.bytes@
    }
}

impl Animation {
    /// The asset that the bytes of a payload are.
    pub fn from_bytes(in_bytes: &[u8]) -> (asset: Animation)
        ensures
            asset@ == in_bytes@,
    {
        Animation { bytes: copy_all(in_bytes) }
    }

    /// The asset that the bytes of its file are.
    pub fn read(file: &[u8]) -> (asset: Animation)
        ensures
            asset@ == file@,
    {
        Animation { bytes: copy_all(file) }
    }
}

impl Asset for Animation {
    open spec fn stored(&self) -> Seq<u8> {
        self@
    }

    open spec fn kind(&self) -> AssetType {
        AssetType::Animation
    }

    open spec fn file(&self) -> Seq<u8> {
        self@
    }

    fn to_bytes(&self) -> (out: Vec<u8>) {
        copy_all(self.bytes.as_slice())
    }

    fn get_type(&self) -> (kind: AssetType) {
        AssetType::Animation
    }

    fn write(&self) -> (out: Vec<u8>) {
        copy_all(self.bytes.as_slice())
    }
}

/// A model, kept as the bytes it is stored as.
pub struct Model {
    bytes: Vec<u8>,
}

impl View for Model {
    type V = Seq<u8>;

    closed spec fn view(&self) -> Seq<u8> {
        self.bytes@
    }
}

impl Model {
    /// The asset that the bytes of a payload are.
    pub fn from_bytes(in_bytes: &[u8]) -> (asset: Model)
        ensures
            asset@ == in_bytes@,
    {
        Model { bytes: copy_all(in_bytes) }
    }

    /// The asset that the bytes of its file are.
    pub fn read(file: &[u8]) -> (asset: Model)
        ensures
            asset@ == file@,
    {
        Model { bytes: copy_all(file) }
    }
}

impl Asset for Model {
    open spec fn stored(&self) -> Seq<u8> {
        self@
    }

    open spec fn kind(&self) -> AssetType {
        AssetType::Model
    }

    open spec fn file(&self) -> Seq<u8> {
        self@
    }

    fn to_bytes(&self) -> (out: Vec<u8>) {
        copy_all(self.bytes.as_slice())
    }

    fn get_type(&self) -> (kind: AssetType) {
        AssetType::Model
    }

    fn write(&self) -> (out: Vec<u8>) {
        copy_all(self.bytes.as_slice())
    }
}

} // verus!
