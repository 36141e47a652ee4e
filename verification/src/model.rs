//! The record data model: compression hints, entry metadata, entry records
//! and the per-archive `(output name, encoded bytes)` buffer.

use vstd::prelude::*;

verus! {

/// The compression method observed on a source archive entry.
///
/// Any unrecognized source method collapses to `Unspecified` at extraction
/// time. In the binary encoding the hint is a one-byte enumerated value:
/// `Unspecified` is 0, `Store` is 100, `Deflate` is 108; decoding any other
/// byte is a malformed-encoding error.
#[derive(Clone, Copy, Debug, PartialEq, Eq, Structural)]
pub enum CompressionMethod {
    Unspecified,
    Store,
    Deflate,
}

/// The enumerated byte that encodes a compression hint.
pub open spec fn compression_code(c: CompressionMethod) -> u8 {
    match c {
        CompressionMethod::Unspecified => 0,
        CompressionMethod::Store => 100,
        CompressionMethod::Deflate => 108,
    }
}

/// The compression hint a byte decodes to, if any.
pub open spec fn code_compression(b: u8) -> Option<CompressionMethod> {
    if b == 0 {
        Some(CompressionMethod::Unspecified)
    } else if b == 100 {
        Some(CompressionMethod::Store)
    } else if b == 108 {
        Some(CompressionMethod::Deflate)
    } else {
        None
    }
}

/// Executable counterpart of [`compression_code`].
pub fn compression_to_code(c: CompressionMethod) -> (r: u8)
    ensures
        r == compression_code(c),
{
    match c {
        CompressionMethod::Unspecified => 0,
        CompressionMethod::Store => 100,
        CompressionMethod::Deflate => 108,
    }
}

/// Executable counterpart of [`code_compression`].
pub fn code_to_compression(b: u8) -> (r: Option<CompressionMethod>)
    ensures
        r == code_compression(b),
{
    if b == 0 {
        Some(CompressionMethod::Unspecified)
    } else if b == 100 {
        Some(CompressionMethod::Store)
    } else if b == 108 {
        Some(CompressionMethod::Deflate)
    } else {
        None
    }
}

impl Default for CompressionMethod {
    /// The schema default: `Unspecified`.
    fn default() -> (r: Self)
        ensures
            r == CompressionMethod::Unspecified,
    {
        CompressionMethod::Unspecified
    }
}

/// The mathematical value of an [`ZipMeta`]: its five fields, texts as
/// character sequences.
pub struct ZipMetaV {
    pub filename: Seq<char>,
    pub comment: Seq<char>,
    pub modified_unixtime: u32,
    pub compression: CompressionMethod,
    pub is_dir: bool,
}

impl ZipMetaV {
    /// The schema-defined default metadata value.
    pub open spec fn default_v() -> ZipMetaV {
        ZipMetaV {
            filename: Seq::empty(),
            comment: Seq::empty(),
            modified_unixtime: 0,
            compression: CompressionMethod::Unspecified,
            is_dir: false,
        }
    }
}

/// The structured metadata of one archive entry.
///
/// All fields have schema-defined defaults, so a metadata record round-trips
/// even when extraction could not populate every field: a missing extended
/// timestamp leaves `modified_unixtime` at 0, meaning "unknown".
#[derive(Debug)]
pub struct ZipMeta {
    pub filename: String,
    pub comment: String,
    pub modified_unixtime: u32,
    pub compression: CompressionMethod,
    pub is_dir: bool,
}

impl View for ZipMeta {
    type V = ZipMetaV;

    open spec fn view(&self) -> ZipMetaV {
        ZipMetaV {
            filename: self.filename@,
            comment: self.comment@,
            modified_unixtime: self.modified_unixtime,
            compression: self.compression,
            is_dir: self.is_dir,
        }
    }
}

impl Default for ZipMeta {
    /// All fields at their schema-defined defaults.
    fn default() -> (r: Self)
        ensures
            r@ == ZipMetaV::default_v(),
    {
        let r = ZipMeta {
            filename: String::new(),
            comment: String::new(),
            modified_unixtime: 0,
            compression: CompressionMethod::Unspecified,
            is_dir: false,
        };
        assert(r@ =~= ZipMetaV::default_v());
        r
    }
}

/// The mathematical value of an [`ZipItem`].
pub struct ZipItemV {
    pub meta: ZipMetaV,
    pub data: Seq<u8>,
}

/// One record: an entry's metadata together with its raw, fully
/// decompressed payload bytes (empty for directories).
#[derive(Debug)]
pub struct ZipItem {
    pub meta: ZipMeta,
    pub data: Vec<u8>,
}

impl View for ZipItem {
    type V = ZipItemV;

    open spec fn view(&self) -> ZipItemV {
        ZipItemV { meta: self.meta@, data: self.data@ }
    }
}

/// The views of a list of records.
pub open spec fn items_view(s: Seq<ZipItem>) -> Seq<ZipItemV> {
    s.map_values(|it: ZipItem| it@)
}

/// The reusable per-archive output buffer: the output entry name and the
/// encoded record sequence destined for one output archive entry.
#[derive(Debug)]
pub struct ZipSequence {
    pub zipname: String,
    pub derdata: Vec<u8>,
}

impl Default for ZipSequence {
    /// An empty name and an empty encoding buffer.
    fn default() -> (r: Self)
        ensures
            r.zipname@ == Seq::<char>::empty(),
            r.derdata@ == Seq::<u8>::empty(),
    {
        let r = ZipSequence { zipname: String::new(), derdata: Vec::new() };
        assert(r.zipname@ =~= Seq::<char>::empty());
        assert(r.derdata@ =~= Seq::<u8>::empty());
        r
    }
}

} // verus!
