//! The archive entry extractor.
//!
//! One input archive, held in memory as plain bytes, is opened through the
//! `zip` crate and turned into an ordered list of records: for every entry,
//! in central-directory order, the metadata is derived from the entry's
//! low-level attributes and the payload is read fully decompressed into an
//! owned buffer.

use vstd::prelude::*;
use vstd::bytes::{spec_u16_from_le_bytes, spec_u32_from_le_bytes, u16_from_le_bytes,
    u32_from_le_bytes};
use vstd::slice::{slice_subrange, slice_to_vec};

use crate::errors::ZipSeqError;
use crate::model::{items_view, CompressionMethod, ZipItem, ZipItemV, ZipMeta, ZipMetaV};

verus! {

/// The low-level view of one archive entry: the central-directory fields
/// the extractor reads, plus the fully decompressed payload.
pub struct RawZipEntryV {
    pub filename: Seq<char>,
    pub comment: Seq<char>,
    pub method_code: u16,
    pub extra: Seq<u8>,
    pub dir: bool,
    pub payload: Seq<u8>,
}

/// One archive entry, as plain values: its central-directory metadata
/// fields, its raw extra-field bytes, and its fully decompressed payload.
#[derive(Debug)]
pub struct RawZipEntry {
    pub filename: String,
    pub comment: String,
    pub method_code: u16,
    pub extra: Vec<u8>,
    pub dir: bool,
    pub payload: Vec<u8>,
}

impl View for RawZipEntry {
    type V = RawZipEntryV;

    open spec fn view(&self) -> RawZipEntryV {
        RawZipEntryV {
            filename: self.filename@,
            comment: self.comment@,
            method_code: self.method_code,
            extra: self.extra@,
            dir: self.dir,
            payload: self.payload@,
        }
    }
}

/// The compression hint a low-level method code maps to: 0 (stored) is
/// `Store`, 8 (deflated) is `Deflate`, anything else collapses to
/// `Unspecified`.
pub open spec fn method_of(code: u16) -> CompressionMethod {
    if code == 0 {
        CompressionMethod::Store
    } else if code == 8 {
        CompressionMethod::Deflate
    } else {
        CompressionMethod::Unspecified
    }
}

/// The modification time carried by the first extended-timestamp extra
/// field that has one, if any.
///
/// The extra bytes are a list of blocks, each a little-endian 16-bit header
/// id, a little-endian 16-bit data size, then that many data bytes. An
/// extended-timestamp block has id 0x5455; its first data byte is a flag
/// byte, and when its lowest bit is set the following four bytes are the
/// little-endian Unix modification time. A truncated block ends the scan
/// with nothing found.
pub open spec fn spec_ext_mod_time(b: Seq<u8>) -> Option<u32>
    decreases b.len(),
{
    if b.len() < 4 {
        None
    } else {
        let id = spec_u16_from_le_bytes(b.subrange(0, 2));
        let sz = spec_u16_from_le_bytes(b.subrange(2, 4)) as int;
        if 4 + sz > b.len() {
            None
        } else if id == 0x5455 && sz >= 5 && b[4] & 1 == 1 {
            Some(spec_u32_from_le_bytes(b.subrange(5, 9)))
        } else {
            spec_ext_mod_time(b.subrange(4 + sz, b.len() as int))
        }
    }
}

/// The metadata derived from one low-level entry.
pub open spec fn meta_of_raw(e: RawZipEntryV) -> ZipMetaV {
    ZipMetaV {
        filename: e.filename,
        comment: e.comment,
        modified_unixtime: match spec_ext_mod_time(e.extra) {
            Some(t) => t,
            None => 0,
        },
        compression: method_of(e.method_code),
        is_dir: e.dir,
    }
}

/// The record derived from one low-level entry.
pub open spec fn item_of_raw(e: RawZipEntryV) -> ZipItemV {
    ZipItemV { meta: meta_of_raw(e), data: e.payload }
}

/// The records derived from a list of low-level entries, in order.
pub open spec fn raw_items(es: Seq<RawZipEntryV>) -> Seq<ZipItemV> {
    es.map_values(|e: RawZipEntryV| item_of_raw(e))
}

impl RawZipEntry {
    /// The entry's comment, verbatim.
    pub fn comment(&self) -> (r: &str)
        ensures
            r@ == self.comment@,
    {
        self.comment.as_str()
    }

    /// The entry's name, verbatim.
    pub fn name(&self) -> (r: &str)
        ensures
            r@ == self.filename@,
    {
        self.filename.as_str()
    }

    /// The compression hint for this entry's low-level method code.
    pub fn method(&self) -> (r: CompressionMethod)
        ensures
            r == method_of(self.method_code),
    {
        if self.method_code == 0 {
            CompressionMethod::Store
        } else if self.method_code == 8 {
            CompressionMethod::Deflate
        } else {
            CompressionMethod::Unspecified
        }
    }

    /// Scans the entry's extra-field bytes for an extended timestamp and
    /// returns its modification time, if one is present.
    pub fn unixtime(&self) -> (r: Option<u32>)
        ensures
            r == spec_ext_mod_time(self.extra@),
    {
        let len = self.extra.len();
        proof {
            assert(self.extra@.subrange(0, len as int) =~= self.extra@);
        }
        let mut pos: usize = 0;
        loop
            invariant
                pos <= len,
                len == self.extra@.len(),
                spec_ext_mod_time(self.extra@) == spec_ext_mod_time(
                    self.extra@.subrange(pos as int, len as int),
                ),
            decreases len - pos,
        {
            let ghost w = self.extra@.subrange(pos as int, len as int);
            if len - pos < 4 {
                return None;
            }
            let id = u16_from_le_bytes(slice_subrange(self.extra.as_slice(), pos, pos + 2));
            let sz = u16_from_le_bytes(slice_subrange(self.extra.as_slice(), pos + 2, pos + 4));
            let sz = sz as usize;
            proof {
                assert(w.subrange(0, 2) =~= self.extra@.subrange(pos as int, pos + 2));
                assert(w.subrange(2, 4) =~= self.extra@.subrange(pos + 2, pos + 4));
            }
            let rem = len - pos - 4;
            if sz > rem {
                return None;
            }
            if id == 0x5455 && sz >= 5 && self.extra[pos + 4] & 1 == 1 {
                let t = u32_from_le_bytes(
                    slice_subrange(self.extra.as_slice(), pos + 5, pos + 9),
                );
                proof {
                    assert(w.subrange(5, 9) =~= self.extra@.subrange(pos + 5, pos + 9));
                    assert(w[4] == self.extra@[pos + 4]);
                }
                return Some(t);
            }
            proof {
                if sz >= 5 {
                    assert(w[4] == self.extra@[pos + 4]);
                }
                assert(w.subrange(4 + sz as int, w.len() as int) =~= self.extra@.subrange(
                    pos + 4 + sz as int,
                    len as int,
                ));
            }
            pos = pos + 4 + sz;
        }
    }

    /// Whether the archive classifies this entry as a directory.
    pub fn is_dir(&self) -> (r: bool)
        ensures
            r == self.dir,
    {
        self.dir
    }

    /// Derives the record metadata for this entry.
    pub fn to_meta(&self) -> (r: ZipMeta)
        ensures
            r@ == meta_of_raw(self@),
    {
        ZipMeta {
            filename: self.filename.clone(),
            comment: self.comment.clone(),
            modified_unixtime: match self.unixtime() {
                Some(t) => t,
                None => 0,
            },
            compression: self.method(),
            is_dir: self.dir,
        }
    }

    /// Replaces `buf` with this entry's decompressed payload.
    pub fn to_buf(&self, buf: &mut Vec<u8>) -> (r: Result<(), ZipSeqError>)
        ensures
            r is Ok,
            final(buf)@ == self.payload@,
    {
        *buf = slice_to_vec(self.payload.as_slice());
        Ok(())
    }

    /// Turns this entry into its record.
    pub fn into_item(self) -> (r: ZipItem)
        ensures
            r@ == item_of_raw(self@),
    {
        let meta = self.to_meta();
        ZipItem { meta, data: self.payload }
    }
}

#[verifier::external_type_specification]
#[verifier::external_body]
#[verifier::reject_recursive_types(T)]
pub struct ExCursor<T>(std::io::Cursor<T>);

#[verifier::external_type_specification]
#[verifier::external_body]
#[verifier::reject_recursive_types(R)]
pub struct ExZipArchive<R>(zip::ZipArchive<R>);

/// The entries an opened archive holds, in central-directory order, with
/// their fully decompressed payloads.
pub uninterp spec fn archive_entries(z: zip::ZipArchive<std::io::Cursor<Vec<u8>>>) -> Seq<
    RawZipEntryV,
>;

/// The entries a byte string holds when read as a zip container: `Some`
/// exactly when the bytes are a valid container, with the entries in
/// central-directory order and the payloads their data streams denote.
/// Opening in-memory bytes is a function of the bytes alone.
pub uninterp spec fn zip_entries_of(data: Seq<u8>) -> Option<Seq<RawZipEntryV>>;

/// Relies on `zip::ZipArchive::new`: opening an in-memory reader succeeds
/// exactly when the bytes are a valid zip container, and the opened
/// archive holds that container's entries.
#[verifier::external_body]
fn open_archive(data: Vec<u8>) -> (r: Result<
    zip::ZipArchive<std::io::Cursor<Vec<u8>>>,
    ZipSeqError,
>)
    ensures
        r is Ok <==> zip_entries_of(data@) is Some,
        r is Ok ==> archive_entries(r->Ok_0) == zip_entries_of(data@)->Some_0,
        r is Err ==> r->Err_0 == ZipSeqError::InvalidArchive,
{
    zip::ZipArchive::new(std::io::Cursor::new(data)).or(Err(ZipSeqError::InvalidArchive))
}

/// Relies on `zip::ZipArchive::len`: the number of entries the archive's
/// central directory lists.
#[verifier::external_body]
fn archive_len(z: &zip::ZipArchive<std::io::Cursor<Vec<u8>>>) -> (r: usize)
    ensures
        r == archive_entries(*z).len(),
{
    z.len()
}

/// Relies on `zip::ZipArchive::by_index` and the `zip::read::ZipFile`
/// accessors `name`, `comment`, `compression`, `extra_data`, `is_dir` and
/// its `Read` impl: hands out one entry's central-directory fields and its
/// fully decompressed payload; reading leaves the archive's entries as
/// they were.
#[verifier::external_body]
fn entry_at(z: &mut zip::ZipArchive<std::io::Cursor<Vec<u8>>>, ix: usize) -> (r: Result<
    RawZipEntry,
    ZipSeqError,
>)
    requires
        ix < archive_entries(*old(z)).len(),
    ensures
        archive_entries(*final(z)) == archive_entries(*old(z)),
        r is Ok ==> r->Ok_0@ == archive_entries(*old(z))[ix as int],
        r is Err ==> r->Err_0 == ZipSeqError::EntryReadError,
{
    let mut f = z.by_index(ix).map_err(|_| ZipSeqError::EntryReadError)?;
    let (filename, comment) = (f.name().to_string(), f.comment().to_string());
    #[allow(deprecated)]
    let method_code = f.compression().to_u16();
    let extra = f.extra_data().map(|d| d.to_vec()).unwrap_or_default();
    let dir = f.is_dir();
    let mut payload: Vec<u8> = Vec::new();
    std::io::Read::read_to_end(&mut f, &mut payload).map_err(|_| ZipSeqError::EntryReadError)?;
    Ok(RawZipEntry { filename, comment, method_code, extra, dir, payload })
}

/// Opens one archive held as plain bytes and extracts every entry as a
/// record, in central-directory order.
///
/// On success the records are exactly the input bytes' entries
/// ([`zip_entries_of`]) mapped through [`item_of_raw`]. Bytes that are no
/// valid container give [`ZipSeqError::InvalidArchive`], and only they do;
/// the one other failure is a [`ZipSeqError::EntryReadError`] from an
/// entry whose data stream does not read cleanly.
pub fn zip2items(data: Vec<u8>) -> (r: Result<Vec<ZipItem>, ZipSeqError>)
    ensures
        r is Ok ==> zip_entries_of(data@) is Some && items_view(r->Ok_0@) == raw_items(
            zip_entries_of(data@)->Some_0,
        ),
        r is Err && r->Err_0 == ZipSeqError::InvalidArchive <==> zip_entries_of(data@)
            is None,
        r is Err ==> r->Err_0 == ZipSeqError::InvalidArchive || r->Err_0
            == ZipSeqError::EntryReadError,
{
    let ghost data0 = data@;
    let mut za = match open_archive(data) {
        Ok(z) => z,
        Err(e) => {
            return Err(e);
        },
    };
    let ghost es = archive_entries(za);
    let n = archive_len(&za);
    let mut items: Vec<ZipItem> = Vec::new();
    let mut i: usize = 0;
    while i < n
        invariant
            i <= n,
            n == es.len(),
            archive_entries(za) == es,
            zip_entries_of(data@) == Some(es),
            items_view(items@) == raw_items(es.take(i as int)),
        decreases n - i,
    {
        let raw = match entry_at(&mut za, i) {
            Ok(x) => x,
            Err(e) => {
                return Err(e);
            },
        };
        proof {
            assert(raw@ == es[i as int]);
        }
        let it = raw.into_item();
        let ghost prev = items@;
        items.push(it);
        proof {
            assert(it@ == item_of_raw(es[i as int]));
            assert(items_view(items@) =~= items_view(prev).push(it@));
            assert(es.take(i + 1).drop_last() =~= es.take(i as int));
            assert(raw_items(es.take(i + 1)) =~= raw_items(es.take(i as int)).push(
                item_of_raw(es[i as int]),
            ));
        }
        i = i + 1;
    }
    proof {
        assert(es.take(es.len() as int) =~= es);
        assert(items_view(items@) == raw_items(es));
        assert(es == zip_entries_of(data0)->Some_0);
    }
    Ok(items)
}

} // verus!
