//! The output archive writer, an in-memory zip writer behind trusted
//! wrappers.
//!
//! The writer's state is modeled as the ordered list of `(entry name,
//! entry bytes, deflated)` units it has been handed so far; finishing
//! hands back the bytes of the finalized archive, a function of those
//! units alone. A writer that is dropped before finishing leaves no
//! finalized central directory.

use vstd::prelude::*;

use crate::errors::ZipSeqError;

verus! {

/// An output archive writer over an in-memory buffer, held opaque: Verus
/// sees its state only through [`written_units`].
#[verifier::external_body]
pub struct SeqWriter {
    inner: zip::ZipWriter<std::io::Cursor<Vec<u8>>>,
}

/// The units a writer has been handed so far, in order: each an entry's
/// name, its bytes, and whether it is deflated rather than stored.
pub uninterp spec fn written_units(w: SeqWriter) -> Seq<(Seq<char>, Seq<u8>, bool)>;

/// The finalized archive bytes that writing the given units yields. The
/// writer runs with fixed options (a constant timestamp, a pinned system
/// tag, no permissions, no extra fields), so for stored units the
/// finalized bytes are a function of the units alone; the claim is made
/// only then, since a deflated stream's exact bytes are the compression
/// backend's choice.
pub uninterp spec fn archive_bytes_of(units: Seq<(Seq<char>, Seq<u8>, bool)>) -> Seq<u8>;

/// Whether every unit is stored rather than deflated.
pub open spec fn all_stored(units: Seq<(Seq<char>, Seq<u8>, bool)>) -> bool {
    forall|i: int| 0 <= i < units.len() ==> !(#[trigger] units[i]).2
}

/// Relies on `zip::ZipWriter::new`: a fresh writer over an empty in-memory
/// buffer holds no entries.
#[verifier::external_body]
pub(crate) fn writer_new() -> (w: SeqWriter)
    ensures
        written_units(w) == Seq::<(Seq<char>, Seq<u8>, bool)>::empty(),
{
    SeqWriter { inner: zip::ZipWriter::new(std::io::Cursor::new(Vec::new())) }
}

/// Relies on `zip::ZipWriter::start_file`: on success a new, still empty
/// entry of that name is appended, stored or deflated as asked, with a
/// constant timestamp and a pinned system tag; a failure (a duplicate
/// name, an I/O fault) leaves the writer unusable for this run.
#[verifier::external_body]
pub(crate) fn start_entry(w: &mut SeqWriter, name: &str, deflate: bool) -> (r: Result<
    (),
    ZipSeqError,
>)
    ensures
        r is Ok ==> written_units(*final(w)) == written_units(*old(w)).push(
            (name@, Seq::<u8>::empty(), deflate),
        ),
        r is Err ==> r->Err_0 == ZipSeqError::IoError,
{
    let method = if deflate {
        zip::CompressionMethod::Deflated
    } else {
        zip::CompressionMethod::Stored
    };
    let opts = zip::write::SimpleFileOptions::default().compression_method(method).system(
        zip::System::Unix,
    );
    w.inner.start_file(name, opts).or(Err(ZipSeqError::IoError))
}

/// Relies on the `std::io::Write` impl of `zip::ZipWriter` (`write_all`):
/// on success the handed bytes are appended to the entry started last.
#[verifier::external_body]
pub(crate) fn append_data(w: &mut SeqWriter, data: &Vec<u8>) -> (r: Result<(), ZipSeqError>)
    requires
        written_units(*old(w)).len() > 0,
    ensures
        r is Ok ==> written_units(*final(w)) == written_units(*old(w)).update(
            written_units(*old(w)).len() - 1,
            (
                written_units(*old(w)).last().0,
                written_units(*old(w)).last().1 + data@,
                written_units(*old(w)).last().2,
            ),
        ),
        r is Err ==> r->Err_0 == ZipSeqError::IoError,
{
    std::io::Write::write_all(&mut w.inner, data.as_slice()).or(Err(ZipSeqError::IoError))
}

/// Relies on `zip::ZipWriter::finish`: flushes the central directory and
/// hands back the finalized archive's bytes, which for stored units are,
/// with the writer's fixed options, a function of the written units
/// alone; a writer that never reaches this call leaves no valid archive.
#[verifier::external_body]
pub(crate) fn finish_writer(w: SeqWriter) -> (r: Result<Vec<u8>, ZipSeqError>)
    ensures
        r is Ok && all_stored(written_units(w)) ==> r->Ok_0@ == archive_bytes_of(
            written_units(w),
        ),
        r is Err ==> r->Err_0 == ZipSeqError::IoError,
{
    match w.inner.finish() {
        Ok(c) => Ok(c.into_inner()),
        Err(_) => Err(ZipSeqError::IoError),
    }
}

} // verus!
