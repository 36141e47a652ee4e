//! The sequence assembler and the end-to-end pipeline.
//!
//! One input archive, given as its path and its bytes, is assembled into a
//! [`ZipSequence`]: every entry is extracted, run through the record
//! transform hook, and the whole ordered list is encoded as one binary
//! sequence; the name transform hook names the output entry. The pipeline
//! runs the assembler over a list of inputs and writes one output archive
//! entry per input, in input order, failing fast on the first error.

use vstd::prelude::*;
use vstd::string::StrSliceExecFns;

use crate::codec::{items2buf, spec_encode_sequence};
use crate::errors::ZipSeqError;
use crate::extract::{raw_items, zip2items, zip_entries_of};
use crate::hooks::{apply_all, NameTransform, NopMapper, NopNamer, RecordTransform};
use crate::model::{items_view, ZipItem, ZipSequence};
use crate::writer::{all_stored, append_data, archive_bytes_of, finish_writer, start_entry,
    writer_new, written_units};

verus! {

/// The encoded record sequence that one input archive's bytes yield under
/// the record transform `C`: its entries' records, each accepted by the
/// transform, in order, encoded as one binary sequence. `None` when the
/// bytes are no valid container or the transform rejects some record.
pub open spec fn assembly_of<C: RecordTransform>(data: Seq<u8>) -> Option<Seq<u8>> {
    match zip_entries_of(data) {
        Some(es) => match apply_all::<C>(raw_items(es)) {
            Some(items) => Some(spec_encode_sequence(items)),
            None => None,
        },
        None => None,
    }
}

/// Whether one input archive goes through the hooks cleanly: its output
/// entry name is nonempty and its assembly exists.
pub open spec fn input_ok<C: RecordTransform, N: NameTransform>(
    input: (String, Vec<u8>),
) -> bool {
    &&& N::spec_name(input.0@).len() > 0
    &&& assembly_of::<C>(input.1@) is Some
}

/// The output unit one input archive yields: the name the name transform
/// gives it, its assembled bytes, and the chosen compression mode.
pub open spec fn unit_of<C: RecordTransform, N: NameTransform>(
    input: (String, Vec<u8>),
    deflate: bool,
) -> (Seq<char>, Seq<u8>, bool) {
    (N::spec_name(input.0@), assembly_of::<C>(input.1@)->Some_0, deflate)
}

/// The output units of a whole input list, one per input, in input order.
pub open spec fn units_of<C: RecordTransform, N: NameTransform>(
    inputs: Seq<(String, Vec<u8>)>,
    deflate: bool,
) -> Seq<(Seq<char>, Seq<u8>, bool)> {
    inputs.map_values(|p: (String, Vec<u8>)| unit_of::<C, N>(p, deflate))
}

/// Assembles one input archive into `buf`: names the output entry through
/// the name transform, extracts every entry, applies the record transform
/// to each in order, and encodes the results as one binary sequence.
///
/// On success the buffer holds exactly the input's name and assembly. An
/// empty output entry name is rejected with
/// [`ZipSeqError::ConfigurationError`] before the archive is read; bytes
/// that are no valid container are rejected with
/// [`ZipSeqError::InvalidArchive`]; when the name and the assembly are
/// both good, the only failure left is a
/// [`ZipSeqError::EntryReadError`] from an entry whose data stream does
/// not read cleanly. A transform's failure is returned unchanged, and
/// `buf` never holds a partial encoding.
pub fn zipfilename2sequence<C: RecordTransform, N: NameTransform>(
    zfilename: &str,
    zdata: Vec<u8>,
    item_converter: &mut C,
    name_converter: &N,
    buf: &mut ZipSequence,
) -> (r: Result<(), ZipSeqError>)
    ensures
        r is Ok ==> final(buf).zipname@ == N::spec_name(zfilename@),
        r is Ok ==> final(buf).zipname@.len() > 0,
        r is Ok ==> assembly_of::<C>(zdata@) is Some && final(buf).derdata@ == assembly_of::<
            C,
        >(zdata@)->Some_0,
        N::spec_name(zfilename@).len() == 0 ==> r is Err && r->Err_0
            == ZipSeqError::ConfigurationError,
        N::spec_name(zfilename@).len() > 0 && zip_entries_of(zdata@) is None ==> r is Err
            && r->Err_0 == ZipSeqError::InvalidArchive,
        N::spec_name(zfilename@).len() > 0 && assembly_of::<C>(zdata@) is Some ==> r is Ok
            || (r is Err && r->Err_0 == ZipSeqError::EntryReadError),
{
    name_converter.name_for(zfilename, &mut buf.zipname);
    if buf.zipname.as_str().unicode_len() == 0 {
        return Err(ZipSeqError::ConfigurationError);
    }
    let ghost data0 = zdata@;
    let items = match zip2items(zdata) {
        Ok(x) => x,
        Err(e) => {
            return Err(e);
        },
    };
    let ghost es = zip_entries_of(data0)->Some_0;
    let ghost src0 = items_view(items@);
    let mut mapped: Vec<ZipItem> = Vec::new();
    let mut rest = items;
    proof {
        assert(items_view(mapped@) =~= Seq::<crate::model::ZipItemV>::empty());
    }
    while rest.len() > 0
        invariant
            N::spec_name(zfilename@).len() > 0,
            zip_entries_of(zdata@) == Some(es),
            src0 == raw_items(es),
            ({
                match apply_all::<C>(items_view(rest@)) {
                    Some(t) => apply_all::<C>(src0) == Some(items_view(mapped@) + t),
                    None => apply_all::<C>(src0) is None,
                }
            }),
        decreases rest@.len(),
    {
        let ghost rv = items_view(rest@);
        let it = rest.remove(0);
        proof {
            assert(rv[0] == it@);
            assert(items_view(rest@) =~= rv.drop_first());
        }
        let out = match it.into_mapd(item_converter) {
            Ok(x) => x,
            Err(e) => {
                proof {
                    assert(rv.len() > 0);
                    assert(apply_all::<C>(rv) is None);
                }
                return Err(e);
            },
        };
        let ghost prev = mapped@;
        mapped.push(out);
        proof {
            assert(items_view(mapped@) =~= items_view(prev).push(out@));
            if apply_all::<C>(items_view(rest@)) is Some {
                let t = apply_all::<C>(items_view(rest@))->Some_0;
                assert(apply_all::<C>(rv) == Some(seq![out@] + t));
                assert(items_view(prev) + (seq![out@] + t) =~= items_view(prev).push(out@)
                    + t);
            }
        }
    }
    proof {
        assert(items_view(rest@).len() == 0);
        assert(items_view(rest@) =~= Seq::<crate::model::ZipItemV>::empty());
        assert(apply_all::<C>(items_view(rest@)) == Some(
            Seq::<crate::model::ZipItemV>::empty(),
        ));
        assert(items_view(mapped@) + Seq::<crate::model::ZipItemV>::empty() =~= items_view(
            mapped@,
        ));
        assert(apply_all::<C>(src0) == Some(items_view(mapped@)));
    }
    buf.derdata.clear();
    let enc = items2buf(&mapped, &mut buf.derdata);
    proof {
        assert(Seq::<u8>::empty() + spec_encode_sequence(items_view(mapped@))
            =~= spec_encode_sequence(items_view(mapped@)));
        assert(assembly_of::<C>(data0) == Some(buf.derdata@));
    }
    enc
}

/// Runs the whole pipeline over a list of `(path, archive bytes)` inputs:
/// assembles each input in order and writes the result as one entry of a
/// fresh in-memory output archive, stored or deflated as asked, then
/// finalizes it.
///
/// On success every input went through the hooks cleanly and the returned
/// bytes are the finalized archive of exactly the inputs' units, one per
/// input, in input order — so any input with an empty output name or no
/// assembly makes the whole run fail. The first failure aborts the run
/// with that error and the writer is never finalized: no output archive
/// bytes exist, and nothing of any later input is processed.
pub fn zipnames2sequence2zipwtr<C: RecordTransform, N: NameTransform>(
    filenames: Vec<(String, Vec<u8>)>,
    item_converter: &mut C,
    name_converter: &N,
    deflate: bool,
) -> (r: Result<Vec<u8>, ZipSeqError>)
    ensures
        r is Ok ==> forall|i: int|
            0 <= i < filenames@.len() ==> input_ok::<C, N>(#[trigger] filenames@[i]),
        r is Ok && !deflate ==> r->Ok_0@ == archive_bytes_of(units_of::<C, N>(
            filenames@,
            deflate,
        )),
        filenames@.len() > 0 && N::spec_name(filenames@[0].0@).len() == 0 ==> r is Err
            && r->Err_0 == ZipSeqError::ConfigurationError,
        filenames@.len() > 0 && N::spec_name(filenames@[0].0@).len() > 0 && zip_entries_of(
            filenames@[0].1@,
        ) is None ==> r is Err && r->Err_0 == ZipSeqError::InvalidArchive,
{
    let ghost inputs = filenames@;
    let mut w = writer_new();
    let mut buf = ZipSequence::default();
    let mut rest = filenames;
    let ghost mut done: int = 0;
    proof {
        assert(inputs.subrange(0, 0) =~= Seq::<(String, Vec<u8>)>::empty());
        assert(written_units(w) =~= units_of::<C, N>(inputs.subrange(0, 0), deflate));
    }
    while rest.len() > 0
        invariant
            inputs == filenames@,
            0 <= done <= inputs.len(),
            rest@ =~= inputs.subrange(done, inputs.len() as int),
            written_units(w) == units_of::<C, N>(inputs.subrange(0, done), deflate),
            forall|i: int| 0 <= i < done ==> input_ok::<C, N>(#[trigger] inputs[i]),
        decreases rest@.len(),
    {
        let ghost units0 = written_units(w);
        let (path, data) = rest.remove(0);
        let ghost datav = data@;
        proof {
            assert(inputs[done] == (path, data));
            assert(rest@ =~= inputs.subrange(done + 1, inputs.len() as int));
        }
        match zipfilename2sequence(
            path.as_str(),
            data,
            item_converter,
            name_converter,
            &mut buf,
        ) {
            Ok(_) => (),
            Err(e) => {
                return Err(e);
            },
        }
        match start_entry(&mut w, buf.zipname.as_str(), deflate) {
            Ok(_) => (),
            Err(e) => {
                return Err(e);
            },
        }
        match append_data(&mut w, &buf.derdata) {
            Ok(_) => (),
            Err(e) => {
                return Err(e);
            },
        }
        proof {
            assert(Seq::<u8>::empty() + buf.derdata@ =~= buf.derdata@);
            assert(written_units(w) =~= units0.push(
                (buf.zipname@, buf.derdata@, deflate),
            ));
            assert((buf.zipname@, buf.derdata@, deflate) == unit_of::<C, N>(
                inputs[done],
                deflate,
            ));
            assert(input_ok::<C, N>(inputs[done]));
            assert(inputs.subrange(0, done + 1).drop_last() =~= inputs.subrange(0, done));
            assert(written_units(w) =~= units_of::<C, N>(
                inputs.subrange(0, done + 1),
                deflate,
            ));
            done = done + 1;
        }
    }
    proof {
        assert(inputs.subrange(0, done) =~= inputs);
        if !deflate {
            assert(all_stored(written_units(w)));
        }
    }
    finish_writer(w)
}

/// The pipeline with the default hooks: identity record transform,
/// identity name transform, and stored (uncompressed) output entries.
pub fn zipnames2sequence2zipwtr_default(filenames: Vec<(String, Vec<u8>)>) -> (r: Result<
    Vec<u8>,
    ZipSeqError,
>)
    ensures
        r is Ok ==> forall|i: int|
            0 <= i < filenames@.len() ==> input_ok::<NopMapper, NopNamer>(
                #[trigger] filenames@[i],
            ),
        r is Ok ==> r->Ok_0@ == archive_bytes_of(units_of::<NopMapper, NopNamer>(
            filenames@,
            false,
        )),
        filenames@.len() > 0 && filenames@[0].0@.len() == 0 ==> r is Err && r->Err_0
            == ZipSeqError::ConfigurationError,
        filenames@.len() > 0 && filenames@[0].0@.len() > 0 && zip_entries_of(
            filenames@[0].1@,
        ) is None ==> r is Err && r->Err_0 == ZipSeqError::InvalidArchive,
{
    let mut mapper = NopMapper;
    zipnames2sequence2zipwtr(filenames, &mut mapper, &NopNamer, false)
}

} // verus!
