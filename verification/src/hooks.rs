//! The pluggable transform hooks.
//!
//! A record transform is applied to every extracted record before it is
//! appended to the sequence being assembled; a name transform maps an input
//! archive's path to the output entry name, once per archive. Both are
//! modeled as traits with a spec-level description, so the assembler's
//! contract can state exactly what any chosen hook produces. The built-in
//! variants are the identity hooks here and the flatten hook in
//! [`crate::json`].

use vstd::prelude::*;
use vstd::string::StringExecFns;
use vstd::string::StrSliceExecFns;

use crate::errors::ZipSeqError;
use crate::model::{ZipItem, ZipItemV};

verus! {

/// A record transform: a function from record to record that may fail,
/// applied once per extracted record.
///
/// The spec function fixes what the transform returns for every record
/// value: `None` means the transform rejects the record, and the exec
/// method then fails.
pub trait RecordTransform: Sized {
    /// What this transform yields on a record value, or `None` when it
    /// rejects it.
    spec fn spec_apply(item: ZipItemV) -> Option<ZipItemV>;

    /// Applies the transform to one record.
    fn apply(&mut self, item: ZipItem) -> (r: Result<ZipItem, ZipSeqError>)
        ensures
            match Self::spec_apply(item@) {
                Some(v) => r is Ok && r->Ok_0@ == v,
                None => r is Err,
            },
    ;
}

/// A name transform: a pure function from an input archive's path to the
/// output entry name, applied once per input archive.
pub trait NameTransform: Sized {
    /// The output entry name for an input path.
    spec fn spec_name(path: Seq<char>) -> Seq<char>;

    /// Writes the output entry name for `path` into `out`.
    fn name_for(&self, path: &str, out: &mut String)
        ensures
            final(out)@ == Self::spec_name(path@),
    ;
}

/// Applying one record transform to every record of a list, in order;
/// `None` as soon as any record is rejected.
pub open spec fn apply_all<C: RecordTransform>(s: Seq<ZipItemV>) -> Option<Seq<ZipItemV>>
    decreases s.len(),
{
    if s.len() == 0 {
        Some(Seq::empty())
    } else {
        match (C::spec_apply(s[0]), apply_all::<C>(s.drop_first())) {
            (Some(x), Some(xs)) => Some(seq![x] + xs),
            _ => None,
        }
    }
}

/// The identity record transform as a plain function: never fails, returns
/// its input unchanged.
pub fn nop_mapper(original: ZipItem) -> (r: Result<ZipItem, ZipSeqError>)
    ensures
        r is Ok,
        r->Ok_0 == original,
{
    Ok(original)
}

/// The identity record transform hook.
pub struct NopMapper;

impl RecordTransform for NopMapper {
    open spec fn spec_apply(item: ZipItemV) -> Option<ZipItemV> {
        Some(item)
    }

    fn apply(&mut self, item: ZipItem) -> (r: Result<ZipItem, ZipSeqError>) {
        nop_mapper(item)
    }
}

impl ZipItem {
    /// Hands this record to a transform hook.
    pub fn into_mapd<M: RecordTransform>(self, mapper: &mut M) -> (r: Result<
        ZipItem,
        ZipSeqError,
    >)
        ensures
            match M::spec_apply(self@) {
                Some(v) => r is Ok && r->Ok_0@ == v,
                None => r is Err,
            },
    {
        mapper.apply(self)
    }
}

/// Appends `s` to `d`.
pub fn str2string(s: &str, d: &mut String)
    ensures
        final(d)@ == old(d)@ + s@,
{
    d.append(s);
}

/// The identity name transform as a plain function: `tgt` becomes the
/// input path, verbatim.
pub fn nop_name_converter(original: &str, tgt: &mut String)
    ensures
        final(tgt)@ == original@,
{
    *tgt = String::new();
    str2string(original, tgt);
    assert(Seq::<char>::empty() + original@ =~= original@);
}

/// The identity name transform hook.
pub struct NopNamer;

impl NameTransform for NopNamer {
    open spec fn spec_name(path: Seq<char>) -> Seq<char> {
        path
    }

    fn name_for(&self, path: &str, out: &mut String) {
        nop_name_converter(path, out);
    }
}

/// The greatest index of `c` in `s`, or -1 when `s` does not hold it.
pub open spec fn last_index(s: Seq<char>, c: char) -> int
    decreases s.len(),
{
    if s.len() == 0 {
        -1
    } else if s[s.len() - 1] == c {
        s.len() - 1
    } else {
        last_index(s.drop_last(), c)
    }
}

/// What [`last_index`] returns: a position of `c` with none after it, or
/// -1 with no occurrence at all.
proof fn lemma_last_index(s: Seq<char>, c: char)
    ensures
        -1 <= last_index(s, c) < s.len(),
        last_index(s, c) >= 0 ==> s[last_index(s, c)] == c,
        forall|j: int| last_index(s, c) < j < s.len() ==> s[j] != c,
    decreases s.len(),
{
    if s.len() == 0 {
    } else if s[s.len() - 1] == c {
    } else {
        lemma_last_index(s.drop_last(), c);
        assert(forall|j: int| 0 <= j < s.len() - 1 ==> s.drop_last()[j] == s[j]);
    }
}

/// Finds the greatest position of `c` in `s`, if any.
fn find_last(s: &str, c: char) -> (r: Option<usize>)
    ensures
        match r {
            Some(i) => i < s@.len() && last_index(s@, c) == i as int,
            None => last_index(s@, c) == -1,
        },
{
    proof {
        lemma_last_index(s@, c);
    }
    let n = s.unicode_len();
    let mut i = n;
    while i > 0
        invariant
            i <= n,
            n == s@.len(),
            last_index(s@, c) < s@.len(),
            last_index(s@, c) >= 0 ==> s@[last_index(s@, c)] == c,
            forall|j: int| last_index(s@, c) < j < s@.len() ==> s@[j] != c,
            forall|j: int| i <= j < s@.len() ==> s@[j] != c,
        decreases i,
    {
        let ch = s.get_char(i - 1);
        if ch == c {
            return Some(i - 1);
        }
        i = i - 1;
    }
    None
}

/// The base name of a path without its final extension: everything after
/// the last path separator, cut at its last dot unless that dot starts it.
/// An empty or separator-ending path yields the empty name.
pub open spec fn basename_no_ext(p: Seq<char>) -> Seq<char> {
    let base = p.subrange(last_index(p, '/') + 1, p.len() as int);
    let d = last_index(base, '.');
    if d >= 1 {
        base.subrange(0, d)
    } else {
        base
    }
}

/// The built-in "base name, no extension" name transform hook.
pub struct BasenameNamer;

impl NameTransform for BasenameNamer {
    open spec fn spec_name(path: Seq<char>) -> Seq<char> {
        basename_no_ext(path)
    }

    fn name_for(&self, path: &str, out: &mut String) {
        proof {
            lemma_last_index(path@, '/');
        }
        let n = path.unicode_len();
        let si = match find_last(path, '/') {
            Some(i) => i + 1,
            None => 0,
        };
        let base = path.substring_char(si, n);
        let bn = base.unicode_len();
        let cut = match find_last(base, '.') {
            Some(d) => if d >= 1 {
                d
            } else {
                bn
            },
            None => bn,
        };
        let stem = base.substring_char(0, cut);
        *out = stem.to_owned();
        proof {
            let b = path@.subrange(last_index(path@, '/') + 1, path@.len() as int);
            assert(base@ == b);
            if !(last_index(b, '.') >= 1) {
                assert(b.subrange(0, b.len() as int) =~= b);
            }
        }
    }
}

} // verus!
