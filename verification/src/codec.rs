//! The binary codec for records and record sequences.
//!
//! The scheme is a self-delimiting tag/length/value encoding. Every element
//! is one tag byte, an 8-byte little-endian unsigned length of the value,
//! then the value bytes. The elements are:
//!
//! * text (tag 0x0C): length-prefixed UTF-8 bytes, no truncation;
//! * unsigned 32-bit integer (tag 0x02): exactly 4 value bytes, little-endian;
//! * enumerated compression hint (tag 0x0A): exactly 1 value byte
//!   (0, 100 or 108; anything else is malformed);
//! * boolean (tag 0x01): exactly 1 value byte, 0x00 false / 0xFF true
//!   (anything else is malformed);
//! * byte string (tag 0x04): the raw payload bytes;
//! * container (tag 0x30): the concatenation of the contained elements.
//!
//! One record is a container holding a metadata container (its five fields
//! in fixed order: filename, comment, modified time, compression hint,
//! directory flag) followed by the payload byte string. A record sequence is
//! a container holding the records in order; the empty sequence is a
//! container with zero value bytes. Decoding is the exact inverse and fails
//! with [`ZipSeqError::MalformedEncoding`] on any invalid tag, length or
//! value, carrying no partial result.

use vstd::prelude::*;
use vstd::bytes::*;
use vstd::slice::{slice_subrange, slice_to_vec};
use vstd::string::StrSliceExecFns;
use vstd::utf8::{decode_utf8, encode_utf8, encode_utf8_decode_utf8, encode_utf8_valid_utf8,
    valid_utf8};

use crate::errors::ZipSeqError;
use crate::model::{code_compression, compression_code, compression_to_code, code_to_compression,
    items_view, ZipItem, ZipItemV, ZipMeta, ZipMetaV};

verus! {

pub const TAG_BOOL: u8 = 0x01;

pub const TAG_UINT: u8 = 0x02;

pub const TAG_BYTES: u8 = 0x04;

pub const TAG_ENUM: u8 = 0x0A;

pub const TAG_TEXT: u8 = 0x0C;

pub const TAG_CONTAINER: u8 = 0x30;

/// One tag/length/value element: the tag byte, the value's length as eight
/// little-endian bytes, then the value itself.
pub open spec fn spec_tlv(tag: u8, v: Seq<u8>) -> Seq<u8> {
    seq![tag] + spec_u64_to_le_bytes(v.len() as u64) + v
}

/// The byte encoding a boolean value.
pub open spec fn spec_bool_byte(b: bool) -> u8 {
    if b {
        255
    } else {
        0
    }
}

/// The value bytes of an encoded metadata container: the five fields in
/// fixed order.
pub open spec fn spec_encode_meta_content(m: ZipMetaV) -> Seq<u8> {
    spec_encode_text(m.filename) + spec_encode_text(m.comment) + spec_tlv(
        TAG_UINT,
        spec_u32_to_le_bytes(m.modified_unixtime),
    ) + spec_tlv(TAG_ENUM, seq![compression_code(m.compression)]) + spec_tlv(
        TAG_BOOL,
        seq![spec_bool_byte(m.is_dir)],
    )
}

/// An encoded text element.
pub open spec fn spec_encode_text(s: Seq<char>) -> Seq<u8> {
    spec_tlv(TAG_TEXT, encode_utf8(s))
}

/// An encoded metadata container.
pub open spec fn spec_encode_meta(m: ZipMetaV) -> Seq<u8> {
    spec_tlv(TAG_CONTAINER, spec_encode_meta_content(m))
}

/// The value bytes of an encoded record: the metadata container followed by
/// the payload byte string.
pub open spec fn spec_encode_item_content(i: ZipItemV) -> Seq<u8> {
    spec_encode_meta(i.meta) + spec_tlv(TAG_BYTES, i.data)
}

/// One encoded record.
pub open spec fn spec_encode_item(i: ZipItemV) -> Seq<u8> {
    spec_tlv(TAG_CONTAINER, spec_encode_item_content(i))
}

/// The concatenation of the encodings of a list of records, in order.
pub open spec fn spec_encode_items(s: Seq<ZipItemV>) -> Seq<u8>
    decreases s.len(),
{
    if s.len() == 0 {
        Seq::empty()
    } else {
        spec_encode_items(s.drop_last()) + spec_encode_item(s.last())
    }
}

/// A whole encoded record sequence: a container holding the records.
pub open spec fn spec_encode_sequence(s: Seq<ZipItemV>) -> Seq<u8> {
    spec_tlv(TAG_CONTAINER, spec_encode_items(s))
}

/// Whether a text field's UTF-8 form fits the length prefix.
pub open spec fn text_encodable(s: Seq<char>) -> bool {
    encode_utf8(s).len() <= u64::MAX
}

/// Whether a metadata value fits the scheme's length prefixes.
pub open spec fn meta_encodable(m: ZipMetaV) -> bool {
    &&& text_encodable(m.filename)
    &&& text_encodable(m.comment)
    &&& spec_encode_meta_content(m).len() <= u64::MAX
}

/// Whether a record fits the scheme's length prefixes.
pub open spec fn item_encodable(i: ZipItemV) -> bool {
    &&& meta_encodable(i.meta)
    &&& i.data.len() <= u64::MAX
    &&& spec_encode_item_content(i).len() <= u64::MAX
}

/// Whether a record sequence fits the scheme's length prefixes.
pub open spec fn seq_encodable(s: Seq<ZipItemV>) -> bool {
    &&& forall|i: int| 0 <= i < s.len() ==> item_encodable(#[trigger] s[i])
    &&& spec_encode_items(s).len() <= u64::MAX
}

/// Splitting the first tag/length/value element off a byte sequence:
/// the tag, the value bytes, and the remainder.
pub open spec fn spec_take_tlv(b: Seq<u8>) -> Option<(u8, Seq<u8>, Seq<u8>)> {
    if b.len() >= 9 {
        let n = spec_u64_from_le_bytes(b.subrange(1, 9)) as int;
        if n + 9 <= b.len() {
            Some((b[0], b.subrange(9, 9 + n), b.subrange(9 + n, b.len() as int)))
        } else {
            None
        }
    } else {
        None
    }
}

/// The characters a text element's value bytes decode to, if they are UTF-8.
pub open spec fn spec_decode_text(v: Seq<u8>) -> Option<Seq<char>> {
    if valid_utf8(v) {
        Some(decode_utf8(v))
    } else {
        None
    }
}

/// Parsing the value bytes of a metadata container: five fields in fixed
/// order, consuming the bytes exactly.
pub open spec fn spec_parse_meta(b: Seq<u8>) -> Option<ZipMetaV> {
    match spec_take_tlv(b) {
        Some((t1, v1, r1)) => if t1 == TAG_TEXT && spec_decode_text(v1) is Some {
            match spec_take_tlv(r1) {
                Some((t2, v2, r2)) => if t2 == TAG_TEXT && spec_decode_text(v2) is Some {
                    match spec_take_tlv(r2) {
                        Some((t3, v3, r3)) => if t3 == TAG_UINT && v3.len() == 4 {
                            match spec_take_tlv(r3) {
                                Some((t4, v4, r4)) => if t4 == TAG_ENUM && v4.len() == 1
                                    && code_compression(v4[0]) is Some {
                                    match spec_take_tlv(r4) {
                                        Some((t5, v5, r5)) => if t5 == TAG_BOOL && v5.len() == 1
                                            && (v5[0] == 0 || v5[0] == 255) && r5.len() == 0 {
                                            Some(ZipMetaV {
                                                filename: spec_decode_text(v1)->Some_0,
                                                comment: spec_decode_text(v2)->Some_0,
                                                modified_unixtime: spec_u32_from_le_bytes(v3),
                                                compression: code_compression(v4[0])->Some_0,
                                                is_dir: v5[0] == 255,
                                            })
                                        } else {
                                            None
                                        },
                                        None => None,
                                    }
                                } else {
                                    None
                                },
                                None => None,
                            }
                        } else {
                            None
                        },
                        None => None,
                    }
                } else {
                    None
                },
                None => None,
            }
        } else {
            None
        },
        None => None,
    }
}

/// Parsing the value bytes of one record: a metadata container followed by
/// the payload byte string, consuming the bytes exactly.
pub open spec fn spec_parse_item(b: Seq<u8>) -> Option<ZipItemV> {
    match spec_take_tlv(b) {
        Some((t1, v1, r1)) => if t1 == TAG_CONTAINER && spec_parse_meta(v1) is Some {
            match spec_take_tlv(r1) {
                Some((t2, v2, r2)) => if t2 == TAG_BYTES && r2.len() == 0 {
                    Some(ZipItemV { meta: spec_parse_meta(v1)->Some_0, data: v2 })
                } else {
                    None
                },
                None => None,
            }
        } else {
            None
        },
        None => None,
    }
}

/// Parsing a concatenation of encoded records, front to back.
pub open spec fn spec_parse_items(b: Seq<u8>) -> Option<Seq<ZipItemV>>
    decreases b.len(),
{
    if b.len() == 0 {
        Some(Seq::empty())
    } else {
        match spec_take_tlv(b) {
            Some((t, v, rest)) => if t == TAG_CONTAINER {
                match (spec_parse_item(v), spec_parse_items(rest)) {
                    (Some(i), Some(s)) => Some(seq![i] + s),
                    _ => None,
                }
            } else {
                None
            },
            None => None,
        }
    }
}

/// Decoding a whole record sequence: one container covering the input
/// exactly, whose value bytes parse as records.
pub open spec fn spec_decode_sequence(b: Seq<u8>) -> Option<Seq<ZipItemV>> {
    match spec_take_tlv(b) {
        Some((t, v, rest)) => if t == TAG_CONTAINER && rest.len() == 0 {
            spec_parse_items(v)
        } else {
            None
        },
        None => None,
    }
}

/// Wraps a value into a tag/length/value element.
fn tlv_wrap(tag: u8, value: Vec<u8>) -> (r: Vec<u8>)
    ensures
        r@ == spec_tlv(tag, value@),
{
    let ghost v0 = value@;
    let mut r: Vec<u8> = Vec::new();
    r.push(tag);
    let mut lb = u64_to_le_bytes(value.len() as u64);
    r.append(&mut lb);
    let mut v = value;
    r.append(&mut v);
    assert(r@ =~= spec_tlv(tag, v0));
    r
}

/// Encodes a text field.
fn encode_text(s: &str) -> (r: Vec<u8>)
    ensures
        r@ == spec_encode_text(s@),
{
    tlv_wrap(TAG_TEXT, s.as_bytes_vec())
}

/// Encodes a metadata value as a container element.
fn encode_meta(m: &ZipMeta) -> (r: Vec<u8>)
    ensures
        r@ == spec_encode_meta(m@),
{
    let mut content = encode_text(m.filename.as_str());
    let mut c2 = encode_text(m.comment.as_str());
    content.append(&mut c2);
    let mut c3 = tlv_wrap(TAG_UINT, u32_to_le_bytes(m.modified_unixtime));
    content.append(&mut c3);
    let mut code: Vec<u8> = Vec::new();
    code.push(compression_to_code(m.compression));
    let mut c4 = tlv_wrap(TAG_ENUM, code);
    content.append(&mut c4);
    let mut flag: Vec<u8> = Vec::new();
    flag.push(if m.is_dir { 255 } else { 0 });
    let mut c5 = tlv_wrap(TAG_BOOL, flag);
    content.append(&mut c5);
    assert(content@ =~= spec_encode_meta_content(m@));
    tlv_wrap(TAG_CONTAINER, content)
}

/// Encodes one record as a container element.
fn encode_item(it: &ZipItem) -> (r: Vec<u8>)
    ensures
        r@ == spec_encode_item(it@),
{
    let mut content = encode_meta(&it.meta);
    let mut d = tlv_wrap(TAG_BYTES, slice_to_vec(it.data.as_slice()));
    content.append(&mut d);
    assert(content@ =~= spec_encode_item_content(it@));
    tlv_wrap(TAG_CONTAINER, content)
}

impl ZipItem {
    /// Appends the binary encoding of this one record to `buf`.
    pub fn to_buf(&self, buf: &mut Vec<u8>) -> (r: Result<(), ZipSeqError>)
        ensures
            r is Ok,
            final(buf)@ == old(buf)@ + spec_encode_item(self@),
    {
        let mut enc = encode_item(self);
        buf.append(&mut enc);
        Ok(())
    }

    /// Appends the binary encoding of the whole record sequence to `buf`.
    pub fn items2buf(items: &Vec<ZipItem>, buf: &mut Vec<u8>) -> (r: Result<(), ZipSeqError>)
        ensures
            r is Ok,
            final(buf)@ == old(buf)@ + spec_encode_sequence(items_view(items@)),
    {
        items2buf(items, buf)
    }
}

/// Appends the binary encoding of the whole record sequence to `buf`.
pub fn items2buf(items: &Vec<ZipItem>, buf: &mut Vec<u8>) -> (r: Result<(), ZipSeqError>)
    ensures
        r is Ok,
        final(buf)@ == old(buf)@ + spec_encode_sequence(items_view(items@)),
{
    let mut content: Vec<u8> = Vec::new();
    let mut i: usize = 0;
    while i < items.len()
        invariant
            i <= items@.len(),
            content@ == spec_encode_items(items_view(items@).take(i as int)),
        decreases items@.len() - i,
    {
        let mut enc = encode_item(&items[i]);
        content.append(&mut enc);
        proof {
            let vs = items_view(items@);
            assert(vs.take(i + 1).drop_last() =~= vs.take(i as int));
            assert(vs.take(i + 1).last() == items@[i as int]@);
        }
        i = i + 1;
    }
    proof {
        assert(items_view(items@).take(items@.len() as int) =~= items_view(items@));
    }
    let mut enc = tlv_wrap(TAG_CONTAINER, content);
    buf.append(&mut enc);
    Ok(())
}

/// Relies on `String::from_utf8`: it succeeds exactly on valid UTF-8 input
/// and returns the string spelling those bytes.
#[verifier::external_body]
fn bytes_to_string(v: Vec<u8>) -> (r: Option<String>)
    ensures
        r is Some <==> valid_utf8(v@),
        r is Some ==> encode_utf8(r->Some_0@) == v@,
{
    String::from_utf8(v).ok()
}

/// Splits the first tag/length/value element out of the window
/// `[lo, hi)` of `b`, as the tag, the value's start and the value's length.
fn take_tlv(b: &Vec<u8>, lo: usize, hi: usize) -> (r: Result<(u8, usize, usize), ZipSeqError>)
    requires
        lo <= hi <= b@.len(),
    ensures
        ({
            let w = b@.subrange(lo as int, hi as int);
            match r {
                Ok((tag, vlo, vlen)) => {
                    &&& vlo == lo + 9
                    &&& vlo + vlen <= hi
                    &&& spec_take_tlv(w) == Some(
                        (
                            tag,
                            b@.subrange(vlo as int, vlo + vlen),
                            b@.subrange(vlo + vlen, hi as int),
                        ),
                    )
                },
                Err(e) => spec_take_tlv(w) is None && e == ZipSeqError::MalformedEncoding,
            }
        }),
{
    let ghost w = b@.subrange(lo as int, hi as int);
    if hi - lo < 9 {
        return Err(ZipSeqError::MalformedEncoding);
    }
    let tag = b[lo];
    let n64 = u64_from_le_bytes(slice_subrange(b.as_slice(), lo + 1, lo + 9));
    proof {
        assert(w.subrange(1, 9) =~= b@.subrange(lo + 1, lo + 9));
    }
    let rem = hi - lo - 9;
    if n64 > rem as u64 {
        return Err(ZipSeqError::MalformedEncoding);
    }
    let vlen = n64 as usize;
    proof {
        assert(w.subrange(9, 9 + n64 as int) =~= b@.subrange(lo + 9, lo + 9 + n64 as int));
        assert(w.subrange(9 + n64 as int, w.len() as int) =~= b@.subrange(
            lo + 9 + n64 as int,
            hi as int,
        ));
        assert(w[0] == b@[lo as int]);
    }
    Ok((tag, lo + 9, vlen))
}

/// Parses the value bytes of a metadata container in the window `[lo, hi)`.
fn parse_meta(b: &Vec<u8>, lo: usize, hi: usize) -> (r: Result<ZipMeta, ZipSeqError>)
    requires
        lo <= hi <= b@.len(),
    ensures
        ({
            let w = b@.subrange(lo as int, hi as int);
            match r {
                Ok(m) => spec_parse_meta(w) == Some(m@),
                Err(e) => spec_parse_meta(w) is None && e == ZipSeqError::MalformedEncoding,
            }
        }),
{
    broadcast use encode_utf8_decode_utf8;

    let ghost w = b@.subrange(lo as int, hi as int);
    let (t1, v1lo, v1len) = match take_tlv(b, lo, hi) {
        Ok(x) => x,
        Err(e) => {
            return Err(e);
        },
    };
    let p1 = v1lo + v1len;
    let filename = if t1 == TAG_TEXT {
        bytes_to_string(slice_to_vec(slice_subrange(b.as_slice(), v1lo, p1)))
    } else {
        None
    };
    let filename = match filename {
        Some(s) => s,
        None => {
            return Err(ZipSeqError::MalformedEncoding);
        },
    };
    let (t2, v2lo, v2len) = match take_tlv(b, p1, hi) {
        Ok(x) => x,
        Err(e) => {
            return Err(e);
        },
    };
    let p2 = v2lo + v2len;
    let comment = if t2 == TAG_TEXT {
        bytes_to_string(slice_to_vec(slice_subrange(b.as_slice(), v2lo, p2)))
    } else {
        None
    };
    let comment = match comment {
        Some(s) => s,
        None => {
            return Err(ZipSeqError::MalformedEncoding);
        },
    };
    let (t3, v3lo, v3len) = match take_tlv(b, p2, hi) {
        Ok(x) => x,
        Err(e) => {
            return Err(e);
        },
    };
    let p3 = v3lo + v3len;
    if !(t3 == TAG_UINT && v3len == 4) {
        return Err(ZipSeqError::MalformedEncoding);
    }
    let mtime = u32_from_le_bytes(slice_subrange(b.as_slice(), v3lo, p3));
    let (t4, v4lo, v4len) = match take_tlv(b, p3, hi) {
        Ok(x) => x,
        Err(e) => {
            return Err(e);
        },
    };
    let p4 = v4lo + v4len;
    if !(t4 == TAG_ENUM && v4len == 1) {
        return Err(ZipSeqError::MalformedEncoding);
    }
    let compression = match code_to_compression(b[v4lo]) {
        Some(c) => c,
        None => {
            return Err(ZipSeqError::MalformedEncoding);
        },
    };
    let (t5, v5lo, v5len) = match take_tlv(b, p4, hi) {
        Ok(x) => x,
        Err(e) => {
            return Err(e);
        },
    };
    let p5 = v5lo + v5len;
    if !(t5 == TAG_BOOL && v5len == 1 && p5 == hi) {
        return Err(ZipSeqError::MalformedEncoding);
    }
    let flag = b[v5lo];
    if !(flag == 0 || flag == 255) {
        return Err(ZipSeqError::MalformedEncoding);
    }
    let m = ZipMeta {
        filename,
        comment,
        modified_unixtime: mtime,
        compression,
        is_dir: flag == 255,
    };
    proof {
        assert(b@.subrange(p4 as int, hi as int).len() - 9 - v5len == 0);
        assert(spec_parse_meta(w) matches Some(mv) && mv == m@);
    }
    Ok(m)
}

/// Parses the value bytes of one record in the window `[lo, hi)`.
fn parse_item(b: &Vec<u8>, lo: usize, hi: usize) -> (r: Result<ZipItem, ZipSeqError>)
    requires
        lo <= hi <= b@.len(),
    ensures
        ({
            let w = b@.subrange(lo as int, hi as int);
            match r {
                Ok(it) => spec_parse_item(w) == Some(it@),
                Err(e) => spec_parse_item(w) is None && e == ZipSeqError::MalformedEncoding,
            }
        }),
{
    let ghost w = b@.subrange(lo as int, hi as int);
    let (t1, v1lo, v1len) = match take_tlv(b, lo, hi) {
        Ok(x) => x,
        Err(e) => {
            return Err(e);
        },
    };
    let p1 = v1lo + v1len;
    if t1 != TAG_CONTAINER {
        return Err(ZipSeqError::MalformedEncoding);
    }
    let meta = match parse_meta(b, v1lo, p1) {
        Ok(m) => m,
        Err(e) => {
            return Err(e);
        },
    };
    let (t2, v2lo, v2len) = match take_tlv(b, p1, hi) {
        Ok(x) => x,
        Err(e) => {
            return Err(e);
        },
    };
    let p2 = v2lo + v2len;
    if !(t2 == TAG_BYTES && p2 == hi) {
        return Err(ZipSeqError::MalformedEncoding);
    }
    let data = slice_to_vec(slice_subrange(b.as_slice(), v2lo, p2));
    let it = ZipItem { meta, data };
    proof {
        assert(b@.subrange(p1 as int, hi as int).len() - 9 - v2len == 0);
        assert(spec_parse_item(w) matches Some(iv) && iv == it@);
    }
    Ok(it)
}

/// Decodes a whole record sequence, the exact inverse of [`items2buf`].
///
/// Succeeds exactly on the byte strings that [`spec_decode_sequence`]
/// accepts, returning the records it denotes; any other input is rejected
/// with [`ZipSeqError::MalformedEncoding`] and no partial result.
#[verifier::rlimit(60)]
pub fn buf2items(buf: &Vec<u8>) -> (r: Result<Vec<ZipItem>, ZipSeqError>)
    ensures
        r is Ok <==> spec_decode_sequence(buf@) is Some,
        r is Ok ==> Some(items_view(r->Ok_0@)) == spec_decode_sequence(buf@),
        r is Err ==> r->Err_0 == ZipSeqError::MalformedEncoding,
{
    proof {
        assert(buf@.subrange(0, buf@.len() as int) =~= buf@);
    }
    let hi = buf.len();
    let (t, vlo, vlen) = match take_tlv(buf, 0, hi) {
        Ok(x) => x,
        Err(e) => {
            return Err(e);
        },
    };
    let vend = vlo + vlen;
    if !(t == TAG_CONTAINER && vend == hi) {
        return Err(ZipSeqError::MalformedEncoding);
    }
    let ghost content = buf@.subrange(vlo as int, vend as int);
    let mut items: Vec<ZipItem> = Vec::new();
    let mut pos = vlo;
    while pos < vend
        invariant
            vlo <= pos <= vend <= buf@.len(),
            content == buf@.subrange(vlo as int, vend as int),
            spec_decode_sequence(buf@) == spec_parse_items(content),
            ({
                match spec_parse_items(buf@.subrange(pos as int, vend as int)) {
                    Some(tail) => spec_parse_items(content) == Some(items_view(items@) + tail),
                    None => spec_parse_items(content) is None,
                }
            }),
        decreases vend - pos,
    {
        let ghost wloop = buf@.subrange(pos as int, vend as int);
        let (ti, ivlo, ivlen) = match take_tlv(buf, pos, vend) {
            Ok(x) => x,
            Err(e) => {
                return Err(e);
            },
        };
        let inext = ivlo + ivlen;
        if ti != TAG_CONTAINER {
            return Err(ZipSeqError::MalformedEncoding);
        }
        let it = match parse_item(buf, ivlo, inext) {
            Ok(x) => x,
            Err(e) => {
                return Err(e);
            },
        };
        proof {
            let tail_rest = spec_parse_items(buf@.subrange(inext as int, vend as int));
            if tail_rest is Some {
                assert(spec_parse_items(wloop) == Some(seq![it@] + tail_rest->Some_0));
                assert(items_view(items@.push(it)) =~= items_view(items@).push(it@));
                assert(items_view(items@) + (seq![it@] + tail_rest->Some_0) =~= items_view(
                    items@.push(it),
                ) + tail_rest->Some_0);
            }
        }
        items.push(it);
        pos = inext;
    }
    proof {
        assert(buf@.subrange(pos as int, vend as int).len() == 0);
        assert(items_view(items@) + Seq::<ZipItemV>::empty() =~= items_view(items@));
    }
    Ok(items)
}

/// Decoding one record: the bytes must hold exactly one encoded record,
/// the exact inverse of [`ZipItem::to_buf`] on a buffer that held nothing
/// else.
pub open spec fn spec_decode_item(b: Seq<u8>) -> Option<ZipItemV> {
    match spec_take_tlv(b) {
        Some((t, v, rest)) => if t == TAG_CONTAINER && rest.len() == 0 {
            spec_parse_item(v)
        } else {
            None
        },
        None => None,
    }
}

/// Decodes one record, the exact inverse of [`ZipItem::to_buf`].
///
/// Succeeds exactly on the byte strings that [`spec_decode_item`] accepts;
/// any other input is rejected with [`ZipSeqError::MalformedEncoding`] and
/// no partial result.
pub fn buf2item(buf: &Vec<u8>) -> (r: Result<ZipItem, ZipSeqError>)
    ensures
        r is Ok <==> spec_decode_item(buf@) is Some,
        r is Ok ==> Some(r->Ok_0@) == spec_decode_item(buf@),
        r is Err ==> r->Err_0 == ZipSeqError::MalformedEncoding,
{
    proof {
        assert(buf@.subrange(0, buf@.len() as int) =~= buf@);
    }
    let hi = buf.len();
    let (t, vlo, vlen) = match take_tlv(buf, 0, hi) {
        Ok(x) => x,
        Err(e) => {
            return Err(e);
        },
    };
    let vend = vlo + vlen;
    if !(t == TAG_CONTAINER && vend == hi) {
        return Err(ZipSeqError::MalformedEncoding);
    }
    parse_item(buf, vlo, vend)
}

/// A record's encoding decodes back to the record: the single-record
/// round trip.
pub proof fn lemma_item_round_trip(i: ZipItemV)
    requires
        item_encodable(i),
    ensures
        spec_decode_item(spec_encode_item(i)) == Some(i),
{
    lemma_take_tlv_round(TAG_CONTAINER, spec_encode_item_content(i), Seq::<u8>::empty());
    assert(spec_encode_item(i) =~= spec_tlv(TAG_CONTAINER, spec_encode_item_content(i))
        + Seq::<u8>::empty());
    lemma_item_round(i);
}

/// Splitting the first element off an encoded element followed by anything
/// gives back exactly that element and the remainder.
proof fn lemma_take_tlv_round(tag: u8, v: Seq<u8>, rest: Seq<u8>)
    requires
        v.len() <= u64::MAX,
    ensures
        spec_take_tlv(spec_tlv(tag, v) + rest) == Some((tag, v, rest)),
{
    lemma_auto_spec_u64_to_from_le_bytes();
    let b = spec_tlv(tag, v) + rest;
    assert(b.len() == 9 + v.len() + rest.len());
    assert(b.subrange(1, 9) =~= spec_u64_to_le_bytes(v.len() as u64));
    assert(spec_u64_from_le_bytes(b.subrange(1, 9)) == v.len() as u64);
    assert(b.subrange(9, 9 + v.len() as int) =~= v);
    assert(b.subrange(9 + v.len() as int, b.len() as int) =~= rest);
    assert(b[0] == tag);
}

/// A metadata container's value bytes parse back to the metadata value
/// they encode.
proof fn lemma_meta_round(m: ZipMetaV)
    requires
        meta_encodable(m),
    ensures
        spec_parse_meta(spec_encode_meta_content(m)) == Some(m),
{
    broadcast use encode_utf8_valid_utf8, encode_utf8_decode_utf8;

    lemma_auto_spec_u32_to_from_le_bytes();
    let b = spec_encode_meta_content(m);
    let f1 = spec_encode_text(m.filename);
    let f2 = spec_encode_text(m.comment);
    let f3 = spec_tlv(TAG_UINT, spec_u32_to_le_bytes(m.modified_unixtime));
    let f4 = spec_tlv(TAG_ENUM, seq![compression_code(m.compression)]);
    let f5 = spec_tlv(TAG_BOOL, seq![spec_bool_byte(m.is_dir)]);
    let r1 = f2 + f3 + f4 + f5;
    let r2 = f3 + f4 + f5;
    let r3 = f4 + f5;
    let r4 = f5;
    let r5 = Seq::<u8>::empty();
    assert(b =~= f1 + r1);
    lemma_take_tlv_round(TAG_TEXT, encode_utf8(m.filename), r1);
    assert(r1 =~= f2 + r2);
    lemma_take_tlv_round(TAG_TEXT, encode_utf8(m.comment), r2);
    assert(r2 =~= f3 + r3);
    lemma_take_tlv_round(TAG_UINT, spec_u32_to_le_bytes(m.modified_unixtime), r3);
    assert(r3 =~= f4 + r4);
    lemma_take_tlv_round(TAG_ENUM, seq![compression_code(m.compression)], r4);
    assert(r4 =~= f5 + r5);
    lemma_take_tlv_round(TAG_BOOL, seq![spec_bool_byte(m.is_dir)], r5);
    assert(spec_u32_to_le_bytes(m.modified_unixtime).len() == 4);
    assert(code_compression(compression_code(m.compression)) == Some(m.compression));
    assert(spec_bool_byte(m.is_dir) == 255 <==> m.is_dir);
    assert(spec_parse_meta(b) == Some(m));
}

/// A record's value bytes parse back to the record they encode.
proof fn lemma_item_round(i: ZipItemV)
    requires
        item_encodable(i),
    ensures
        spec_parse_item(spec_encode_item_content(i)) == Some(i),
{
    let b = spec_encode_item_content(i);
    let mc = spec_encode_meta_content(i.meta);
    let dtlv = spec_tlv(TAG_BYTES, i.data);
    assert(b =~= spec_tlv(TAG_CONTAINER, mc) + dtlv);
    lemma_take_tlv_round(TAG_CONTAINER, mc, dtlv);
    lemma_meta_round(i.meta);
    assert(dtlv =~= spec_tlv(TAG_BYTES, i.data) + Seq::<u8>::empty());
    lemma_take_tlv_round(TAG_BYTES, i.data, Seq::<u8>::empty());
    assert(spec_parse_item(b) == Some(i));
}

/// An encoded record list decomposes at the front as its first record
/// followed by the rest.
proof fn lemma_encode_items_first(s: Seq<ZipItemV>)
    requires
        s.len() > 0,
    ensures
        spec_encode_items(s) == spec_encode_item(s[0]) + spec_encode_items(s.drop_first()),
    decreases s.len(),
{
    if s.len() == 1 {
        assert(s.drop_last() =~= Seq::<ZipItemV>::empty());
        assert(s.drop_first() =~= Seq::<ZipItemV>::empty());
        assert(spec_encode_items(s) =~= spec_encode_item(s[0]) + spec_encode_items(
            s.drop_first(),
        ));
    } else {
        let t = s.drop_last();
        lemma_encode_items_first(t);
        assert(s.drop_first().drop_last() =~= t.drop_first());
        assert(s.drop_first().last() == s.last());
        assert(spec_encode_items(s.drop_first()) == spec_encode_items(t.drop_first())
            + spec_encode_item(s.last()));
        assert(spec_encode_items(s) =~= spec_encode_item(s[0]) + spec_encode_items(
            s.drop_first(),
        ));
    }
}

/// A concatenation of encoded records parses back to exactly those records.
#[verifier::rlimit(100)]
#[verifier::spinoff_prover]
proof fn lemma_items_round(s: Seq<ZipItemV>)
    requires
        seq_encodable(s),
    ensures
        spec_parse_items(spec_encode_items(s)) == Some(s),
    decreases s.len(),
{
    if s.len() == 0 {
        assert(spec_parse_items(spec_encode_items(s)) =~~= Some(s));
    } else {
        let rest = s.drop_first();
        let enc = spec_encode_items(s);
        let enc0 = spec_encode_item(s[0]);
        let enc_rest = spec_encode_items(rest);
        lemma_encode_items_first(s);
        assert(item_encodable(s[0]));
        assert forall|j: int| 0 <= j < rest.len() implies item_encodable(#[trigger] rest[j]) by {
            assert(rest[j] == s[j + 1]);
        }
        assert(enc_rest.len() <= u64::MAX) by {
            assert(enc.len() == enc0.len() + enc_rest.len());
        }
        lemma_take_tlv_round(TAG_CONTAINER, spec_encode_item_content(s[0]), enc_rest);
        assert(spec_take_tlv(enc) == Some(
            (TAG_CONTAINER, spec_encode_item_content(s[0]), enc_rest),
        ));
        lemma_item_round(s[0]);
        lemma_items_round(rest);
        assert(enc.len() > 0);
        assert(seq![s[0]] + rest =~= s);
        assert(spec_parse_items(enc) == Some(s));
    }
}

/// Round trip: decoding an encoded record sequence gives back the records,
/// field for field, in the same order, for every sequence that fits the
/// scheme's length prefixes, including the empty sequence and records with
/// empty payloads.
pub proof fn lemma_sequence_round_trip(s: Seq<ZipItemV>)
    requires
        seq_encodable(s),
    ensures
        spec_decode_sequence(spec_encode_sequence(s)) == Some(s),
{
    lemma_take_tlv_round(TAG_CONTAINER, spec_encode_items(s), Seq::<u8>::empty());
    assert(spec_encode_sequence(s) =~= spec_tlv(TAG_CONTAINER, spec_encode_items(s))
        + Seq::<u8>::empty());
    lemma_items_round(s);
}

/// Order preservation: encoding then decoding never reorders records; the
/// record at any position decodes to the record that was encoded there,
/// whatever the payload sizes or metadata are.
pub proof fn lemma_round_trip_preserves_order(s: Seq<ZipItemV>, i: int)
    requires
        seq_encodable(s),
        0 <= i < s.len(),
    ensures
        spec_decode_sequence(spec_encode_sequence(s)) matches Some(d) && d.len() == s.len()
            && d[i] == s[i],
{
    lemma_sequence_round_trip(s);
}

} // verus!
