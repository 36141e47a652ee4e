//! The built-in flatten record transform.
//!
//! A record's payload is treated as gzip-compressed JSON: it is
//! decompressed, parsed as a top-level JSON object, filtered down to the
//! top-level keys whose value is a scalar (null, boolean, number or
//! string; arrays and nested objects are dropped), and re-serialized as
//! compact JSON. The metadata is left untouched. Decompression and parsing
//! go through outside crates behind trusted wrappers; the filtering and the
//! compact re-serialization are the library's own verified logic.

use vstd::prelude::*;
use vstd::string::StringExecFns;
use vstd::string::StrSliceExecFns;
use vstd::utf8::encode_utf8;

use crate::errors::ZipSeqError;
use crate::hooks::RecordTransform;
use crate::model::{ZipItem, ZipItemV};

verus! {

/// The top-level view of one JSON value: scalars carry their plain value
/// (numbers as their decimal text), arrays and nested objects are only
/// marked composite.
pub enum JsonValV {
    Null,
    Bool(bool),
    Num(Seq<char>),
    Str(Seq<char>),
    Composite,
}

/// One top-level JSON value, as the flatten transform sees it.
#[derive(Debug)]
pub enum JsonVal {
    Null,
    Bool(bool),
    Num(String),
    Str(String),
    Composite,
}

impl View for JsonVal {
    type V = JsonValV;

    open spec fn view(&self) -> JsonValV {
        match self {
            JsonVal::Null => JsonValV::Null,
            JsonVal::Bool(b) => JsonValV::Bool(*b),
            JsonVal::Num(s) => JsonValV::Num(s@),
            JsonVal::Str(s) => JsonValV::Str(s@),
            JsonVal::Composite => JsonValV::Composite,
        }
    }
}

/// Whether a top-level value is a scalar the flatten transform keeps.
pub open spec fn is_scalar(v: JsonValV) -> bool {
    !(v is Composite)
}

/// The views of a list of key/value pairs.
pub open spec fn pairs_view(s: Seq<(String, JsonVal)>) -> Seq<(Seq<char>, JsonValV)> {
    s.map_values(|p: (String, JsonVal)| (p.0@, p.1@))
}

/// The scalar-valued pairs of a list, in order.
pub open spec fn filter_scalars(s: Seq<(Seq<char>, JsonValV)>) -> Seq<(Seq<char>, JsonValV)> {
    s.filter(|p: (Seq<char>, JsonValV)| is_scalar(p.1))
}

/// Flatten filtering keeps every pair of an already-flat object: on a list
/// whose values are all scalars it changes nothing.
pub proof fn lemma_filter_scalars_flat(s: Seq<(Seq<char>, JsonValV)>)
    requires
        forall|i: int| 0 <= i < s.len() ==> is_scalar((#[trigger] s[i]).1),
    ensures
        filter_scalars(s) == s,
    decreases s.len(),
{
    reveal(Seq::filter);
    if s.len() == 0 {
        assert(filter_scalars(s) =~= s);
    } else {
        assert(forall|i: int| 0 <= i < s.len() - 1 ==> s.drop_last()[i] == s[i]);
        lemma_filter_scalars_flat(s.drop_last());
        assert(filter_scalars(s) =~= s);
    }
}

/// Flatten filtering is idempotent on structure: filtering a second time
/// changes nothing.
pub proof fn lemma_filter_scalars_idempotent(s: Seq<(Seq<char>, JsonValV)>)
    ensures
        filter_scalars(filter_scalars(s)) == filter_scalars(s),
{
    broadcast use vstd::seq_lib::group_filter_ensures;

    assert forall|i: int| 0 <= i < filter_scalars(s).len() implies is_scalar(
        (#[trigger] filter_scalars(s)[i]).1,
    ) by {
        s.lemma_filter_pred(|p: (Seq<char>, JsonValV)| is_scalar(p.1), i);
    }
    lemma_filter_scalars_flat(filter_scalars(s));
}

/// A hexadecimal digit character.
pub open spec fn spec_hex_char(d: u8) -> char {
    if d == 0 {
        '0'
    } else if d == 1 {
        '1'
    } else if d == 2 {
        '2'
    } else if d == 3 {
        '3'
    } else if d == 4 {
        '4'
    } else if d == 5 {
        '5'
    } else if d == 6 {
        '6'
    } else if d == 7 {
        '7'
    } else if d == 8 {
        '8'
    } else if d == 9 {
        '9'
    } else if d == 10 {
        'a'
    } else if d == 11 {
        'b'
    } else if d == 12 {
        'c'
    } else if d == 13 {
        'd'
    } else if d == 14 {
        'e'
    } else {
        'f'
    }
}

/// How one character appears inside a JSON string literal: quote and
/// backslash are escaped, control characters take their short escape or a
/// `\u00..` escape, everything else stands verbatim.
pub open spec fn json_escape_char(c: char) -> Seq<char> {
    if c == '"' {
        seq!['\\', '"']
    } else if c == '\\' {
        seq!['\\', '\\']
    } else if c == '\u{8}' {
        seq!['\\', 'b']
    } else if c == '\t' {
        seq!['\\', 't']
    } else if c == '\n' {
        seq!['\\', 'n']
    } else if c == '\u{c}' {
        seq!['\\', 'f']
    } else if c == '\r' {
        seq!['\\', 'r']
    } else if (c as u32) < 32 {
        seq!['\\', 'u', '0', '0', spec_hex_char(((c as u32) >> 4) as u8), spec_hex_char(
            ((c as u32) & 15) as u8,
        )]
    } else {
        seq![c]
    }
}

/// A whole text as it appears inside a JSON string literal.
pub open spec fn json_escape(s: Seq<char>) -> Seq<char>
    decreases s.len(),
{
    if s.len() == 0 {
        Seq::empty()
    } else {
        json_escape(s.drop_last()) + json_escape_char(s.last())
    }
}

/// The compact JSON text of one scalar value.
pub open spec fn json_value_text(v: JsonValV) -> Seq<char> {
    match v {
        JsonValV::Null => seq!['n', 'u', 'l', 'l'],
        JsonValV::Bool(b) => if b {
            seq!['t', 'r', 'u', 'e']
        } else {
            seq!['f', 'a', 'l', 's', 'e']
        },
        JsonValV::Num(t) => t,
        JsonValV::Str(t) => seq!['"'] + json_escape(t) + seq!['"'],
        JsonValV::Composite => Seq::empty(),
    }
}

/// The compact JSON text of one `"key":value` member.
pub open spec fn json_entry_text(p: (Seq<char>, JsonValV)) -> Seq<char> {
    seq!['"'] + json_escape(p.0) + seq!['"', ':'] + json_value_text(p.1)
}

/// The comma-separated members of a compact JSON object.
pub open spec fn json_entries_text(ps: Seq<(Seq<char>, JsonValV)>) -> Seq<char>
    decreases ps.len(),
{
    if ps.len() == 0 {
        Seq::empty()
    } else if ps.len() == 1 {
        json_entry_text(ps[0])
    } else {
        json_entries_text(ps.drop_last()) + seq![','] + json_entry_text(ps.last())
    }
}

/// The compact JSON text of a whole object.
pub open spec fn json_object_text(ps: Seq<(Seq<char>, JsonValV)>) -> Seq<char> {
    seq!['{'] + json_entries_text(ps) + seq!['}']
}

/// What the flatten transform turns a payload into: the UTF-8 bytes of the
/// compact JSON object holding exactly the scalar top-level pairs of the
/// parsed object, or `None` when the payload is not gzip-compressed JSON
/// with a top-level object.
pub open spec fn spec_flatten(b: Seq<u8>) -> Option<Seq<u8>> {
    match gunzip_of(b) {
        None => None,
        Some(j) => match json_object_of(j) {
            None => None,
            Some(pairs) => Some(encode_utf8(json_object_text(filter_scalars(pairs)))),
        },
    }
}

pub uninterp spec fn gunzip_of(b: Seq<u8>) -> Option<Seq<u8>>;

/// Relies on `flate2::read::GzDecoder`: inflating a gzip stream is a
/// function of the input bytes alone; invalid or corrupt streams fail.
#[verifier::external_body]
fn gunzip(b: &Vec<u8>) -> (r: Result<Vec<u8>, ZipSeqError>)
    ensures
        r is Ok <==> gunzip_of(b@) is Some,
        r is Ok ==> Some(r->Ok_0@) == gunzip_of(b@),
        r is Err ==> r->Err_0 == ZipSeqError::PayloadDecodeError,
{
    let mut d = flate2::read::GzDecoder::new(b.as_slice());
    let mut out: Vec<u8> = Vec::new();
    match std::io::Read::read_to_end(&mut d, &mut out) {
        Ok(_) => Ok(out),
        Err(_) => Err(ZipSeqError::PayloadDecodeError),
    }
}

pub uninterp spec fn json_object_of(b: Seq<u8>) -> Option<Seq<(Seq<char>, JsonValV)>>;

/// Relies on `serde_json::from_slice` parsing a `serde_json::Map`: it
/// succeeds exactly when the bytes are JSON whose top-level value is an
/// object, handing out the top-level pairs in the map's (key-sorted)
/// order, numbers as their `serde_json::Number::to_string` text, arrays
/// and nested objects marked composite.
#[verifier::external_body]
fn parse_flat_object(b: &Vec<u8>) -> (r: Result<Vec<(String, JsonVal)>, ZipSeqError>)
    ensures
        r is Ok <==> json_object_of(b@) is Some,
        r is Ok ==> Some(pairs_view(r->Ok_0@)) == json_object_of(b@),
        r is Err ==> r->Err_0 == ZipSeqError::PayloadDecodeError,
{
    let m: serde_json::Map<String, serde_json::Value> = match serde_json::from_slice(
        b.as_slice(),
    ) {
        Ok(m) => m,
        Err(_) => return Err(ZipSeqError::PayloadDecodeError),
    };
    let conv = |v: serde_json::Value| match v {
        serde_json::Value::Null => JsonVal::Null,
        serde_json::Value::Bool(x) => JsonVal::Bool(x),
        serde_json::Value::Number(n) => JsonVal::Num(n.to_string()),
        serde_json::Value::String(s) => JsonVal::Str(s),
        _ => JsonVal::Composite,
    };
    Ok(m.into_iter().map(|(k, v)| (k, conv(v))).collect())
}

/// Relies on `String::push`: appends one character.
#[verifier::external_body]
fn push_char(s: &mut String, c: char)
    ensures
        final(s)@ == old(s)@.push(c),
{
    s.push(c);
}

/// The hexadecimal digit character for a value below 16.
fn hex_char(d: u8) -> (r: char)
    requires
        d < 16,
    ensures
        r == spec_hex_char(d),
{
    if d == 0 {
        '0'
    } else if d == 1 {
        '1'
    } else if d == 2 {
        '2'
    } else if d == 3 {
        '3'
    } else if d == 4 {
        '4'
    } else if d == 5 {
        '5'
    } else if d == 6 {
        '6'
    } else if d == 7 {
        '7'
    } else if d == 8 {
        '8'
    } else if d == 9 {
        '9'
    } else if d == 10 {
        'a'
    } else if d == 11 {
        'b'
    } else if d == 12 {
        'c'
    } else if d == 13 {
        'd'
    } else if d == 14 {
        'e'
    } else {
        'f'
    }
}

/// Appends the JSON string-literal escaping of `s` to `out`.
fn escape_into(out: &mut String, s: &str)
    ensures
        final(out)@ == old(out)@ + json_escape(s@),
{
    let n = s.unicode_len();
    let mut i: usize = 0;
    proof {
        assert(old(out)@ + json_escape(s@.take(0)) =~= old(out)@);
    }
    while i < n
        invariant
            i <= n,
            n == s@.len(),
            out@ == old(out)@ + json_escape(s@.take(i as int)),
        decreases n - i,
    {
        let c = s.get_char(i);
        if c == '"' {
            push_char(out, '\\');
            push_char(out, '"');
        } else if c == '\\' {
            push_char(out, '\\');
            push_char(out, '\\');
        } else if c == '\u{8}' {
            push_char(out, '\\');
            push_char(out, 'b');
        } else if c == '\t' {
            push_char(out, '\\');
            push_char(out, 't');
        } else if c == '\n' {
            push_char(out, '\\');
            push_char(out, 'n');
        } else if c == '\u{c}' {
            push_char(out, '\\');
            push_char(out, 'f');
        } else if c == '\r' {
            push_char(out, '\\');
            push_char(out, 'r');
        } else if (c as u32) < 32 {
            let v = c as u32;
            proof {
                assert((v >> 4) < 16 && (v & 15) < 16) by (bit_vector)
                    requires
                        v < 32,
                ;
            }
            push_char(out, '\\');
            push_char(out, 'u');
            push_char(out, '0');
            push_char(out, '0');
            push_char(out, hex_char(#[verifier::truncate] ((v >> 4) as u8)));
            push_char(out, hex_char(#[verifier::truncate] ((v & 15) as u8)));
        } else {
            push_char(out, c);
        }
        proof {
            assert(s@.take(i + 1).drop_last() =~= s@.take(i as int));
            assert(s@.take(i + 1).last() == s@[i as int]);
            assert(out@ =~= old(out)@ + (json_escape(s@.take(i as int)) + json_escape_char(
                s@[i as int],
            )));
        }
        i = i + 1;
    }
    proof {
        assert(s@.take(n as int) =~= s@);
    }
}

/// Serializes the scalar pairs of a list as a compact JSON object,
/// skipping the composite pairs: the UTF-8 text of the object holding
/// exactly the scalar pairs, in order.
#[verifier::rlimit(100)]
fn write_flat_json(pairs: &Vec<(String, JsonVal)>) -> (r: Vec<u8>)
    ensures
        r@ == encode_utf8(json_object_text(filter_scalars(pairs_view(pairs@)))),
{
    reveal(Seq::filter);
    let mut out = String::new();
    push_char(&mut out, '{');
    let mut emitted: usize = 0;
    let mut i: usize = 0;
    proof {
        assert(pairs_view(pairs@).take(0) =~= Seq::<(Seq<char>, JsonValV)>::empty());
        assert(out@ =~= seq!['{'] + json_entries_text(filter_scalars(
            pairs_view(pairs@).take(0),
        )));
    }
    while i < pairs.len()
        invariant
            i <= pairs@.len(),
            out@ == seq!['{'] + json_entries_text(filter_scalars(pairs_view(pairs@).take(
                i as int,
            ))),
            emitted == filter_scalars(pairs_view(pairs@).take(i as int)).len(),
        decreases pairs@.len() - i,
    {
        let ghost pv = pairs_view(pairs@);
        let ghost flt = filter_scalars(pv.take(i as int));
        proof {
            reveal(Seq::filter);
            assert(pv.take(i + 1).drop_last() =~= pv.take(i as int));
            assert(pv.take(i + 1).last() == pv[i as int]);
            assert(pv[i as int] == (pairs@[i as int].0@, pairs@[i as int].1@));
        }
        let p = &pairs[i];
        let keep = match &p.1 {
            JsonVal::Composite => false,
            _ => true,
        };
        if keep {
            if emitted > 0 {
                push_char(&mut out, ',');
            }
            push_char(&mut out, '"');
            escape_into(&mut out, p.0.as_str());
            push_char(&mut out, '"');
            push_char(&mut out, ':');
            match &p.1 {
                JsonVal::Null => {
                    out.append("null");
                    proof {
                        reveal_strlit("null");
                        assert("null"@ =~= seq!['n', 'u', 'l', 'l']);
                    }
                },
                JsonVal::Bool(x) => {
                    if *x {
                        out.append("true");
                        proof {
                            reveal_strlit("true");
                            assert("true"@ =~= seq!['t', 'r', 'u', 'e']);
                        }
                    } else {
                        out.append("false");
                        proof {
                            reveal_strlit("false");
                            assert("false"@ =~= seq!['f', 'a', 'l', 's', 'e']);
                        }
                    }
                },
                JsonVal::Num(t) => {
                    out.append(t.as_str());
                },
                JsonVal::Str(t) => {
                    push_char(&mut out, '"');
                    escape_into(&mut out, t.as_str());
                    push_char(&mut out, '"');
                },
                JsonVal::Composite => {
                    assert(false);
                },
            }
            proof {
                reveal(Seq::filter);
                assert(filter_scalars(pv.take(i + 1)) =~= flt.push(pv[i as int]));
                if emitted == 0 {
                    assert(flt.len() == 0);
                    assert(flt.push(pv[i as int])[0] == pv[i as int]);
                    assert(json_entries_text(flt.push(pv[i as int])) == json_entry_text(
                        pv[i as int],
                    ));
                } else {
                    assert(flt.push(pv[i as int]).drop_last() =~= flt);
                }
                assert(out@ =~= seq!['{'] + json_entries_text(filter_scalars(pv.take(i + 1))));
            }
        } else {
            proof {
                reveal(Seq::filter);
                assert(filter_scalars(pv.take(i + 1)) =~= flt);
            }
        }
        i = i + 1;
        proof {
            if keep {
                assert(emitted + 1 == filter_scalars(pv.take(i as int)).len());
            }
        }
        if keep {
            emitted = emitted + 1;
        }
    }
    push_char(&mut out, '}');
    proof {
        assert(pairs_view(pairs@).take(pairs@.len() as int) =~= pairs_view(pairs@));
        assert(out@ =~= json_object_text(filter_scalars(pairs_view(pairs@))));
    }
    out.as_str().as_bytes_vec()
}

/// Applies the flatten transform to one payload: decompress the gzip
/// stream, parse the JSON object, keep the scalar top-level pairs, and
/// serialize them back as compact JSON. Succeeds exactly when the payload
/// is gzip-compressed JSON with a top-level object; every failure is
/// [`ZipSeqError::PayloadDecodeError`].
pub fn flatten_payload(data: &Vec<u8>) -> (r: Result<Vec<u8>, ZipSeqError>)
    ensures
        r is Ok <==> spec_flatten(data@) is Some,
        r is Ok ==> Some(r->Ok_0@) == spec_flatten(data@),
        r is Err ==> r->Err_0 == ZipSeqError::PayloadDecodeError,
{
    let decompressed = match gunzip(data) {
        Ok(d) => d,
        Err(e) => {
            return Err(e);
        },
    };
    let pairs = match parse_flat_object(&decompressed) {
        Ok(p) => p,
        Err(e) => {
            return Err(e);
        },
    };
    Ok(write_flat_json(&pairs))
}

/// The built-in flatten record transform hook: replaces the payload with
/// its flattened form and leaves the metadata untouched.
pub struct FlattenMapper;

impl RecordTransform for FlattenMapper {
    open spec fn spec_apply(item: ZipItemV) -> Option<ZipItemV> {
        match spec_flatten(item.data) {
            Some(d) => Some(ZipItemV { meta: item.meta, data: d }),
            None => None,
        }
    }

    fn apply(&mut self, item: ZipItem) -> (r: Result<ZipItem, ZipSeqError>) {
        let data = match flatten_payload(&item.data) {
            Ok(d) => d,
            Err(e) => {
                return Err(e);
            },
        };
        Ok(ZipItem { meta: item.meta, data })
    }
}

/// The built-in flatten transform touches only the payload: any record it
/// accepts keeps its metadata, field for field.
pub proof fn lemma_flatten_preserves_meta(item: ZipItemV)
    ensures
        FlattenMapper::spec_apply(item) matches Some(v) ==> v.meta == item.meta,
{
}

} // verus!
