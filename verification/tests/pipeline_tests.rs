use std::io::Write;

use zipseq::BasenameNamer;
use zipseq::CompressionMethod;
use zipseq::NameTransform;
use zipseq::RawZipEntry;
use zipseq::ZipItem;
use zipseq::ZipMeta;
use zipseq::ZipSeqError;
use zipseq::buf2item;
use zipseq::buf2items;
use zipseq::flatten_payload;
use zipseq::items2buf;
use zipseq::nop_mapper;
use zipseq::nop_name_converter;
use zipseq::str2string;
use zipseq::zip2items;
use zipseq::zipnames2sequence2zipwtr_default;

fn meta(
    filename: &str,
    comment: &str,
    mtime: u32,
    compression: CompressionMethod,
    is_dir: bool,
) -> ZipMeta {
    ZipMeta {
        filename: filename.to_string(),
        comment: comment.to_string(),
        modified_unixtime: mtime,
        compression,
        is_dir,
    }
}

fn assert_meta_eq(a: &ZipMeta, b: &ZipMeta) {
    assert_eq!(a.filename, b.filename);
    assert_eq!(a.comment, b.comment);
    assert_eq!(a.modified_unixtime, b.modified_unixtime);
    assert_eq!(a.compression, b.compression);
    assert_eq!(a.is_dir, b.is_dir);
}

fn gzip(data: &[u8]) -> Vec<u8> {
    let mut enc = flate2::write::GzEncoder::new(Vec::new(), flate2::Compression::default());
    enc.write_all(data).unwrap();
    enc.finish().unwrap()
}

fn zip_with_file(name: &str, content: &[u8]) -> Vec<u8> {
    let mut w = zip::ZipWriter::new(std::io::Cursor::new(Vec::new()));
    let opts = zip::write::SimpleFileOptions::default()
        .compression_method(zip::CompressionMethod::Stored);
    w.start_file(name, opts).unwrap();
    w.write_all(content).unwrap();
    w.finish().unwrap().into_inner()
}

fn zip_with_dir(name: &str) -> Vec<u8> {
    let mut w = zip::ZipWriter::new(std::io::Cursor::new(Vec::new()));
    let opts = zip::write::SimpleFileOptions::default()
        .compression_method(zip::CompressionMethod::Stored);
    w.add_directory(name, opts).unwrap();
    w.finish().unwrap().into_inner()
}

#[test]
fn round_trip_two_records() {
    let items = vec![
        ZipItem {
            meta: meta("héllo.txt", "a comment", 1700000000, CompressionMethod::Deflate, false),
            data: b"payload bytes".to_vec(),
        },
        ZipItem {
            meta: meta("dir/", "", 0, CompressionMethod::Store, true),
            data: Vec::new(),
        },
    ];
    let mut buf: Vec<u8> = Vec::new();
    items2buf(&items, &mut buf).unwrap();
    let decoded = buf2items(&buf).unwrap();
    assert_eq!(decoded.len(), 2);
    assert_meta_eq(&decoded[0].meta, &items[0].meta);
    assert_eq!(decoded[0].data, items[0].data);
    assert_meta_eq(&decoded[1].meta, &items[1].meta);
    assert_eq!(decoded[1].data, items[1].data);
}

#[test]
fn round_trip_empty_sequence() {
    let items: Vec<ZipItem> = Vec::new();
    let mut buf: Vec<u8> = Vec::new();
    items2buf(&items, &mut buf).unwrap();
    assert!(!buf.is_empty());
    let decoded = buf2items(&buf).unwrap();
    assert_eq!(decoded.len(), 0);
}

#[test]
fn round_trip_preserves_order() {
    let mut items: Vec<ZipItem> = Vec::new();
    for i in 0..5u32 {
        items.push(ZipItem {
            meta: meta(&format!("f{i}"), "", i, CompressionMethod::Unspecified, false),
            data: vec![i as u8; i as usize],
        });
    }
    let mut buf: Vec<u8> = Vec::new();
    items2buf(&items, &mut buf).unwrap();
    let decoded = buf2items(&buf).unwrap();
    assert_eq!(decoded.len(), 5);
    for i in 0..5usize {
        assert_eq!(decoded[i].meta.filename, format!("f{i}"));
        assert_eq!(decoded[i].data.len(), i);
    }
}

#[test]
fn default_meta_round_trips_to_default() {
    let items = vec![ZipItem { meta: ZipMeta::default(), data: Vec::new() }];
    let mut buf: Vec<u8> = Vec::new();
    items2buf(&items, &mut buf).unwrap();
    let decoded = buf2items(&buf).unwrap();
    assert_eq!(decoded.len(), 1);
    assert_meta_eq(&decoded[0].meta, &ZipMeta::default());
    assert_eq!(decoded[0].data, Vec::<u8>::new());
}

#[test]
fn single_record_to_buf() {
    let item = ZipItem {
        meta: meta("one", "", 7, CompressionMethod::Store, false),
        data: b"x".to_vec(),
    };
    let mut buf: Vec<u8> = Vec::new();
    item.to_buf(&mut buf).unwrap();
    assert!(!buf.is_empty());
    let again = ZipItem {
        meta: meta("one", "", 7, CompressionMethod::Store, false),
        data: b"x".to_vec(),
    };
    let mut buf2: Vec<u8> = Vec::new();
    again.to_buf(&mut buf2).unwrap();
    assert_eq!(buf, buf2);
}

#[test]
fn single_record_round_trip() {
    let item = ZipItem {
        meta: meta("solo.bin", "c", 99, CompressionMethod::Unspecified, false),
        data: vec![0, 255, 7],
    };
    let mut buf: Vec<u8> = Vec::new();
    item.to_buf(&mut buf).unwrap();
    let decoded = buf2item(&buf).unwrap();
    assert_meta_eq(&decoded.meta, &item.meta);
    assert_eq!(decoded.data, item.data);
    buf.push(0);
    assert_eq!(buf2item(&buf).unwrap_err(), ZipSeqError::MalformedEncoding);
}

#[test]
fn decode_rejects_empty_input() {
    let buf: Vec<u8> = Vec::new();
    assert_eq!(buf2items(&buf).unwrap_err(), ZipSeqError::MalformedEncoding);
}

#[test]
fn decode_rejects_corrupt_input() {
    let items = vec![ZipItem {
        meta: meta("f", "", 1, CompressionMethod::Deflate, false),
        data: b"abc".to_vec(),
    }];
    let mut buf: Vec<u8> = Vec::new();
    items2buf(&items, &mut buf).unwrap();
    let mut truncated = buf.clone();
    truncated.pop();
    assert_eq!(buf2items(&truncated).unwrap_err(), ZipSeqError::MalformedEncoding);
    let mut bad_tag = buf.clone();
    bad_tag[0] = 0x31;
    assert_eq!(buf2items(&bad_tag).unwrap_err(), ZipSeqError::MalformedEncoding);
    let mut bad_enum = buf.clone();
    let n = bad_enum.len();
    // the enumerated compression byte sits right before the boolean element
    // (1 tag + 8 length + 1 value) and the payload element (9 + 3) at the end
    let enum_pos = n - 3 - 9 - 1 - 9 - 1;
    assert_eq!(bad_enum[enum_pos], 108);
    bad_enum[enum_pos] = 42;
    assert_eq!(buf2items(&bad_enum).unwrap_err(), ZipSeqError::MalformedEncoding);
}

#[test]
fn flatten_filters_scalars() {
    let src = br#"{"a":1,"b":[1,2],"c":{"x":1},"d":"s","e":null,"f":true}"#;
    let flat = flatten_payload(&gzip(src)).unwrap();
    let v: serde_json::Value = serde_json::from_slice(&flat).unwrap();
    let obj = v.as_object().unwrap();
    assert_eq!(obj.len(), 4);
    assert_eq!(obj.get("a").unwrap(), &serde_json::Value::from(1));
    assert_eq!(obj.get("d").unwrap(), &serde_json::Value::from("s"));
    assert_eq!(obj.get("e").unwrap(), &serde_json::Value::Null);
    assert_eq!(obj.get("f").unwrap(), &serde_json::Value::from(true));
    assert!(obj.get("b").is_none());
    assert!(obj.get("c").is_none());
}

#[test]
fn flatten_keeps_already_flat_objects() {
    let src = br#"{"x":2,"y":"z","w":null}"#;
    let flat = flatten_payload(&gzip(src)).unwrap();
    let got: serde_json::Value = serde_json::from_slice(&flat).unwrap();
    let want: serde_json::Value = serde_json::from_slice(src).unwrap();
    assert_eq!(got, want);
    // a second pass over the (re-compressed) output changes nothing
    let twice = flatten_payload(&gzip(&flat)).unwrap();
    let got2: serde_json::Value = serde_json::from_slice(&twice).unwrap();
    assert_eq!(got2, want);
}

#[test]
fn flatten_escapes_strings() {
    let src = b"{\"q\":\"a\\\"b\\\\c\\nd\"}";
    let flat = flatten_payload(&gzip(src)).unwrap();
    let v: serde_json::Value = serde_json::from_slice(&flat).unwrap();
    assert_eq!(v.as_object().unwrap().get("q").unwrap(), "a\"b\\c\nd");
}

#[test]
fn flatten_rejects_bad_gzip() {
    let junk = b"definitely not gzip".to_vec();
    assert_eq!(flatten_payload(&junk).unwrap_err(), ZipSeqError::PayloadDecodeError);
}

#[test]
fn flatten_rejects_non_object_json() {
    assert_eq!(
        flatten_payload(&gzip(b"[1,2,3]")).unwrap_err(),
        ZipSeqError::PayloadDecodeError
    );
    assert_eq!(
        flatten_payload(&gzip(b"{\"a\":")).unwrap_err(),
        ZipSeqError::PayloadDecodeError
    );
}

#[test]
fn basename_name_transform() {
    let mut out = String::new();
    BasenameNamer.name_for("/tmp/archive.zip", &mut out);
    assert_eq!(out, "archive");
    BasenameNamer.name_for("plain", &mut out);
    assert_eq!(out, "plain");
    BasenameNamer.name_for("a/b/.hidden", &mut out);
    assert_eq!(out, ".hidden");
    BasenameNamer.name_for("/tmp/", &mut out);
    assert_eq!(out, "");
}

#[test]
fn identity_name_transform() {
    let mut out = String::new();
    nop_name_converter("/tmp/archive.zip", &mut out);
    assert_eq!(out, "/tmp/archive.zip");
    let mut d = String::from("ab");
    str2string("cd", &mut d);
    assert_eq!(d, "abcd");
}

#[test]
fn identity_record_transform() {
    let item = ZipItem {
        meta: meta("n", "c", 3, CompressionMethod::Store, false),
        data: b"zz".to_vec(),
    };
    let out = nop_mapper(item).unwrap();
    assert_eq!(out.meta.filename, "n");
    assert_eq!(out.data, b"zz".to_vec());
}

#[test]
fn extractor_maps_entries() {
    let bytes = zip_with_file("f.txt", b"hi");
    let items = zip2items(bytes).unwrap();
    assert_eq!(items.len(), 1);
    assert_eq!(items[0].meta.filename, "f.txt");
    assert_eq!(items[0].meta.compression, CompressionMethod::Store);
    assert_eq!(items[0].meta.modified_unixtime, 0);
    assert!(!items[0].meta.is_dir);
    assert_eq!(items[0].data, b"hi".to_vec());
}

#[test]
fn extractor_rejects_invalid_container() {
    let err = zip2items(b"not a zip at all".to_vec()).unwrap_err();
    assert_eq!(err, ZipSeqError::InvalidArchive);
}

#[test]
fn raw_entry_methods() {
    let mut extra: Vec<u8> = Vec::new();
    extra.extend_from_slice(&[0x41, 0x41, 2, 0, 9, 9]); // an unrelated block
    extra.extend_from_slice(&[0x55, 0x54, 5, 0, 1, 0x78, 0x56, 0x34, 0x12]);
    let e = RawZipEntry {
        filename: "a.txt".to_string(),
        comment: "cm".to_string(),
        method_code: 8,
        extra,
        dir: false,
        payload: b"data".to_vec(),
    };
    assert_eq!(e.name(), "a.txt");
    assert_eq!(e.comment(), "cm");
    assert_eq!(e.method(), CompressionMethod::Deflate);
    assert_eq!(e.unixtime(), Some(0x12345678));
    assert!(!e.is_dir());
    let m = e.to_meta();
    assert_eq!(m.modified_unixtime, 0x12345678);
    assert_eq!(m.compression, CompressionMethod::Deflate);
    let mut buf: Vec<u8> = Vec::new();
    e.to_buf(&mut buf).unwrap();
    assert_eq!(buf, b"data".to_vec());
}

#[test]
fn raw_entry_without_timestamp() {
    let e = RawZipEntry {
        filename: "x".to_string(),
        comment: String::new(),
        method_code: 0,
        extra: vec![0x55, 0x54, 1, 0, 0], // flags say no times present
        dir: true,
        payload: Vec::new(),
    };
    assert_eq!(e.unixtime(), None);
    let m = e.to_meta();
    assert_eq!(m.modified_unixtime, 0);
    assert!(m.is_dir);
    assert_eq!(m.compression, CompressionMethod::Store);
}

#[test]
fn end_to_end_two_archives() {
    let a = zip_with_file("f.txt", b"hi");
    let b = zip_with_dir("d");
    let out = zipnames2sequence2zipwtr_default(vec![
        ("a.zip".to_string(), a),
        ("b.zip".to_string(), b),
    ])
    .unwrap();

    let mut za = zip::ZipArchive::new(std::io::Cursor::new(out)).unwrap();
    assert_eq!(za.len(), 2);
    let names: Vec<String> = (0..za.len())
        .map(|i| za.by_index(i).unwrap().name().to_string())
        .collect();
    assert_eq!(names, vec!["a.zip".to_string(), "b.zip".to_string()]);

    let mut first = Vec::new();
    std::io::Read::read_to_end(&mut za.by_index(0).unwrap(), &mut first).unwrap();
    let items = buf2items(&first).unwrap();
    assert_eq!(items.len(), 1);
    assert_eq!(items[0].meta.filename, "f.txt");
    assert!(!items[0].meta.is_dir);
    assert_eq!(items[0].meta.modified_unixtime, 0);
    assert_eq!(items[0].data, b"hi".to_vec());

    let mut second = Vec::new();
    std::io::Read::read_to_end(&mut za.by_index(1).unwrap(), &mut second).unwrap();
    let items = buf2items(&second).unwrap();
    assert_eq!(items.len(), 1);
    assert!(items[0].meta.is_dir);
    assert_eq!(items[0].data, Vec::<u8>::new());
}

#[test]
fn pipeline_output_is_deterministic() {
    let a = zip_with_file("f.txt", b"hi");
    let b = zip_with_dir("d");
    let first = zipnames2sequence2zipwtr_default(vec![
        ("a.zip".to_string(), a.clone()),
        ("b.zip".to_string(), b.clone()),
    ])
    .unwrap();
    let second = zipnames2sequence2zipwtr_default(vec![
        ("a.zip".to_string(), a),
        ("b.zip".to_string(), b),
    ])
    .unwrap();
    assert_eq!(first, second);
}

#[test]
fn failure_propagation_stops_the_run() {
    let good1 = zip_with_file("f.txt", b"one");
    let good2 = zip_with_file("g.txt", b"three");
    let err = zipnames2sequence2zipwtr_default(vec![
        ("a.zip".to_string(), good1),
        ("b.zip".to_string(), b"broken container".to_vec()),
        ("c.zip".to_string(), good2),
    ])
    .unwrap_err();
    assert_eq!(err, ZipSeqError::InvalidArchive);
}

#[test]
fn duplicate_output_names_fail() {
    let a = zip_with_file("f.txt", b"x");
    let b = zip_with_file("g.txt", b"y");
    let err = zipnames2sequence2zipwtr_default(vec![
        ("same.zip".to_string(), a),
        ("same.zip".to_string(), b),
    ])
    .unwrap_err();
    assert_eq!(err, ZipSeqError::IoError);
}

#[test]
fn corrupt_entry_payload_is_an_entry_read_error() {
    let mut bytes = zip_with_file("f.txt", b"hello world payload");
    // flip one byte of the stored entry data; the checksum check on read fails
    let needle = b"hello world payload";
    let pos = bytes
        .windows(needle.len())
        .position(|w| w == needle)
        .unwrap();
    bytes[pos] ^= 0xFF;
    let err = zip2items(bytes).unwrap_err();
    assert_eq!(err, ZipSeqError::EntryReadError);
}

#[test]
fn error_messages_name_their_kind() {
    assert_eq!(ZipSeqError::InvalidArchive.message(), "not a valid zip archive");
    assert_eq!(
        ZipSeqError::MalformedEncoding.message(),
        "malformed binary sequence encoding"
    );
}
