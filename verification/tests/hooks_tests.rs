use std::io::Write;

use zipseq::BasenameNamer;
use zipseq::FlattenMapper;
use zipseq::NopNamer;
use zipseq::ZipItem;
use zipseq::ZipMeta;
use zipseq::ZipSeqError;
use zipseq::buf2items;
use zipseq::zipnames2sequence2zipwtr;

fn gzip(data: &[u8]) -> Vec<u8> {
    let mut enc = flate2::write::GzEncoder::new(Vec::new(), flate2::Compression::default());
    enc.write_all(data).unwrap();
    enc.finish().unwrap()
}

fn zip_with_file(name: &str, content: &[u8]) -> Vec<u8> {
    let mut w = zip::ZipWriter::new(std::io::Cursor::new(Vec::new()));
    let opts = zip::write::SimpleFileOptions::default()
        .compression_method(zip::CompressionMethod::Stored);
    w.start_file(name, opts).unwrap();
    w.write_all(content).unwrap();
    w.finish().unwrap().into_inner()
}

#[test]
fn pipeline_with_flatten_and_basename() {
    let payload = gzip(br#"{"keep":1,"drop":[2]}"#);
    let input = zip_with_file("data.json.gz", &payload);
    let mut mapper = FlattenMapper;
    let out = zipnames2sequence2zipwtr(
        vec![("/tmp/archive.zip".to_string(), input)],
        &mut mapper,
        &BasenameNamer,
        false,
    )
    .unwrap();

    let mut za = zip::ZipArchive::new(std::io::Cursor::new(out)).unwrap();
    assert_eq!(za.len(), 1);
    assert_eq!(za.by_index(0).unwrap().name(), "archive");
    let mut enc = Vec::new();
    std::io::Read::read_to_end(&mut za.by_index(0).unwrap(), &mut enc).unwrap();
    let items = buf2items(&enc).unwrap();
    assert_eq!(items.len(), 1);
    assert_eq!(items[0].meta.filename, "data.json.gz");
    let v: serde_json::Value = serde_json::from_slice(&items[0].data).unwrap();
    let obj = v.as_object().unwrap();
    assert_eq!(obj.len(), 1);
    assert_eq!(obj.get("keep").unwrap(), &serde_json::Value::from(1));
}

#[test]
fn flatten_failure_aborts_the_archive() {
    let input = zip_with_file("notjson.bin", b"not gzip json");
    let mut mapper = FlattenMapper;
    let err = zipnames2sequence2zipwtr(
        vec![("in.zip".to_string(), input)],
        &mut mapper,
        &NopNamer,
        false,
    )
    .unwrap_err();
    assert_eq!(err, ZipSeqError::PayloadDecodeError);
}

#[test]
fn flatten_preserves_metadata() {
    let item = ZipItem {
        meta: ZipMeta {
            filename: "m.gz".to_string(),
            comment: "kept".to_string(),
            modified_unixtime: 42,
            compression: zipseq::CompressionMethod::Deflate,
            is_dir: false,
        },
        data: gzip(br#"{"a":true}"#),
    };
    let mut mapper = FlattenMapper;
    let out = item.into_mapd(&mut mapper).unwrap();
    assert_eq!(out.meta.filename, "m.gz");
    assert_eq!(out.meta.comment, "kept");
    assert_eq!(out.meta.modified_unixtime, 42);
    assert_eq!(out.data, br#"{"a":true}"#.to_vec());
}

#[test]
fn empty_output_name_is_a_configuration_error() {
    let input = zip_with_file("f", b"x");
    let mut mapper = zipseq::NopMapper;
    let err = zipnames2sequence2zipwtr(
        vec![("/tmp/".to_string(), input)],
        &mut mapper,
        &BasenameNamer,
        false,
    )
    .unwrap_err();
    assert_eq!(err, ZipSeqError::ConfigurationError);
}

#[test]
fn deflated_output_entries_round_trip() {
    let input = zip_with_file("f.txt", b"squeeze me");
    let mut mapper = zipseq::NopMapper;
    let out = zipnames2sequence2zipwtr(
        vec![("one.zip".to_string(), input)],
        &mut mapper,
        &NopNamer,
        true,
    )
    .unwrap();
    let mut za = zip::ZipArchive::new(std::io::Cursor::new(out)).unwrap();
    let method = za.by_index(0).unwrap().compression();
    assert_eq!(method, zip::CompressionMethod::Deflated);
    let mut enc = Vec::new();
    std::io::Read::read_to_end(&mut za.by_index(0).unwrap(), &mut enc).unwrap();
    let items = buf2items(&enc).unwrap();
    assert_eq!(items[0].data, b"squeeze me".to_vec());
}
