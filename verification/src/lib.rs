//! Re-encodes the contents of zip archives as length-prefixed binary record
//! sequences, one sequence per input archive, gathered into one output archive.

pub mod codec;
pub mod errors;
pub mod extract;
pub mod hooks;
pub mod json;
pub mod model;
pub mod pipeline;
pub mod writer;

pub use codec::buf2item;
pub use codec::buf2items;
pub use codec::items2buf;
pub use extract::zip2items;
pub use extract::RawZipEntry;
pub use hooks::nop_mapper;
pub use hooks::nop_name_converter;
pub use hooks::str2string;
pub use hooks::BasenameNamer;
pub use hooks::NameTransform;
pub use hooks::NopMapper;
pub use hooks::NopNamer;
pub use hooks::RecordTransform;
pub use json::flatten_payload;
pub use json::FlattenMapper;
pub use json::JsonVal;
pub use pipeline::zipfilename2sequence;
pub use pipeline::zipnames2sequence2zipwtr;
pub use pipeline::zipnames2sequence2zipwtr_default;
pub use errors::ZipSeqError;
pub use model::CompressionMethod;
pub use model::ZipItem;
pub use model::ZipMeta;
pub use model::ZipSequence;
