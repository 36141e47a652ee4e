//! The error kinds of the library.
//!
//! No error is recovered anywhere in the library: every failure aborts the
//! current archive's processing and is handed to the caller unchanged.

use vstd::prelude::*;

verus! {

/// Every failure the pipeline can report.
#[derive(Clone, Copy, Debug, PartialEq, Eq, Structural)]
pub enum ZipSeqError {
    /// The source bytes are not a valid zip archive container.
    InvalidArchive,
    /// Reading or decompressing one entry's payload failed.
    EntryReadError,
    /// The flatten transform's gzip or JSON decoding failed.
    PayloadDecodeError,
    /// Binary sequence decoding met an invalid tag, length or value.
    MalformedEncoding,
    /// A required configuration value (an output entry name) is absent.
    ConfigurationError,
    /// A generic failure while writing the output archive.
    IoError,
}

impl ZipSeqError {
    /// A short human-readable description of the error kind.
    pub open spec fn spec_message(self) -> Seq<char> {
        match self {
            ZipSeqError::InvalidArchive => "not a valid zip archive"@,
            ZipSeqError::EntryReadError => "could not read an archive entry"@,
            ZipSeqError::PayloadDecodeError => "could not decode a record payload"@,
            ZipSeqError::MalformedEncoding => "malformed binary sequence encoding"@,
            ZipSeqError::ConfigurationError => "a required configuration value is absent"@,
            ZipSeqError::IoError => "could not write the output archive"@,
        }
    }

    /// A short human-readable description of the error kind.
    pub fn message(&self) -> (r: &'static str)
        ensures
            r@ == self.spec_message(),
    {
        match self {
            ZipSeqError::InvalidArchive => "not a valid zip archive",
            ZipSeqError::EntryReadError => "could not read an archive entry",
            ZipSeqError::PayloadDecodeError => "could not decode a record payload",
            ZipSeqError::MalformedEncoding => "malformed binary sequence encoding",
            ZipSeqError::ConfigurationError => "a required configuration value is absent",
            ZipSeqError::IoError => "could not write the output archive",
        }
    }
}

} // verus!
