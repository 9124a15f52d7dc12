//! Failure taxonomy for the extraction engine.

use vstd::prelude::*;

verus! {

/// Which optional PE directory was present but structurally broken.
#[derive(Clone, Copy, Debug, PartialEq, Eq, Structural)]
pub enum DirectoryKind {
    Import,
    Resource,
    Tls,
}

/// Everything that can go wrong while extracting a report.
///
/// The taxonomy distinguishes "wrong kind of file" (`UnsupportedFileType`)
/// from "right kind of file but structurally damaged" (the remaining kinds).
#[derive(Clone, Debug, PartialEq, Eq)]
pub enum Error {
    /// The input path does not name a file; no byte was read.
    FileNotFound,
    /// The buffer starts with neither a PE nor an ELF identification.
    UnsupportedFileType,
    /// The ELF class field holds neither the 32-bit nor the 64-bit value.
    InvalidIdentifier,
    /// The ELF byte-order field holds neither the little- nor big-endian value.
    InvalidEndianness,
    /// A directory is present but structurally broken.
    MalformedDirectory(DirectoryKind),
    /// An attribute certificate did not decode as an Authenticode signature.
    SignatureDecodeError,
    /// Reading the file failed; the message comes from the reading layer.
    IoError(String),
    /// The primitive container decoder rejected the buffer; its message.
    GoblinError(String),
    /// An addressing sanity check failed.
    Bounds,
    /// An arithmetic bound would be exceeded.
    Overflow,
    /// Text expected to be UTF-8 was not.
    Encoding,
}

} // verus!
