//! A fast alternative to `symchk` for generating symbol-server manifests
//! from PE executables, plus the decision logic of a bounded-concurrency
//! symbol fetcher.

use vstd::prelude::*;

pub mod codeview;
pub mod fetch;
pub mod hexfmt;
pub mod manifest;
pub mod pe;
pub mod reader;
pub mod srv;
pub mod strutil;

verus! {

/// Errors produced while parsing a PE image and extracting its debug
/// identity.  Every variant is recoverable at single-file granularity:
/// a file that fails to parse is skipped when building a manifest.
#[derive(Clone, Copy, PartialEq, Eq, Structural, Debug)]
pub enum FormatError {
    /// Fewer bytes were available than a fixed-size record required.
    TruncatedRead,
    /// The MZ signature was missing.
    NotAnExecutable,
    /// The PE signature was missing.
    NotAPeFile,
    /// The machine field named an unsupported architecture.
    UnsupportedMachine,
    /// The data-directory table had no usable debug entry.
    MissingDebugDirectory,
    /// The debug directory size was zero entries or not a whole number
    /// of entries, or an entry declared less data than a CodeView header.
    MalformedDebugTable,
    /// No section's raw range contained the debug directory.
    DebugDirectoryUnmapped,
    /// No CodeView entry was present in the debug directory.
    NoCodeViewEntry,
    /// The CodeView record did not carry the RSDS magic.
    InvalidCodeViewSignature,
    /// The CodeView path string carried no NUL terminator.
    MissingNulTerminator,
    /// The CodeView path string was not valid UTF-8.
    InvalidPathEncoding,
    /// The CodeView path string had no file-name component.
    UnparsablePath,
}

/// Errors fatal to a whole fetch run: they point at a bad configuration
/// or a corrupted manifest, not at a single file.
#[derive(Clone, Copy, PartialEq, Eq, Structural, Debug)]
pub enum ProtocolError {
    /// The symbol-server path was not of the `SRV*local*remote` form.
    UnsupportedSpecForm,
    /// The symbol-server path held more than one `;`-separated server.
    MultiServerUnsupported,
    /// A manifest line did not split into exactly three comma fields.
    MalformedManifestLine,
}

} // verus!
