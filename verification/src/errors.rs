//! Error taxonomy of the resolution and acquisition pipeline.

use vstd::prelude::*;

verus! {

/// Failures of the resolution pipeline: spec parsing, platform mapping and
/// download-URL derivation.
#[derive(Clone, Copy, Debug, PartialEq, Eq, Structural)]
pub enum ResolveError {
    /// The spec string holds no browser name (empty, or nothing before `@`).
    Parse,
    /// The requested name is neither the Firefox nor the Chrome identifier.
    UnsupportedBrowser,
    /// The operating-system name maps to no known platform.
    UnsupportedPlatform,
    /// The "latest version" lookup failed or returned an unusable value.
    UpstreamLookup,
}

/// Failures of archive extraction.
#[derive(Clone, Copy, Debug, PartialEq, Eq, Structural)]
pub enum ArchiveError {
    /// The archive path does not exist.
    NotFound,
    /// The bytes do not form a valid archive of the format the file name
    /// announces (gzip-compressed tar).
    UnsupportedFormat,
    /// The bytes do not form a valid zip archive.
    Other,
}

impl ResolveError {
    /// A short description, for callers that report errors as text.
    pub fn message(&self) -> (r: &'static str)
        ensures
            r@ == match *self {
                ResolveError::Parse => "empty browser name in spec"@,
                ResolveError::UnsupportedBrowser => "unsupported browser"@,
                ResolveError::UnsupportedPlatform => "unsupported platform"@,
                ResolveError::UpstreamLookup => "latest-version lookup failed"@,
            },
    {
        match *self {
            ResolveError::Parse => "empty browser name in spec",
            ResolveError::UnsupportedBrowser => "unsupported browser",
            ResolveError::UnsupportedPlatform => "unsupported platform",
            ResolveError::UpstreamLookup => "latest-version lookup failed",
        }
    }
}

impl ArchiveError {
    /// A short description, for callers that report errors as text.
    pub fn message(&self) -> (r: &'static str)
        ensures
            r@ == match *self {
                ArchiveError::NotFound => "archive not found"@,
                ArchiveError::UnsupportedFormat => "not a valid gzip-tar archive"@,
                ArchiveError::Other => "not a valid zip archive"@,
            },
    {
        match *self {
            ArchiveError::NotFound => "archive not found",
            ArchiveError::UnsupportedFormat => "not a valid gzip-tar archive",
            ArchiveError::Other => "not a valid zip archive",
        }
    }
}

} // verus!
