//! Locates, downloads and unpacks browser binaries and their matching
//! WebDriver executables, so that automation clients can find a working
//! (browser, driver) pair without manual setup.
//!
//! The crate holds the resolution and acquisition logic: platform-aware
//! download-URL derivation, archive extraction planning (zip and gzip-tar,
//! with permission bits and path-traversal guarding), local discovery of
//! already-installed browsers, and the orchestration that ties them
//! together. All I/O (network transfers, filesystem writes, probing the
//! executable search path) is performed by the surrounding application,
//! which hands the results to these functions as plain values.

pub mod acquire;
pub mod archive;
pub mod browser;
pub mod discovery;
pub mod errors;
pub mod platform;
pub mod strutil;
pub mod urls;
pub mod version;

pub use discovery::find_browser_for;
pub use urls::parse_for_url;
