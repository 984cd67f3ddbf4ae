//! Verified core of a Ruby runtime version manager.
//!
//! The library answers "which installed interpreter satisfies a version
//! request" by combining two data sources: locally discovered installations
//! and a remotely published release catalog.  It holds the pure, verified
//! parts: version parsing and ordering, asset-name decoding, the
//! merge/deduplication of installed and available interpreters, cache-key
//! derivation and cache-entry validation, and the decision logic of the
//! conditional catalog fetch.  Filesystem and network access live outside
//! the library and hand plain values in.

pub mod asset;
pub mod catalog;
pub mod chars;
pub mod config;
pub mod list;
pub mod platform;
pub mod resolve;
pub mod ruby;
pub mod ruby_cache;
pub mod scan;
pub mod version;
