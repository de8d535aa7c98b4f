//! What is recorded beside each stored file.
use vstd::prelude::*;

verus! {

/// A moment in UTC, as seconds and nanoseconds since the Unix epoch.
#[derive(Debug, Clone, Copy, PartialEq, Eq)]
pub struct Timestamp {
    pub secs: i64,
    pub nanos: u32,
}

/// The record kept beside a stored file.
#[derive(Debug, PartialEq, Eq)]
pub struct Metadata {
    /// The file name the uploader gave, without its extension.
    pub name: String,
    /// The extension the file is stored under (may be empty).
    pub ext: String,
    /// The size of the stored file in bytes.
    pub size_bytes: u64,
    /// When the file was uploaded.
    pub creation: Timestamp,
}

} // verus!
