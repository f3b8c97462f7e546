//! What the resource classifier reports about a sanitized path: an existing
//! file, an existing directory (with its direct children), or nothing.
//!
//! Descriptors are produced fresh per request and never cached.

use vstd::prelude::*;

verus! {

/// A filesystem modification time: seconds and subsecond nanoseconds since
/// the Unix epoch.
#[derive(Clone, Copy)]
pub struct Timestamp {
    pub secs: i64,
    pub nanos: u32,
}

impl Timestamp {
    /// A time this server can render: between the Unix epoch and the end of
    /// year 9999, with in-range nanoseconds.
    pub open spec fn valid(self) -> bool {
        &&& 0 <= self.secs <= 253_402_300_799
        &&& self.nanos < 1_000_000_000
    }
}

/// One direct child of a listed directory.
pub struct DirEntryInfo {
    pub name: String,
    pub is_dir: bool,
    pub modified: Timestamp,
}

/// The classifier's verdict on a path: what exists there, with the minimum
/// metadata a decision needs. Directory entries are the direct children
/// only, in filesystem enumeration order.
pub enum ResourceDescriptor {
    File { size: u64, modified: Timestamp },
    Directory { entries: Vec<DirEntryInfo> },
    Missing,
}

} // verus!
