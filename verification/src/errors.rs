use vstd::prelude::*;

verus! {

/// The ways a discovery or defragmentation run can fail.
///
/// `Resolution` covers a profile root that cannot be determined or a missing
/// manifest; `BrowserRunning` is the liveness guard refusing to compact while
/// the browser itself may hold the files open; `NoProfiles` means defrag was
/// asked to run before any profile was resolved; `MissingFile` means a
/// database vanished between discovery and defrag; `Compaction` wraps the
/// database engine's own failure message; `Io` wraps a copy or metadata
/// failure.
#[derive(Debug, Clone, PartialEq, Eq)]
pub enum DefragError {
    Resolution(String),
    BrowserRunning(String),
    NoProfiles,
    MissingFile,
    Compaction(String),
    Io(String),
}

} // verus!
