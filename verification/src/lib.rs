//! Discovery and in-place compaction of browser profile databases.
//!
//! The library finds the SQLite files of a browser's profiles — under a
//! fixed configuration root, by parsing a `profiles.ini` manifest, or at an
//! explicitly given path — and compacts each one through a
//! copy-vacuum-reindex-conditional-replace cycle, recording before and
//! after sizes. Everything that decides — the file classifier, the
//! scanner's filter, the manifest grammar, path resolution, the liveness
//! guard, and the defragmentation state machine — is specified and verified
//! here; the surrounding process (command line, environment, file handles)
//! stays in the accompanying binary and only hands plain values in and out.

pub mod args;
pub mod classify;
pub mod errors;
pub mod registry;
pub mod text;
pub mod ini;
pub mod scan;
pub mod resolve;
pub mod engine;
