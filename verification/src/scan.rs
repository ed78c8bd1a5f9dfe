use vstd::prelude::*;

use crate::classify::{is_sqlite3_header, spec_is_sqlite3_header};

verus! {

/// One entry met while walking a directory tree: its path, its depth below
/// the walk's root (the root itself has depth zero), and whether it is a
/// regular file.
#[derive(Debug)]
pub struct ScanEntry {
    pub path: String,
    pub depth: usize,
    pub is_file: bool,
}

/// A scan entry together with the first bytes of the file (at most 16 are
/// needed), read by the caller.
#[derive(Debug)]
pub struct FileCandidate {
    pub path: String,
    pub depth: usize,
    pub is_file: bool,
    pub header: Vec<u8>,
}

/// A candidate passes the scanner's filter when it lies within the depth
/// bound, is a regular file, and its leading bytes carry the database
/// signature.
pub open spec fn spec_candidate_ok(c: FileCandidate, max_depth: int) -> bool {
    c.depth <= max_depth && c.is_file && spec_is_sqlite3_header(c.header@)
}

/// The paths of the candidates that pass the filter, in order.
pub open spec fn spec_db_files(cands: Seq<FileCandidate>, max_depth: int) -> Seq<Seq<char>>
    decreases cands.len(),
{
    if cands.len() == 0 {
        Seq::empty()
    } else if spec_candidate_ok(cands.last(), max_depth) {
        spec_db_files(cands.drop_last(), max_depth).push(cands.last().path@)
    } else {
        spec_db_files(cands.drop_last(), max_depth)
    }
}

/// Every path the filter returns is the path of some candidate that passed
/// it: nothing deeper than the bound, no directory, and nothing without the
/// database signature is ever returned.
pub proof fn lemma_db_files_sound(cands: Seq<FileCandidate>, max_depth: int)
    ensures
        forall|j: int|
            0 <= j < spec_db_files(cands, max_depth).len() ==> exists|i: int|
                0 <= i < cands.len() && spec_candidate_ok(#[trigger] cands[i], max_depth)
                    && #[trigger] spec_db_files(cands, max_depth)[j] == cands[i].path@,
    decreases cands.len(),
{
    if cands.len() > 0 {
        lemma_db_files_sound(cands.drop_last(), max_depth);
        let prev = spec_db_files(cands.drop_last(), max_depth);
        let cur = spec_db_files(cands, max_depth);
        assert forall|j: int| 0 <= j < cur.len() implies exists|i: int|
            0 <= i < cands.len() && spec_candidate_ok(#[trigger] cands[i], max_depth)
                && #[trigger] cur[j] == cands[i].path@ by {
            if j < prev.len() {
                let i = choose|i: int|
                    0 <= i < cands.drop_last().len() && spec_candidate_ok(
                        #[trigger] cands.drop_last()[i],
                        max_depth,
                    ) && prev[j] == cands.drop_last()[i].path@;
                assert(cands.drop_last()[i] == cands[i]);
                assert(spec_candidate_ok(cands[i], max_depth) && cur[j] == cands[i].path@);
            } else {
                let i = cands.len() - 1;
                assert(spec_candidate_ok(cands[i], max_depth) && cur[j] == cands[i].path@);
            }
        }
    }
}

/// Relies on `walkdir::WalkDir`: walks `root` to at most `max_depth` levels
/// below it, reporting each entry's path, depth and file kind; entries that
/// cannot be read are left out. What comes back depends on the disk, so
/// nothing is promised of it; the callers re-establish every property they
/// need.
#[verifier::external_body]
fn walk_tree(root: &str, max_depth: usize) -> (r: Vec<ScanEntry>) {
    let mut out: Vec<ScanEntry> = Vec::new();
    let walker = walkdir::WalkDir::new(root).max_depth(max_depth);
    for entry in walker.into_iter().flatten() {
        out.push(ScanEntry {
            path: entry.path().to_string_lossy().into_owned(),
            depth: entry.depth(),
            is_file: entry.file_type().is_file(),
        });
    }
    out
}

/// Walk a directory tree, keeping only regular files within the depth
/// bound. The walk itself reads the disk; whatever it reported, every
/// entry handed back lies within `max_depth` and is a regular file.
pub fn scan_tree(root: &str, max_depth: usize) -> (r: Vec<ScanEntry>)
    ensures
        forall|i: int| 0 <= i < r@.len() ==> (#[trigger] r@[i]).depth <= max_depth && r@[i].is_file,
{
    let entries = walk_tree(root, max_depth);
    let mut out: Vec<ScanEntry> = Vec::new();
    let mut i: usize = 0;
    while i < entries.len()
        invariant
            forall|j: int|
                0 <= j < out@.len() ==> (#[trigger] out@[j]).depth <= max_depth && out@[j].is_file,
        decreases entries.len() - i,
    {
        let e = &entries[i];
        if e.is_file && e.depth <= max_depth {
            out.push(ScanEntry { path: e.path.clone(), depth: e.depth, is_file: e.is_file });
        }
        i += 1;
    }
    out
}

/// The directory scanner's filter: of the candidates read from a walk,
/// keep the paths of those within the depth bound that are regular files
/// opening with the database signature.
pub fn find_sqlite3_files(candidates: &Vec<FileCandidate>, max_depth: usize) -> (r: Vec<String>)
    ensures
        r@.map_values(|p: String| p@) == spec_db_files(candidates@, max_depth as int),
{
    let mut out: Vec<String> = Vec::new();
    proof {
        assert(out@.map_values(|p: String| p@) =~= spec_db_files(
            candidates@.subrange(0, 0),
            max_depth as int,
        ));
    }
    let mut i: usize = 0;
    while i < candidates.len()
        invariant
            i <= candidates.len(),
            out@.map_values(|p: String| p@) == spec_db_files(
                candidates@.subrange(0, i as int),
                max_depth as int,
            ),
        decreases candidates.len() - i,
    {
        let c = &candidates[i];
        proof {
            assert(candidates@.subrange(0, i + 1).drop_last() =~= candidates@.subrange(0, i as int));
            assert(candidates@.subrange(0, i + 1).last() == candidates@[i as int]);
        }
        if c.depth <= max_depth && c.is_file && is_sqlite3_header(&c.header) {
            out.push(c.path.clone());
        }
        proof {
            assert(out@.map_values(|p: String| p@) =~= spec_db_files(
                candidates@.subrange(0, i + 1),
                max_depth as int,
            ));
        }
        i += 1;
    }
    proof {
        assert(candidates@.subrange(0, candidates@.len() as int) =~= candidates@);
    }
    out
}

} // verus!
