use vstd::prelude::*;

use crate::errors::DefragError;
use crate::registry::{Browser, Database};
use crate::text::{contains_ci, spec_contains_ci};

verus! {

// ---------------------------------------------------------------------------
// Liveness check
// ---------------------------------------------------------------------------

/// Some running process's name contains the browser's name, without regard
/// to ASCII case.
pub open spec fn spec_any_running(names: Seq<String>, browser: Seq<char>) -> bool {
    exists|i: int| 0 <= i < names.len() && spec_contains_ci((#[trigger] names[i])@, browser)
}

/// Whether any of the process names matches the browser's name.
pub fn browser_is_running(process_names: &Vec<String>, browser_name: &str) -> (r: bool)
    ensures
        r == spec_any_running(process_names@, browser_name@),
{
    let mut i: usize = 0;
    while i < process_names.len()
        invariant
            i <= process_names.len(),
            forall|j: int|
                0 <= j < i ==> !spec_contains_ci((#[trigger] process_names@[j])@, browser_name@),
        decreases process_names.len() - i,
    {
        if contains_ci(process_names[i].as_str(), browser_name) {
            return true;
        }
        i += 1;
    }
    false
}

#[verifier::external_type_specification]
#[verifier::external_body]
pub struct ExSystem(sysinfo::System);

/// Relies on `sysinfo::System::new`: an empty snapshot of the machine,
/// to be refreshed before use.
#[verifier::external_body]
fn system_new() -> (s: sysinfo::System) {
    sysinfo::System::new()
}

/// Relies on `sysinfo::System::refresh_processes`: fills the snapshot's
/// process list from the machine's process table.
#[verifier::external_body]
fn system_refresh_processes(sys: &mut sysinfo::System) {
    let _ = sys.refresh_processes(sysinfo::ProcessesToUpdate::All, true);
}

/// Relies on `sysinfo::System::processes` and `sysinfo::Process::name`:
/// the names of the processes in the snapshot, in no particular order.
#[verifier::external_body]
fn system_process_names(sys: &sysinfo::System) -> (names: Vec<String>) {
    sys.processes().values().map(|p| p.name().to_string_lossy().into_owned()).collect()
}

/// The names of the processes running now. What comes back depends on the
/// machine at this moment, so nothing is promised of it; the liveness
/// decision takes the list as an argument and is exact for every value.
pub fn running_process_names() -> Vec<String> {
    let mut sys = system_new();
    system_refresh_processes(&mut sys);
    system_process_names(&sys)
}

/// The checks that precede any compaction: unless this is a dry run, no
/// running process's name may contain the browser's name; and the browser
/// must have a resolved profile list. Exactly the liveness guard fails with
/// `BrowserRunning`, exactly a missing profile list with `NoProfiles`.
pub fn begin_defrag(browser: &Browser, process_names: &Vec<String>, dry_run: bool) -> (r: Result<
    (),
    DefragError,
>)
    ensures
        !dry_run && spec_any_running(process_names@, browser.name@) ==> (r matches Err(e) && e
            == DefragError::BrowserRunning(browser.name)),
        !(!dry_run && spec_any_running(process_names@, browser.name@))
            && browser.database_lists is None ==> r == Err::<(), DefragError>(
            DefragError::NoProfiles,
        ),
        !(!dry_run && spec_any_running(process_names@, browser.name@))
            && browser.database_lists is Some ==> r is Ok,
{
    if !dry_run {
        if browser_is_running(process_names, browser.name.as_str()) {
            return Err(DefragError::BrowserRunning(browser.name.clone()));
        }
    }
    if browser.database_lists.is_none() {
        return Err(DefragError::NoProfiles);
    }
    Ok(())
}

// ---------------------------------------------------------------------------
// The per-database defragmentation machine
//
// Compaction interleaves decisions with work on the world: reading the
// file's size, copying it to a scratch location, running the maintenance
// statements, copying the scratch back. The decisions are this machine; the
// caller performs each returned action and feeds the outcome back as the
// next event. The safety rules are the machine's contract: a dry run ends
// at the first measurement; the scratch copy replaces the original only
// when it came out strictly smaller; a failure keeps whatever was measured
// and marks nothing defragmented.
// ---------------------------------------------------------------------------

/// What the machine asks its caller to do next.
#[derive(Debug, PartialEq, Eq, Structural, Clone, Copy)]
pub enum DefragAction {
    /// Report the original file's length, or that it is gone.
    StatFile,
    /// Copy the original to a scratch location, compact the copy there,
    /// and report the copy's resulting length.
    CompactToScratch,
    /// Copy the scratch file over the original.
    ReplaceFromScratch,
}

/// What the caller reports back.
#[derive(Debug)]
pub enum DefragEvent {
    /// The original's length, `None` when the file is missing.
    Stat { size: Option<u64> },
    /// The scratch copy's length after compaction, or what went wrong.
    CompactionDone { result: Result<u64, DefragError> },
    /// Whether the original was replaced by the scratch copy.
    ReplacementDone { result: Result<(), DefragError> },
}

/// Where one database's defragmentation stands.
#[derive(Debug)]
pub enum DefragState {
    AwaitingStat { dry_run: bool },
    AwaitingCompaction { before: u64 },
    AwaitingReplacement { before: u64, scratch: u64 },
    Finished { before: u64, after: u64, defragmented: bool },
    Failed { before: Option<u64>, error: DefragError },
}

/// The machine's transition table. An event that does not belong to the
/// current state leaves it unchanged and asks for nothing.
pub open spec fn spec_defrag_step(s: DefragState, ev: DefragEvent) -> (
    DefragState,
    Option<DefragAction>,
) {
    match (s, ev) {
        (DefragState::AwaitingStat { dry_run: _ }, DefragEvent::Stat { size: None }) => (
            DefragState::Failed { before: None, error: DefragError::MissingFile },
            None,
        ),
        (DefragState::AwaitingStat { dry_run: true }, DefragEvent::Stat { size: Some(sz) }) => (
            DefragState::Finished { before: sz, after: sz, defragmented: false },
            None,
        ),
        (DefragState::AwaitingStat { dry_run: false }, DefragEvent::Stat { size: Some(sz) }) => (
            DefragState::AwaitingCompaction { before: sz },
            Some(DefragAction::CompactToScratch),
        ),
        (
            DefragState::AwaitingCompaction { before },
            DefragEvent::CompactionDone { result: Ok(scratch) },
        ) => if scratch < before {
            (
                DefragState::AwaitingReplacement { before, scratch },
                Some(DefragAction::ReplaceFromScratch),
            )
        } else {
            (DefragState::Finished { before, after: before, defragmented: true }, None)
        },
        (
            DefragState::AwaitingCompaction { before },
            DefragEvent::CompactionDone { result: Err(e) },
        ) => (DefragState::Failed { before: Some(before), error: e }, None),
        (
            DefragState::AwaitingReplacement { before, scratch },
            DefragEvent::ReplacementDone { result: Ok(()) },
        ) => (DefragState::Finished { before, after: scratch, defragmented: true }, None),
        (
            DefragState::AwaitingReplacement { before, scratch: _ },
            DefragEvent::ReplacementDone { result: Err(e) },
        ) => (DefragState::Failed { before: Some(before), error: e }, None),
        (other, _) => (other, None),
    }
}

impl DefragState {
    /// Where one database's run begins; the first thing to do is to
    /// measure the original file.
    pub fn start(dry_run: bool) -> (r: (DefragState, DefragAction))
        ensures
            r.0 == (DefragState::AwaitingStat { dry_run }),
            r.1 == DefragAction::StatFile,
    {
        (DefragState::AwaitingStat { dry_run }, DefragAction::StatFile)
    }

    /// A run that has come to its end, well or badly.
    pub open spec fn is_terminal(self) -> bool {
        self is Finished || self is Failed
    }
}

/// Take one step of the machine.
pub fn defrag_step(state: DefragState, event: DefragEvent) -> (r: (
    DefragState,
    Option<DefragAction>,
))
    ensures
        r == spec_defrag_step(state, event),
{
    match (state, event) {
        (DefragState::AwaitingStat { dry_run: _ }, DefragEvent::Stat { size: None }) => (
            DefragState::Failed { before: None, error: DefragError::MissingFile },
            None,
        ),
        (DefragState::AwaitingStat { dry_run: true }, DefragEvent::Stat { size: Some(sz) }) => (
            DefragState::Finished { before: sz, after: sz, defragmented: false },
            None,
        ),
        (DefragState::AwaitingStat { dry_run: false }, DefragEvent::Stat { size: Some(sz) }) => (
            DefragState::AwaitingCompaction { before: sz },
            Some(DefragAction::CompactToScratch),
        ),
        (
            DefragState::AwaitingCompaction { before },
            DefragEvent::CompactionDone { result: Ok(scratch) },
        ) => {
            if scratch < before {
                (
                    DefragState::AwaitingReplacement { before, scratch },
                    Some(DefragAction::ReplaceFromScratch),
                )
            } else {
                (DefragState::Finished { before, after: before, defragmented: true }, None)
            }
        },
        (
            DefragState::AwaitingCompaction { before },
            DefragEvent::CompactionDone { result: Err(e) },
        ) => (DefragState::Failed { before: Some(before), error: e }, None),
        (
            DefragState::AwaitingReplacement { before, scratch },
            DefragEvent::ReplacementDone { result: Ok(()) },
        ) => (DefragState::Finished { before, after: scratch, defragmented: true }, None),
        (
            DefragState::AwaitingReplacement { before, scratch: _ },
            DefragEvent::ReplacementDone { result: Err(e) },
        ) => (DefragState::Failed { before: Some(before), error: e }, None),
        (other, _) => (other, None),
    }
}

/// Write a finished run into the database record: the measured sizes and
/// whether the full compaction cycle went through. A failed run keeps the
/// size measured before it failed and marks nothing defragmented; a state
/// that is not terminal changes nothing. The record's invariant holds
/// afterwards whenever it held before.
pub fn record_outcome(db: &mut Database, state: &DefragState)
    ensures
        final(db).path == old(db).path,
        match *state {
            DefragState::Finished { before, after, defragmented } => {
                &&& final(db).size_before == Some(before)
                &&& final(db).size_after == Some(after)
                &&& final(db).defrag == defragmented
            },
            DefragState::Failed { before, error: _ } => {
                &&& final(db).size_before == before
                &&& final(db).size_after is None
                &&& !final(db).defrag
            },
            _ => *final(db) == *old(db),
        },
        state.is_terminal() ==> final(db).wf(),
{
    match state {
        DefragState::Finished { before, after, defragmented } => {
            db.size_before = Some(*before);
            db.size_after = Some(*after);
            db.defrag = *defragmented;
        },
        DefragState::Failed { before, error: _ } => {
            db.size_before = *before;
            db.size_after = None;
            db.defrag = false;
        },
        _ => {},
    }
}

// ---------------------------------------------------------------------------
// The machine's safety laws
// ---------------------------------------------------------------------------

/// The states a dry run can be in: it awaits only the measurement, and
/// when it finishes, the recorded after-size equals the before-size and
/// nothing is marked defragmented.
pub open spec fn spec_dry_protocol(s: DefragState) -> bool {
    match s {
        DefragState::AwaitingStat { dry_run } => dry_run,
        DefragState::Finished { before, after, defragmented } => after == before && !defragmented,
        DefragState::Failed { .. } => true,
        _ => false,
    }
}

/// Dry-run idempotence: from any state a dry run can reach, the machine
/// never asks for a compaction or a replacement — the file is never
/// touched — and every state it reaches is again such a state; in
/// particular a finished dry run reports `after == before` and
/// `defragmented == false`.
pub proof fn lemma_dry_run_never_mutates(s: DefragState, ev: DefragEvent)
    requires
        spec_dry_protocol(s),
    ensures
        spec_dry_protocol(spec_defrag_step(s, ev).0),
        spec_defrag_step(s, ev).1 is None,
{
}

/// A vacuum that does not shrink: when the compacted scratch copy is not
/// strictly smaller than the original, the machine never asks for a
/// replacement and finishes with `after == before`.
pub proof fn lemma_no_shrink_no_replace(before: u64, scratch: u64, e: DefragEvent)
    requires
        scratch >= before,
        e == (DefragEvent::CompactionDone { result: Ok::<u64, DefragError>(scratch) }),
    ensures
        spec_defrag_step(DefragState::AwaitingCompaction { before }, e) == (
            DefragState::Finished { before, after: before, defragmented: true },
            None::<DefragAction>,
        ),
{
}

/// A vacuum that shrinks: when the scratch copy is strictly smaller, the
/// machine asks for the replacement, and once the replacement is done it
/// finishes with the scratch copy's length as the after-size and the
/// database marked defragmented.
pub proof fn lemma_shrink_replaces(before: u64, scratch: u64)
    requires
        scratch < before,
    ensures
        spec_defrag_step(
            DefragState::AwaitingCompaction { before },
            DefragEvent::CompactionDone { result: Ok::<u64, DefragError>(scratch) },
        ) == (
            DefragState::AwaitingReplacement { before, scratch },
            Some(DefragAction::ReplaceFromScratch),
        ),
        spec_defrag_step(
            DefragState::AwaitingReplacement { before, scratch },
            DefragEvent::ReplacementDone { result: Ok::<(), DefragError>(()) },
        ) == (
            DefragState::Finished { before, after: scratch, defragmented: true },
            None::<DefragAction>,
        ),
{
}

// ---------------------------------------------------------------------------
// The compaction statements
// ---------------------------------------------------------------------------

#[verifier::external_type_specification]
#[verifier::external_body]
pub struct ExConnection(sqlite::Connection);

#[verifier::external_type_specification]
#[verifier::external_body]
pub struct ExSqliteError(sqlite::Error);

/// Relies on `sqlite::open`: opens the database file at `path` (creating
/// it when absent), or reports the engine's error.
#[verifier::external_body]
fn sqlite_open(path: &str) -> (r: Result<sqlite::Connection, sqlite::Error>) {
    sqlite::open(path)
}

/// Relies on `sqlite::Connection::execute`: runs the SQL statement against
/// the open database, `Err` when the engine refuses it.
#[verifier::external_body]
fn sqlite_execute(conn: &sqlite::Connection, statement: &str) -> (r: Result<(), sqlite::Error>) {
    conn.execute(statement)
}

/// Relies on the public `message` field of `sqlite::Error`: the engine's
/// message, empty when the engine gave none.
#[verifier::external_body]
fn sqlite_error_message(e: &sqlite::Error) -> (r: String) {
    e.message.clone().unwrap_or_default()
}

/// Run the two maintenance statements, `VACUUM` then `REINDEX`, against
/// the database file at `path` — normally the scratch copy, never the
/// original. Whether they succeed depends on the file and the engine;
/// every failure comes back as a compaction error carrying the engine's
/// message.
pub fn compact_database(path: &str) -> (r: Result<(), DefragError>)
    ensures
        r matches Err(e) ==> e is Compaction,
{
    let conn = match sqlite_open(path) {
        Ok(c) => c,
        Err(e) => {
            return Err(DefragError::Compaction(sqlite_error_message(&e)));
        },
    };
    match sqlite_execute(&conn, "VACUUM;") {
        Ok(()) => {},
        Err(e) => {
            return Err(DefragError::Compaction(sqlite_error_message(&e)));
        },
    }
    match sqlite_execute(&conn, "REINDEX;") {
        Ok(()) => {},
        Err(e) => {
            return Err(DefragError::Compaction(sqlite_error_message(&e)));
        },
    }
    Ok(())
}

} // verus!
