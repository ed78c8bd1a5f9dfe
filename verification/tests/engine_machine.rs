use browser_defrag::engine::{
    begin_defrag, browser_is_running, defrag_step, record_outcome, DefragAction, DefragEvent,
    DefragState,
};
use browser_defrag::errors::DefragError;
use browser_defrag::registry::{Browser, Config, Database, Profile};
use browser_defrag::resolve::list_db;
use browser_defrag::scan::FileCandidate;

const SIGNATURE: &[u8; 16] = b"SQLite format 3\0";

fn run_machine(db: &mut Database, dry_run: bool, events: Vec<DefragEvent>) -> Vec<DefragAction> {
    let (mut state, first) = DefragState::start(dry_run);
    let mut actions = vec![first];
    for ev in events {
        let (next, action) = defrag_step(state, ev);
        state = next;
        if let Some(a) = action {
            actions.push(a);
        }
    }
    record_outcome(db, &state);
    actions
}

#[test]
fn dry_run_measures_and_touches_nothing() {
    let mut db = Database::new("/p/places.sqlite");
    let actions = run_machine(&mut db, true, vec![DefragEvent::Stat { size: Some(4096) }]);
    assert_eq!(actions, vec![DefragAction::StatFile]);
    assert_eq!(db.size_before, Some(4096));
    assert_eq!(db.size_after, Some(4096));
    assert!(!db.defrag);
}

#[test]
fn missing_file_fails_before_any_measurement() {
    let mut db = Database::new("/p/gone.sqlite");
    let actions = run_machine(&mut db, false, vec![DefragEvent::Stat { size: None }]);
    assert_eq!(actions, vec![DefragAction::StatFile]);
    assert_eq!(db.size_before, None);
    assert_eq!(db.size_after, None);
    assert!(!db.defrag);
}

#[test]
fn non_shrinking_vacuum_does_not_replace() {
    let mut db = Database::new("/p/cookies.sqlite");
    let actions = run_machine(
        &mut db,
        false,
        vec![
            DefragEvent::Stat { size: Some(4096) },
            DefragEvent::CompactionDone { result: Ok(4096) },
        ],
    );
    // no replacement was ever asked for
    assert_eq!(actions, vec![DefragAction::StatFile, DefragAction::CompactToScratch]);
    assert_eq!(db.size_before, Some(4096));
    assert_eq!(db.size_after, Some(4096));
    assert!(db.defrag);
}

#[test]
fn shrinking_vacuum_replaces_and_records_the_scratch_size() {
    let mut db = Database::new("/p/places.sqlite");
    let actions = run_machine(
        &mut db,
        false,
        vec![
            DefragEvent::Stat { size: Some(10_000_000) },
            DefragEvent::CompactionDone { result: Ok(6_500_000) },
            DefragEvent::ReplacementDone { result: Ok(()) },
        ],
    );
    assert_eq!(
        actions,
        vec![
            DefragAction::StatFile,
            DefragAction::CompactToScratch,
            DefragAction::ReplaceFromScratch,
        ],
    );
    assert_eq!(db.size_before, Some(10_000_000));
    assert_eq!(db.size_after, Some(6_500_000));
    assert!(db.defrag);
}

#[test]
fn failed_compaction_keeps_the_measured_size_only() {
    let mut db = Database::new("/p/broken.sqlite");
    let actions = run_machine(
        &mut db,
        false,
        vec![
            DefragEvent::Stat { size: Some(8192) },
            DefragEvent::CompactionDone {
                result: Err(DefragError::Compaction("file is not a database".to_string())),
            },
        ],
    );
    assert_eq!(actions, vec![DefragAction::StatFile, DefragAction::CompactToScratch]);
    assert_eq!(db.size_before, Some(8192));
    assert_eq!(db.size_after, None);
    assert!(!db.defrag);
}

#[test]
fn an_unfinished_run_records_nothing() {
    let mut db = Database::new("/p/places.sqlite");
    record_outcome(&mut db, &DefragState::AwaitingCompaction { before: 4096 });
    assert_eq!(db, Database::new("/p/places.sqlite"));
}

#[test]
fn a_mismatched_event_changes_nothing_and_asks_nothing() {
    let (state, action) = defrag_step(
        DefragState::AwaitingStat { dry_run: true },
        DefragEvent::ReplacementDone { result: Ok(()) },
    );
    assert!(matches!(state, DefragState::AwaitingStat { dry_run: true }));
    assert!(action.is_none());
}

#[test]
fn liveness_guard_matches_names_case_insensitively() {
    let names = vec!["bash".to_string(), "FireFox-bin".to_string()];
    assert!(browser_is_running(&names, "firefox"));
    assert!(browser_is_running(&names, "Firefox"));
    assert!(!browser_is_running(&names, "chromium"));
    assert!(!browser_is_running(&Vec::new(), "firefox"));
}

#[test]
fn running_browser_refuses_to_defrag() {
    let browser = Browser {
        name: "Firefox".to_string(),
        database_lists: Some(vec![]),
    };
    let names = vec!["firefox".to_string()];
    assert_eq!(
        begin_defrag(&browser, &names, false),
        Err(DefragError::BrowserRunning("Firefox".to_string())),
    );
    // a dry run skips the liveness check
    assert_eq!(begin_defrag(&browser, &names, true), Ok(()));
}

#[test]
fn missing_profile_list_refuses_to_defrag() {
    let browser = Browser::new("Chromium");
    assert_eq!(begin_defrag(&browser, &Vec::new(), false), Err(DefragError::NoProfiles));
}

#[test]
fn list_databases_stores_the_resolver_result() {
    let mut browser = Browser::new("Chromium");
    let config = Config { max_depth: 2, profile_path: None };
    let listing = |_c: Config| -> Result<Vec<Profile>, DefragError> {
        Ok(vec![Profile { name: String::new(), path: "/cfg/chromium".to_string(), databases: None }])
    };
    assert_eq!(browser.list_databases(listing, config), Ok(()));
    let lists = browser.database_lists.expect("profiles were stored");
    assert_eq!(lists.len(), 1);
    assert_eq!(lists[0].path, "/cfg/chromium");
}

#[test]
fn list_databases_propagates_the_resolver_error() {
    let mut browser = Browser::new("Firefox");
    let config = Config { max_depth: 2, profile_path: None };
    let failing = |_c: Config| -> Result<Vec<Profile>, DefragError> {
        Err(DefragError::Resolution("no home directory".to_string()))
    };
    assert_eq!(
        browser.list_databases(failing, config),
        Err(DefragError::Resolution("no home directory".to_string())),
    );
    assert!(browser.database_lists.is_none());
}

#[test]
fn end_to_end_profile_compaction() {
    // a profile directory holding a fragmented places.sqlite, an already
    // compact cookies.sqlite, and a cache.tmp of garbage bytes
    let candidates = vec![
        FileCandidate {
            path: "/prof/places.sqlite".to_string(),
            depth: 1,
            is_file: true,
            header: SIGNATURE.to_vec(),
        },
        FileCandidate {
            path: "/prof/cookies.sqlite".to_string(),
            depth: 1,
            is_file: true,
            header: SIGNATURE.to_vec(),
        },
        FileCandidate {
            path: "/prof/cache.tmp".to_string(),
            depth: 1,
            is_file: true,
            header: b"not a database!!".to_vec(),
        },
    ];
    let config = Config { max_depth: 2, profile_path: Some("/prof".to_string()) };
    let mut browser = Browser::new("Unknown");
    browser
        .list_databases(|c: Config| list_db(c, &candidates), config)
        .expect("discovery succeeds");

    let mut lists = browser.database_lists.take().expect("profiles resolved");
    assert_eq!(lists.len(), 1);
    let dbs = lists[0].databases.as_mut().expect("databases discovered");
    // cache.tmp was filtered out at discovery
    assert_eq!(dbs.len(), 2);
    assert_eq!(dbs[0].path, "/prof/places.sqlite");
    assert_eq!(dbs[1].path, "/prof/cookies.sqlite");

    // places.sqlite: highly fragmented, the scratch copy comes out smaller
    run_machine(
        &mut dbs[0],
        false,
        vec![
            DefragEvent::Stat { size: Some(10_000_000) },
            DefragEvent::CompactionDone { result: Ok(7_200_000) },
            DefragEvent::ReplacementDone { result: Ok(()) },
        ],
    );
    // cookies.sqlite: already compact, no shrink, no replacement
    run_machine(
        &mut dbs[1],
        false,
        vec![
            DefragEvent::Stat { size: Some(4096) },
            DefragEvent::CompactionDone { result: Ok(4096) },
        ],
    );

    assert!(dbs[0].defrag);
    assert!(dbs[0].size_after.unwrap() < dbs[0].size_before.unwrap());
    assert!(dbs[1].defrag);
    assert_eq!(dbs[1].size_after, dbs[1].size_before);
}
