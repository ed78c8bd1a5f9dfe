use std::io::{Read, Write};

use browser_defrag::classify::is_sqlite3_header;
use browser_defrag::engine::compact_database;
use browser_defrag::errors::DefragError;
use browser_defrag::scan::scan_tree;

/// Create a small real database at `path`, with some churn in it.
fn create_database(path: &str) {
    let conn = sqlite::open(path).expect("create database");
    conn.execute("CREATE TABLE t (id INTEGER, body TEXT);").expect("create table");
    for i in 0..50 {
        conn.execute(format!("INSERT INTO t VALUES ({i}, 'row body {i}');")).expect("insert");
    }
    conn.execute("DELETE FROM t WHERE id % 2 = 0;").expect("delete");
}

#[test]
fn compacting_a_real_database_succeeds() {
    let dir = tempfile::tempdir().expect("scratch directory");
    let path = dir.path().join("scratch.sqlite");
    let path = path.to_str().expect("utf-8 path");
    create_database(path);
    assert_eq!(compact_database(path), Ok(()));
    // the engine can still open and read the compacted file
    let conn = sqlite::open(path).expect("reopen");
    conn.execute("SELECT count(*) FROM t;").expect("query");
}

#[test]
fn compacting_garbage_reports_a_compaction_error() {
    let mut file = tempfile::NamedTempFile::new().expect("scratch file");
    file.write_all(b"this is not a database file at all, not even close")
        .expect("write garbage");
    file.flush().expect("flush");
    let path = file.path().to_str().expect("utf-8 path").to_string();
    match compact_database(&path) {
        Err(DefragError::Compaction(_)) => {},
        other => panic!("expected a compaction error, got {other:?}"),
    }
}

#[test]
fn a_real_database_file_carries_the_signature() {
    // an empty pre-made file that the engine initialises as a database
    let file = tempfile::NamedTempFile::new().expect("scratch file");
    let path = file.path().to_str().expect("utf-8 path").to_string();
    create_database(&path);
    let mut header = Vec::new();
    file.reopen().expect("reopen").take(16).read_to_end(&mut header).expect("read header");
    assert!(is_sqlite3_header(&header));
}

#[test]
fn scan_tree_respects_the_depth_bound_and_skips_directories() {
    let root = tempfile::tempdir().expect("root");
    let sub = tempfile::tempdir_in(root.path()).expect("subdir");
    let shallow = tempfile::NamedTempFile::new_in(root.path()).expect("shallow file");
    let deep = tempfile::NamedTempFile::new_in(sub.path()).expect("deep file");

    let root_str = root.path().to_str().expect("utf-8").to_string();
    let shallow_str = shallow.path().to_str().expect("utf-8").to_string();
    let deep_str = deep.path().to_str().expect("utf-8").to_string();

    let at_zero = scan_tree(&root_str, 0);
    assert!(at_zero.is_empty(), "the root is a directory, not a file");

    let at_one = scan_tree(&root_str, 1);
    let paths1: Vec<&str> = at_one.iter().map(|e| e.path.as_str()).collect();
    assert!(paths1.contains(&shallow_str.as_str()));
    assert!(!paths1.contains(&deep_str.as_str()));
    assert!(!paths1.contains(&root_str.as_str()));

    let at_two = scan_tree(&root_str, 2);
    let paths2: Vec<&str> = at_two.iter().map(|e| e.path.as_str()).collect();
    assert!(paths2.contains(&shallow_str.as_str()));
    assert!(paths2.contains(&deep_str.as_str()));
    for e in &at_two {
        assert!(e.depth <= 2);
        assert!(e.is_file);
    }
}
