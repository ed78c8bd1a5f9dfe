use browser_defrag::classify::is_sqlite3_header;
use browser_defrag::scan::{find_sqlite3_files, FileCandidate};

const SIGNATURE: &[u8; 16] = b"SQLite format 3\0";

#[test]
fn exact_signature_classifies_true() {
    assert!(is_sqlite3_header(&SIGNATURE.to_vec()));
}

#[test]
fn signature_with_trailing_bytes_classifies_true() {
    let mut header = SIGNATURE.to_vec();
    header.extend_from_slice(&[0x10, 0x00, 0x01, 0x01]);
    assert!(is_sqlite3_header(&header));
}

#[test]
fn truncated_header_classifies_false() {
    assert!(!is_sqlite3_header(&SIGNATURE[..15].to_vec()));
    assert!(!is_sqlite3_header(&Vec::new()));
}

#[test]
fn other_content_classifies_false() {
    assert!(!is_sqlite3_header(&b"PostgreSQL look!".to_vec()));
    // one byte off: the final NUL replaced
    assert!(!is_sqlite3_header(&b"SQLite format 3!".to_vec()));
    // not valid UTF-8 at all
    assert!(!is_sqlite3_header(&vec![0xff; 16]));
    assert!(!is_sqlite3_header(&vec![0x00; 16]));
}

fn candidate(path: &str, depth: usize, is_file: bool, header: &[u8]) -> FileCandidate {
    FileCandidate { path: path.to_string(), depth, is_file, header: header.to_vec() }
}

#[test]
fn filter_keeps_only_classified_files_within_depth() {
    let cands = vec![
        candidate("/p/places.sqlite", 1, true, SIGNATURE),
        candidate("/p/too/deep.sqlite", 3, true, SIGNATURE),
        candidate("/p/subdir", 1, false, SIGNATURE),
        candidate("/p/cache.tmp", 1, true, b"garbage garbage!"),
        candidate("/p/cookies.sqlite", 2, true, SIGNATURE),
    ];
    let files = find_sqlite3_files(&cands, 2);
    assert_eq!(files, vec!["/p/places.sqlite".to_string(), "/p/cookies.sqlite".to_string()]);
}

#[test]
fn filter_of_nothing_is_empty() {
    assert_eq!(find_sqlite3_files(&Vec::new(), 5), Vec::<String>::new());
}

#[test]
fn depth_zero_keeps_only_the_root_itself() {
    let cands = vec![
        candidate("/p", 0, true, SIGNATURE),
        candidate("/p/a.sqlite", 1, true, SIGNATURE),
    ];
    let files = find_sqlite3_files(&cands, 0);
    assert_eq!(files, vec!["/p".to_string()]);
}
