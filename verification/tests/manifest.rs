use browser_defrag::ini::{ini_get, parse_ini};
use browser_defrag::registry::Profile;
use browser_defrag::resolve::{coerce_bool, load_profiles};

const ROOT: &str = "/home/user/.mozilla/firefox";

#[test]
fn test_load_single_profile() {
    let manifest = "[Profile0]\nName=default\nIsRelative=1\nPath=qioxtndq.default\n";
    let profiles = load_profiles(manifest, ROOT);

    let expected_profiles: Vec<Profile> = vec![Profile {
        name: "default".to_string(),
        path: format!("{ROOT}/qioxtndq.default"),
        databases: None,
    }];

    assert_eq!(profiles, expected_profiles);
}

#[test]
fn test_load_multiple_profiles() {
    let manifest = "[Profile0]\nName=default\nIsRelative=1\nPath=qioxtndq.default\n\
                    [Profile1]\nName=alicew\nIsRelative=0\nPath=/home/user/.mozilla/firefox/alicew\n\
                    [Profile2]\nName=sheldon\nIsRelative=0\nPath=/home/user/.mozilla/firefox/sheldon\n";
    let profiles = load_profiles(manifest, ROOT);

    let expected_profiles: Vec<Profile> = vec![
        Profile {
            name: "default".to_string(),
            path: format!("{ROOT}/qioxtndq.default"),
            databases: None,
        },
        Profile {
            name: "alicew".to_string(),
            path: "/home/user/.mozilla/firefox/alicew".to_string(),
            databases: None,
        },
        Profile {
            name: "sheldon".to_string(),
            path: "/home/user/.mozilla/firefox/sheldon".to_string(),
            databases: None,
        },
    ];

    assert_eq!(profiles, expected_profiles);
}

#[test]
fn single_profile_section_and_no_next_index() {
    // one section `Profile0`, no `Profile1`: exactly one profile, named
    // `default`, its relative path resolved against the manifest's directory
    let manifest = "[Profile0]\nName=default\nIsRelative=1\nPath=xyz.default\n";
    let profiles = load_profiles(manifest, "/mnt/data");
    assert_eq!(profiles.len(), 1);
    assert_eq!(profiles[0].name, "default");
    assert_eq!(profiles[0].path, "/mnt/data/xyz.default");
    assert!(profiles[0].databases.is_none());
}

#[test]
fn absolute_path_is_not_joined() {
    // `IsRelative=0` takes the stored path as it stands
    let manifest = "[Profile0]\nName=one\nIsRelative=1\nPath=a.default\n\
                    [Profile1]\nName=two\nIsRelative=0\nPath=/abs/path\n";
    let profiles = load_profiles(manifest, "/mnt/data");
    assert_eq!(profiles.len(), 2);
    assert_eq!(profiles[0].path, "/mnt/data/a.default");
    assert_eq!(profiles[1].path, "/abs/path");
}

#[test]
fn scan_stops_at_first_missing_index() {
    let manifest = "[Profile0]\nName=zero\nIsRelative=0\nPath=/p0\n\
                    [Profile2]\nName=two\nIsRelative=0\nPath=/p2\n";
    let profiles = load_profiles(manifest, "/root-dir");
    assert_eq!(profiles.len(), 1);
    assert_eq!(profiles[0].name, "zero");
}

#[test]
fn malformed_section_is_skipped_and_scan_goes_on() {
    // `Profile0` lacks `Path`, `Profile1` has a bad `IsRelative`,
    // `Profile2` is complete: only the last one is kept
    let manifest = "[Profile0]\nName=zero\nIsRelative=1\n\
                    [Profile1]\nName=one\nIsRelative=maybe\nPath=/p1\n\
                    [Profile2]\nName=two\nIsRelative=0\nPath=/p2\n";
    let profiles = load_profiles(manifest, "/root-dir");
    assert_eq!(profiles.len(), 1);
    assert_eq!(profiles[0].name, "two");
    assert_eq!(profiles[0].path, "/p2");
}

#[test]
fn section_and_key_names_match_case_insensitively() {
    let manifest = "[profile0]\nname=default\nisrelative=1\npath=rel.dir\n";
    let profiles = load_profiles(manifest, "/case");
    assert_eq!(profiles.len(), 1);
    assert_eq!(profiles[0].path, "/case/rel.dir");
}

#[test]
fn other_sections_comments_and_blank_lines_are_ignored() {
    let manifest = "; a comment line\n\n[General]\nStartWithLastProfile=1\n\n\
                    [Profile0]\n# another comment\nName=default\nIsRelative=1\nPath=p.d\n";
    let profiles = load_profiles(manifest, "/r");
    assert_eq!(profiles.len(), 1);
    assert_eq!(profiles[0].path, "/r/p.d");
}

#[test]
fn inline_comment_cuts_a_value_short() {
    let manifest = "[Profile0]\nName=default ; the usual one\nIsRelative=0\nPath=/p\n";
    let profiles = load_profiles(manifest, "/r");
    assert_eq!(profiles.len(), 1);
    assert_eq!(profiles[0].name, "default");
}

#[test]
fn colon_delimiter_and_whitespace_are_accepted() {
    let manifest = "[Profile0]\nName : spaced \nIsRelative: yes\nPath:\trel\n";
    let profiles = load_profiles(manifest, "/r");
    assert_eq!(profiles.len(), 1);
    assert_eq!(profiles[0].name, "spaced");
    assert_eq!(profiles[0].path, "/r/rel");
}

#[test]
fn empty_manifest_yields_no_profiles() {
    assert_eq!(load_profiles("", "/r"), Vec::<Profile>::new());
}

#[test]
fn last_binding_of_a_key_wins() {
    let secs = parse_ini("[s]\nk=first\nk=second\n");
    assert_eq!(ini_get(&secs, "s", "k").map(String::as_str), Some("second"));
}

#[test]
fn equally_named_sections_are_read_as_one() {
    let secs = parse_ini("[s]\na=1\n[t]\nb=2\n[s]\nc=3\n");
    assert_eq!(ini_get(&secs, "s", "a").map(String::as_str), Some("1"));
    assert_eq!(ini_get(&secs, "s", "c").map(String::as_str), Some("3"));
    assert_eq!(ini_get(&secs, "t", "a"), None);
}

#[test]
fn indices_with_more_than_one_digit_are_found() {
    let mut manifest = String::new();
    for i in 0..12 {
        manifest.push_str(&format!("[Profile{i}]\nName=p{i}\nIsRelative=0\nPath=/p/{i}\n"));
    }
    let profiles = load_profiles(&manifest, "/r");
    assert_eq!(profiles.len(), 12);
    assert_eq!(profiles[10].name, "p10");
    assert_eq!(profiles[11].path, "/p/11");
}

#[test]
fn lookups_agree_with_a_reference_ini_reader() {
    let text = "[Profile0]\nName=default ; trailing comment\nIsRelative=1\nPath=xyz.default\n\
                [General]\nVersion : 2\n[profile0]\nExtra=merged\n";
    let mut reference = configparser::ini::Ini::new();
    reference.read(text.to_string()).expect("reference reader accepts the text");
    let secs = parse_ini(text);
    for (section, key) in [
        ("Profile0", "Name"),
        ("Profile0", "IsRelative"),
        ("Profile0", "Path"),
        ("Profile0", "Extra"),
        ("General", "Version"),
        ("general", "version"),
        ("Profile1", "Name"),
    ] {
        assert_eq!(
            reference.get(section, key),
            ini_get(&secs, section, key).cloned(),
            "section `{section}`, key `{key}`",
        );
    }
}

#[test]
fn boolean_coercion_accepts_the_usual_words() {
    for v in ["true", "YES", "t", "y", "1", "On"] {
        assert_eq!(coerce_bool(v), Some(true), "{v}");
    }
    for v in ["false", "NO", "f", "n", "0", "Off"] {
        assert_eq!(coerce_bool(v), Some(false), "{v}");
    }
    assert_eq!(coerce_bool("maybe"), None);
    assert_eq!(coerce_bool(""), None);
}
