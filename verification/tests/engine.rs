//! Scenario tests for the package state and synchronization engine: the
//! snapshot codec, the version comparator, the error translator, the
//! version store, and the refresh pass.
use rpm::errors::{classify, explain, CommandSpec, DomainErrorCode};
use rpm::refresh::{compute_outdated, refresh_step};
use rpm::runner::accept_stdout;
use rpm::snapshot::{empty_snapshot_text, format_snapshot, parse_snapshot, OutdatedEntry};
use rpm::store::{format_record, parse_record, PackageRecord, VersionStore};
use rpm::version::{is_newer, make_version};

fn entry(name: &str, current: &str, latest: &str) -> OutdatedEntry {
    OutdatedEntry {
        name: name.to_string(),
        current: current.to_string(),
        latest: latest.to_string(),
    }
}

#[test]
fn snapshot_round_trip() {
    let entries = vec![entry("foo", "1.0-1", "1.1-1"), entry("bar", "2-3", "2-4")];
    let text = format_snapshot(&entries);
    assert_eq!(text, "foo 1.0-1 1.1-1\nbar 2-3 2-4\n");
    let back = parse_snapshot(&text).unwrap();
    assert_eq!(back.len(), 2);
    assert_eq!(back[0].name, "foo");
    assert_eq!(back[0].current, "1.0-1");
    assert_eq!(back[0].latest, "1.1-1");
    assert_eq!(back[1].name, "bar");
    assert_eq!(back[1].current, "2-3");
    assert_eq!(back[1].latest, "2-4");
}

#[test]
fn snapshot_round_trip_without_trailing_newline() {
    let back = parse_snapshot("foo 1.0-1 1.1-1").unwrap();
    assert_eq!(back.len(), 1);
    assert_eq!(back[0].name, "foo");
}

#[test]
fn empty_snapshot_is_zero_entries() {
    let empty = empty_snapshot_text();
    assert_eq!(empty, "");
    let back = parse_snapshot(&empty).unwrap();
    assert!(back.is_empty());
    let written = format_snapshot(&Vec::new());
    assert_eq!(written, empty);
}

#[test]
fn snapshot_malformed_lines_are_fatal() {
    assert!(matches!(
        parse_snapshot("foo 1.0-1\n"),
        Err(DomainErrorCode::VersionReadFailure)
    ));
    assert!(matches!(
        parse_snapshot("foo 1.0-1 1.1-1 extra\n"),
        Err(DomainErrorCode::VersionReadFailure)
    ));
    assert!(matches!(
        parse_snapshot("\n"),
        Err(DomainErrorCode::VersionReadFailure)
    ));
    assert!(matches!(
        parse_snapshot("foo  1.0-1 1.1-1\n"),
        Err(DomainErrorCode::VersionReadFailure)
    ));
}

#[test]
fn comparator_is_lexicographic_not_numeric() {
    assert!(!is_newer("1.2", "1.10"));
}

#[test]
fn comparator_basic_cases() {
    assert!(is_newer("1.0-1", "1.1-1"));
    assert!(!is_newer("1.1-1", "1.1-1"));
}

#[test]
fn comparator_regressed_candidate() {
    assert!(!is_newer("2.0-1", "1.9-1"));
}

#[test]
fn comparator_guards_shorter_candidate() {
    assert!(is_newer("1.2.3-1", "1.3-1"));
    assert!(!is_newer("2.0.1-1", "1-1"));
}

#[test]
fn classify_maps_fetch_failure_and_unmapped() {
    let fetch = CommandSpec::new(2, vec![0]);
    assert_eq!(classify(&fetch, 0), Ok(()));
    assert_eq!(classify(&fetch, 6), Err(DomainErrorCode::FetchFailure));
    assert_eq!(classify(&fetch, 1), Err(DomainErrorCode::Unmapped));
    assert_eq!(classify(&fetch, 7), Err(DomainErrorCode::Unmapped));
}

#[test]
fn classify_accepts_every_listed_code() {
    let clone = CommandSpec::new(1, vec![0, 128]);
    assert_eq!(classify(&clone, 0), Ok(()));
    assert_eq!(classify(&clone, 128), Ok(()));
    assert_eq!(classify(&clone, 12), Err(DomainErrorCode::Unmapped));
    assert_eq!(classify(&clone, 1), Err(DomainErrorCode::Unmapped));
}

#[test]
fn classify_keys_on_the_class_and_code_pair() {
    let mkdir = CommandSpec::new(3, vec![0]);
    assert_eq!(classify(&mkdir, 4), Err(DomainErrorCode::Unmapped));
    let makepkg = CommandSpec::new(4, vec![0]);
    assert_eq!(classify(&makepkg, 3), Err(DomainErrorCode::Unmapped));
    let cat = CommandSpec::new(6, vec![0]);
    assert_eq!(classify(&cat, 2), Err(DomainErrorCode::Unmapped));
}

#[test]
fn explain_knows_the_catalog() {
    assert_eq!(explain(0xE0).unwrap().title, "Curl Error");
    assert_eq!(explain(0xD0).unwrap().title, "Grep pkgver/pkgrel Reading Error");
    assert_eq!(explain(0xC0).unwrap().title, "Invalid UTF-8 Sequence");
    assert_eq!(explain(0xB0).unwrap().title, "User Input Error");
    assert_eq!(explain(0xB1).unwrap().title, "User Input Error");
    assert_eq!(explain(0xA0).unwrap().title, "Package Deletion Error");
    assert_eq!(explain(0xFF).unwrap().title, "Mismatched exit and error codes");
    let fetch_info = explain(0xE0).unwrap();
    assert_eq!(
        fetch_info.cause,
        "The likely reason is a lack of network connection"
    );
    assert_eq!(fetch_info.remedy, "Check your internet connection");
    let deletion_info = explain(0xA0).unwrap();
    assert_eq!(
        deletion_info.cause,
        "An installed package's info file cannot be deleted"
    );
    assert_eq!(deletion_info.remedy, "Check that the package info file exists");
    assert!(explain(0x12).is_none());
    assert!(explain(0x00).is_none());
}

#[test]
fn error_codes_are_the_catalog_values() {
    assert_eq!(DomainErrorCode::FetchFailure.code(), 0xE0);
    assert_eq!(DomainErrorCode::VersionReadFailure.code(), 0xD0);
    assert_eq!(DomainErrorCode::InvalidOutputEncoding.code(), 0xC0);
    assert_eq!(DomainErrorCode::UserInputFailure.code(), 0xB0);
    assert_eq!(DomainErrorCode::InvalidUserChoice.code(), 0xB1);
    assert_eq!(DomainErrorCode::RecordDeletionFailure.code(), 0xA0);
    assert_eq!(DomainErrorCode::Unmapped.code(), 0xFF);
}

#[test]
fn record_lifecycle() {
    let mut store = VersionStore::new();
    store.save("pkgX", "1.0", "2");
    let listed = store.list_installed();
    assert!(listed
        .iter()
        .any(|r| r.name == "pkgX" && r.version == "1.0-2"));
    assert!(store.contains_name("pkgX"));
    assert_eq!(store.delete("pkgX"), Ok(()));
    assert!(!store.contains_name("pkgX"));
    assert!(store.list_installed().iter().all(|r| r.name != "pkgX"));
    assert_eq!(
        store.delete("pkgX"),
        Err(DomainErrorCode::RecordDeletionFailure)
    );
}

#[test]
fn record_save_overwrites_in_place() {
    let mut store = VersionStore::new();
    store.save("a", "1.0", "1");
    store.save("b", "2.0", "1");
    store.save("a", "1.1", "1");
    let listed = store.list_installed();
    assert_eq!(listed.len(), 2);
    assert_eq!(listed[0].name, "a");
    assert_eq!(listed[0].version, "1.1-1");
    assert_eq!(listed[1].name, "b");
}

#[test]
fn record_file_codec() {
    let content = format_record("1.0", "2");
    assert_eq!(content, "1.0\n2");
    let (ver, rel) = parse_record(&content).unwrap();
    assert_eq!(ver, "1.0");
    assert_eq!(rel, "2");
    assert_eq!(
        parse_record("oneline"),
        Err(DomainErrorCode::VersionReadFailure)
    );
    assert_eq!(
        parse_record("a\nb\nc"),
        Err(DomainErrorCode::VersionReadFailure)
    );
}

#[test]
fn refresh_end_to_end() {
    let records = vec![PackageRecord {
        name: "A".to_string(),
        version: "1.0-1".to_string(),
    }];
    let newer = vec!["1.1-1".to_string()];
    let outdated = compute_outdated(&records, &newer);
    assert_eq!(outdated.len(), 1);
    assert_eq!(outdated[0].name, "A");
    assert_eq!(outdated[0].current, "1.0-1");
    assert_eq!(outdated[0].latest, "1.1-1");
    let same = vec!["1.0-1".to_string()];
    let unchanged = compute_outdated(&records, &same);
    assert!(unchanged.is_empty());
}

#[test]
fn refresh_step_matches_the_comparator() {
    let record = PackageRecord {
        name: "A".to_string(),
        version: "1.2-1".to_string(),
    };
    assert!(refresh_step(&record, "1.2-1").is_none());
    assert!(refresh_step(&record, "1.10-1").is_none());
    let stepped = refresh_step(&record, "1.3-1").unwrap();
    assert_eq!(stepped.name, "A");
    assert_eq!(stepped.current, "1.2-1");
    assert_eq!(stepped.latest, "1.3-1");
}

#[test]
fn refresh_then_snapshot_round_trips() {
    let records = vec![
        PackageRecord {
            name: "alpha".to_string(),
            version: "1.0-1".to_string(),
        },
        PackageRecord {
            name: "beta".to_string(),
            version: "3.4-2".to_string(),
        },
    ];
    let fetched = vec!["1.1-1".to_string(), "3.4-2".to_string()];
    let outdated = compute_outdated(&records, &fetched);
    assert_eq!(outdated.len(), 1);
    let text = format_snapshot(&outdated);
    let back = parse_snapshot(&text).unwrap();
    assert_eq!(back.len(), 1);
    assert_eq!(back[0].name, "alpha");
    assert_eq!(back[0].current, "1.0-1");
    assert_eq!(back[0].latest, "1.1-1");
}

#[test]
fn stdout_acceptance_policy() {
    assert_eq!(
        accept_stdout(None),
        Err(DomainErrorCode::InvalidOutputEncoding)
    );
    assert_eq!(accept_stdout(Some("out\n".to_string())), Ok("out".to_string()));
    assert_eq!(accept_stdout(Some("out".to_string())), Ok("out".to_string()));
    assert_eq!(accept_stdout(Some("".to_string())), Ok("".to_string()));
    assert_eq!(accept_stdout(Some("a\n\n".to_string())), Ok("a\n".to_string()));
}

#[test]
fn version_join() {
    assert_eq!(make_version("1.0", "2"), "1.0-2");
    assert_eq!(make_version("", ""), "-");
}
