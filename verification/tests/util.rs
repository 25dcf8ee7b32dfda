//! Tests for the verified text utilities, the prompt token sets, the
//! report helpers, and the binary digit rendering.
use rpm::binary::{bitwise_right_shift, convert_to_binary};
use rpm::prompt::{parse_confirmation, parse_manager_choice, Confirmation, ManagerChoice};
use rpm::report::{filter_entries, filter_records, get_number_of_tabs};
use rpm::snapshot::OutdatedEntry;
use rpm::store::PackageRecord;
use rpm::text::{contains_sub, split_on, str_eq, str_gt, strip_trailing_newline};

#[test]
fn split_keeps_empty_segments() {
    let parts = split_on("a.b.c", '.');
    assert_eq!(parts, vec!["a", "b", "c"]);
    assert_eq!(split_on("", '.'), vec![""]);
    assert_eq!(split_on(".", '.'), vec!["", ""]);
    assert_eq!(split_on("a..b", '.'), vec!["a", "", "b"]);
    assert_eq!(split_on("xy", '.'), vec!["xy"]);
}

#[test]
fn string_equality_and_order() {
    assert!(str_eq("abc", "abc"));
    assert!(!str_eq("abc", "abd"));
    assert!(!str_eq("abc", "ab"));
    assert!(str_gt("2", "10"));
    assert!(!str_gt("10", "2"));
    assert!(!str_gt("a", "a"));
    assert!(str_gt("ab", "a"));
    assert!(!str_gt("a", "ab"));
    assert!(str_gt("b", "a"));
}

#[test]
fn substring_search() {
    assert!(contains_sub("hello", "ell"));
    assert!(contains_sub("hello", ""));
    assert!(contains_sub("hello", "hello"));
    assert!(!contains_sub("hello", "xyz"));
    assert!(!contains_sub("he", "hello"));
}

#[test]
fn trailing_newline_stripping() {
    assert_eq!(strip_trailing_newline("abc\n"), "abc");
    assert_eq!(strip_trailing_newline("abc"), "abc");
    assert_eq!(strip_trailing_newline(""), "");
    assert_eq!(strip_trailing_newline("\n"), "");
    assert_eq!(strip_trailing_newline("a\n\n"), "a\n");
}

#[test]
fn confirmation_tokens() {
    for token in ["y", "Y", "yes", "Yes"] {
        assert_eq!(parse_confirmation(token), Confirmation::Accepted);
    }
    for token in ["n", "N", "no", "No", ""] {
        assert_eq!(parse_confirmation(token), Confirmation::Declined);
    }
    assert_eq!(parse_confirmation("maybe"), Confirmation::Unrecognized);
    assert_eq!(parse_confirmation("YES"), Confirmation::Unrecognized);
}

#[test]
fn manager_choice_tokens() {
    for token in ["Install", "install", "Y", "y", "Yes", "yes", "I", "i"] {
        assert_eq!(parse_manager_choice(token), ManagerChoice::Install);
    }
    for token in ["Quit", "quit", "N", "n", "No", "no", "Q", "q", ""] {
        assert_eq!(parse_manager_choice(token), ManagerChoice::Quit);
    }
    assert_eq!(parse_manager_choice("later"), ManagerChoice::Unrecognized);
}

#[test]
fn record_filtering() {
    let records = vec![
        PackageRecord {
            name: "firefox".to_string(),
            version: "1-1".to_string(),
        },
        PackageRecord {
            name: "vim".to_string(),
            version: "2-1".to_string(),
        },
        PackageRecord {
            name: "neovim".to_string(),
            version: "3-1".to_string(),
        },
    ];
    let hits = filter_records(&records, "vim");
    assert_eq!(hits.len(), 2);
    assert_eq!(hits[0].name, "vim");
    assert_eq!(hits[1].name, "neovim");
    let all = filter_records(&records, "");
    assert_eq!(all.len(), 3);
    assert!(filter_records(&records, "zsh").is_empty());
}

#[test]
fn entry_filtering() {
    let entries = vec![
        OutdatedEntry {
            name: "firefox".to_string(),
            current: "1-1".to_string(),
            latest: "2-1".to_string(),
        },
        OutdatedEntry {
            name: "vim".to_string(),
            current: "3-1".to_string(),
            latest: "4-1".to_string(),
        },
    ];
    let hits = filter_entries(&entries, "fire");
    assert_eq!(hits.len(), 1);
    assert_eq!(hits[0].name, "firefox");
    assert_eq!(hits[0].current, "1-1");
    assert_eq!(hits[0].latest, "2-1");
}

#[test]
fn tab_padding_by_name_length() {
    assert_eq!(get_number_of_tabs("a"), "\t\t\t\t");
    assert_eq!(get_number_of_tabs("eightchr"), "\t\t\t");
    assert_eq!(get_number_of_tabs("fifteen-chars-x"), "\t\t\t");
    assert_eq!(get_number_of_tabs("sixteen-chars-xy"), "\t\t");
    assert_eq!(get_number_of_tabs("twenty-four-characters-x"), "\t");
    assert_eq!(get_number_of_tabs("a-name-of-exactly-32-characters-"), "\t");
    assert_eq!(
        get_number_of_tabs("a-very-long-name-of-more-than-32-characters"),
        "\t\t\t\t"
    );
}

#[test]
fn binary_rendering() {
    assert_eq!(
        convert_to_binary(&"AB".to_string()),
        "10000011000010".chars().collect::<Vec<char>>()
    );
    assert_eq!(
        convert_to_binary(&"AB\n".to_string()),
        "10000011000010".chars().collect::<Vec<char>>()
    );
    assert_eq!(convert_to_binary(&"\n".to_string()), Vec::<char>::new());
    assert_eq!(convert_to_binary(&"".to_string()), Vec::<char>::new());
    assert_eq!(
        convert_to_binary(&"0".to_string()),
        "110000".chars().collect::<Vec<char>>()
    );
}

#[test]
fn binary_right_shift() {
    assert_eq!(
        bitwise_right_shift(&vec!['1', '0', '1']),
        vec!['0', '1', '0']
    );
    assert_eq!(bitwise_right_shift(&vec!['1']), vec!['0']);
    assert_eq!(bitwise_right_shift(&Vec::new()), Vec::<char>::new());
}
