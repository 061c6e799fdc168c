use copy_glob::{
    file_name, get_root_path, get_target_folder, join_path, relative_path, rerun_directive,
    starts_with, Entry, EntryKind,
};

#[test]
fn starts_with_compares_text() {
    assert!(starts_with("/proj/src", "/proj"));
    assert!(starts_with("/proj", "/proj"));
    assert!(starts_with("/proj", ""));
    assert!(!starts_with("/pro", "/proj"));
    assert!(!starts_with("/prod/src", "/proj"));
    assert!(starts_with("/projects", "/proj"));
}

#[test]
fn starts_with_counts_characters_not_bytes() {
    assert!(starts_with("/été/a", "/été"));
    assert!(!starts_with("/ete/a", "/été"));
}

#[test]
fn relative_path_strips_root_and_separator() {
    assert_eq!(relative_path("/proj/a/b/c.ext", "/proj"), Some("a/b/c.ext".to_string()));
    assert_eq!(relative_path("/proj/a/b/c.ext", "/proj/"), Some("a/b/c.ext".to_string()));
    assert_eq!(relative_path("C:\\proj\\a\\b.txt", "C:\\proj"), Some("a\\b.txt".to_string()));
}

#[test]
fn relative_path_of_the_root_is_empty() {
    assert_eq!(relative_path("/proj", "/proj"), Some(String::new()));
    assert_eq!(relative_path("/proj/", "/proj"), Some(String::new()));
}

#[test]
fn relative_path_trims_backslashes_then_slashes() {
    assert_eq!(relative_path("/r\\\\//a", "/r"), Some("a".to_string()));
    assert_eq!(relative_path("/r/\\a", "/r"), Some("\\a".to_string()));
    assert_eq!(relative_path("/r///a/b", "/r"), Some("a/b".to_string()));
}

#[test]
fn relative_path_keeps_dot_dot_segments() {
    assert_eq!(relative_path("/proj/../etc/passwd", "/proj"), Some("../etc/passwd".to_string()));
}

#[test]
fn relative_path_needs_the_root_as_prefix() {
    assert_eq!(relative_path("/other/a", "/proj"), None);
    assert_eq!(relative_path("/pro", "/proj"), None);
    assert_eq!(relative_path("", "/proj"), None);
}

#[test]
fn relative_path_with_an_empty_root() {
    assert_eq!(relative_path("/a/b", ""), Some("a/b".to_string()));
    assert_eq!(relative_path("a/b", ""), Some("a/b".to_string()));
}

#[test]
fn join_path_puts_one_separator_between() {
    assert_eq!(join_path("/out", "a/b.txt"), "/out/a/b.txt");
    assert_eq!(join_path("/out/", "a/b.txt"), "/out/a/b.txt");
    assert_eq!(join_path("", "a/b.txt"), "a/b.txt");
    assert_eq!(join_path("/out", ""), "/out/");
    assert_eq!(join_path("out\\", "a"), "out\\/a");
}

#[test]
fn join_path_never_leaves_the_base() {
    assert_eq!(join_path("/out", "/abs"), "/out//abs");
}

#[test]
fn root_path_is_the_manifest_directory() {
    assert_eq!(get_root_path("/home/me/proj"), "/home/me/proj");
    assert_eq!(get_root_path(""), "");
}

#[test]
fn target_folder_depends_on_the_profile() {
    assert_eq!(get_target_folder("/home/me/proj", false), "/home/me/proj/target/debug");
    assert_eq!(get_target_folder("/home/me/proj", true), "/home/me/proj/target/release");
    assert_eq!(get_target_folder("/home/me/proj/", false), "/home/me/proj/target/debug");
}

#[test]
fn rerun_directive_names_the_path() {
    assert_eq!(rerun_directive("/proj/a.txt"), "cargo:rerun-if-changed=/proj/a.txt");
    assert_eq!(rerun_directive(""), "cargo:rerun-if-changed=");
}

#[test]
fn file_name_is_the_last_segment() {
    assert_eq!(file_name("/proj/a/b/c.ext"), "c.ext");
    assert_eq!(file_name("c.ext"), "c.ext");
    assert_eq!(file_name("/c.ext"), "c.ext");
    assert_eq!(file_name("/proj/a/"), "");
    assert_eq!(file_name(""), "");
    assert_eq!(file_name("a\\b/c\\d"), "c\\d");
}

#[test]
fn a_new_entry_takes_its_name_from_its_path() {
    let entry = Entry::new("/proj/not_empty/rust/ruru.rs", EntryKind::File);
    assert_eq!(
        entry,
        Entry {
            path: "/proj/not_empty/rust/ruru.rs".to_string(),
            file_name: "ruru.rs".to_string(),
            kind: EntryKind::File,
        }
    );
}
