use docscan::classify::{
    absolutize, classify_path, filter_sources, manifest_sibling, mode_supported, DiskKind,
    Extraction, Mode,
};
use docscan::pathing::{ends_with, file_name, join_path, parent_dir};

#[test]
fn manifest_file_is_a_manifest() {
    let r = classify_path("/proj/Cargo.toml".to_owned(), DiskKind::File, false);
    assert_eq!(r, Extraction::Manifest("/proj/Cargo.toml".to_owned()));
}

#[test]
fn markdown_file_is_markdown() {
    let r = classify_path("/proj/README.md".to_owned(), DiskKind::File, false);
    assert_eq!(r, Extraction::Markdown("/proj/README.md".to_owned()));
}

#[test]
fn other_file_is_a_source() {
    let r = classify_path("/proj/src/main.rs".to_owned(), DiskKind::File, false);
    assert_eq!(r, Extraction::Source("/proj/src/main.rs".to_owned()));
}

#[test]
fn directory_stands_for_its_manifest_sibling() {
    let r = classify_path("/proj/member".to_owned(), DiskKind::Dir, true);
    assert_eq!(r, Extraction::Manifest("/proj/Cargo.toml".to_owned()));
    let r = classify_path("/proj/member".to_owned(), DiskKind::Dir, false);
    assert_eq!(r, Extraction::Missing("/proj/Cargo.toml".to_owned()));
}

#[test]
fn missing_path_is_missing() {
    let r = classify_path("/gone.rs".to_owned(), DiskKind::Missing, false);
    assert_eq!(r, Extraction::Missing("/gone.rs".to_owned()));
}

#[test]
fn absolutize_joins_only_relative_paths() {
    assert_eq!(absolutize("/cwd", "x.rs"), "/cwd/x.rs".to_owned());
    assert_eq!(absolutize("/cwd", "/abs/x.rs"), "/abs/x.rs".to_owned());
}

#[test]
fn filter_keeps_only_source_paths_in_order() {
    let paths = vec![
        "a/one.rs".to_owned(),
        "a/notes.md".to_owned(),
        "a/two.rs".to_owned(),
        "a/rs".to_owned(),
    ];
    assert_eq!(filter_sources(&paths), vec!["a/one.rs".to_owned(), "a/two.rs".to_owned()]);
}

#[test]
fn fix_mode_is_unsupported() {
    assert!(!mode_supported(&Mode::Fix));
    assert!(mode_supported(&Mode::Check));
    assert!(mode_supported(&Mode::Interactive));
}

#[test]
fn path_helpers_behave_like_paths() {
    assert_eq!(join_path("a", "b"), "a/b".to_owned());
    assert_eq!(join_path("", "b"), "b".to_owned());
    assert_eq!(join_path("/", "b"), "/b".to_owned());
    assert_eq!(parent_dir("a/b/c.rs"), "a/b".to_owned());
    assert_eq!(parent_dir("c.rs"), "".to_owned());
    assert_eq!(parent_dir("/c.rs"), "/".to_owned());
    assert_eq!(file_name("a/b/c.rs"), "c.rs".to_owned());
    assert_eq!(file_name("c.rs"), "c.rs".to_owned());
    assert!(ends_with("lib.rs", ".rs"));
    assert!(!ends_with("rs", ".rs"));
    assert_eq!(manifest_sibling("/proj/member"), "/proj/Cargo.toml".to_owned());
}
