use elm_exposing::collect::{failure_line, FileFault};
use elm_exposing::text::{same_text, slice};
use std::path::PathBuf;

#[test]
fn same_text_compares_whole_texts() {
    assert!(same_text("", ""));
    assert!(same_text("comma", "comma"));
    assert!(!same_text("comma", "comm"));
    assert!(!same_text("comma", "camma"));
    assert!(!same_text("exposed_value", "exposed_types"));
    assert!(same_text("wörld", "wörld"));
}

#[test]
fn slice_cuts_between_byte_offsets() {
    assert_eq!(slice("module Main", 7, 11), Some("Main"));
    assert_eq!(slice("module Main", 0, 0), Some(""));
    assert_eq!(slice("module Main", 11, 11), Some(""));
    assert_eq!(slice("module Main", 0, 11), Some("module Main"));
    assert_eq!(slice("héllo", 0, 3), Some("hé"));
    assert_eq!(slice("héllo", 1, 3), Some("é"));
}

#[test]
fn slice_refuses_what_delimits_no_text() {
    assert_eq!(slice("module Main", 7, 12), None);
    assert_eq!(slice("module Main", 12, 12), None);
    assert_eq!(slice("module Main", 5, 4), None);
    assert_eq!(slice("héllo", 0, 2), None);
    assert_eq!(slice("héllo", 2, 3), None);
}

#[test]
fn failure_line_names_path_and_fault() {
    assert_eq!(
        failure_line(&PathBuf::from("tests/One.elm"), FileFault::NoTree),
        "tests/One.elm: the grammar made no syntax tree\n"
    );
}
