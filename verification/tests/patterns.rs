use elm_exposing::collect::{resolve_file, FileFault};
use elm_exposing::query::{
    first_capture, get_all_exposed_values_query, get_all_top_level_values_query,
    get_explicit_exposed_values_query, get_exposing_src_range, names_of_captures, OutsideSource,
    Patterns,
};
use elm_exposing::{all_tests, all_tests_with, TestModule};
use std::path::PathBuf;
use tree_sitter::{Parser, Tree};

fn parse(source_code: &str) -> Tree {
    let mut parser = Parser::new();
    parser.set_language(tree_sitter_elm::language()).unwrap();
    parser.parse(source_code, None).unwrap()
}

fn candidates(source: &str) -> Vec<String> {
    let patterns = Patterns::new().unwrap();
    resolve_file(&patterns, source).unwrap()
}

fn files(sources: &[(&str, &str)]) -> Vec<(PathBuf, String)> {
    sources
        .iter()
        .map(|(path, source)| (PathBuf::from(path), source.to_string()))
        .collect()
}

#[test]
fn the_four_patterns_compile() {
    assert!(Patterns::new().is_ok());
}

#[test]
fn exposing_range_is_that_of_the_list() {
    let patterns = Patterns::new().unwrap();
    let source = "module Main exposing (one)\none=1";
    let tree = parse(source);
    assert_eq!(get_exposing_src_range(&patterns, &tree), Some((12, 26)));
    assert_eq!(&source[12..26], "exposing (one)");
}

#[test]
fn exposing_range_is_absent_without_a_header() {
    let patterns = Patterns::new().unwrap();
    let tree = parse("one=1\ntwo=2");
    assert_eq!(get_exposing_src_range(&patterns, &tree), None);
}

#[test]
fn explicit_query_tells_wildcard_from_list() {
    let patterns = Patterns::new().unwrap();
    let source = "module Main exposing (..)\none=1";
    let tree = parse(source);
    let (start, end) = get_exposing_src_range(&patterns, &tree).unwrap();
    assert_eq!(
        get_explicit_exposed_values_query(&patterns, &tree, source, start, end),
        Ok(None)
    );

    let source = "port module Main.Pain exposing (int, Int, {- -}test, Test)";
    let tree = parse(source);
    let (start, end) = get_exposing_src_range(&patterns, &tree).unwrap();
    assert_eq!(
        get_explicit_exposed_values_query(&patterns, &tree, source, start, end),
        Ok(Some(vec!["int", "test"]))
    );
}

#[test]
fn explicit_query_keeps_to_its_range() {
    let patterns = Patterns::new().unwrap();
    let source = "module Main exposing (one)\nimport Other exposing (two)\none=1";
    let tree = parse(source);
    let (start, end) = get_exposing_src_range(&patterns, &tree).unwrap();
    assert_eq!(
        get_explicit_exposed_values_query(&patterns, &tree, source, start, end),
        Ok(Some(vec!["one"]))
    );
    assert_eq!(
        get_explicit_exposed_values_query(&patterns, &tree, source, 0, 0xffff_ffff),
        Ok(Some(vec!["one", "two"]))
    );
}

#[test]
fn top_level_query_skips_nested_and_annotated() {
    let patterns = Patterns::new().unwrap();
    let source = "
type Test = Igore

withNestedValues: Test.Test
withNestedValues a =
    let
        shouldIgnore = Test.test
    in
    ()

shouldIgnore = 2
";
    let tree = parse(source);
    assert_eq!(
        get_all_top_level_values_query(&patterns, &tree, source),
        Ok(vec!["withNestedValues", "shouldIgnore"])
    );
}

#[test]
fn query_candidates_end_to_end() {
    assert_eq!(
        candidates("module Main exposing (..)\none=1\ntwo=2"),
        vec!["one", "two"]
    );
    assert_eq!(
        candidates("module Main exposing (one)\none=1\ntwo=2"),
        vec!["one"]
    );
}

#[test]
fn query_candidates_without_header_are_none() {
    let patterns = Patterns::new().unwrap();
    let source = "one=1\ntwo=2";
    let tree = parse(source);
    assert_eq!(
        get_all_exposed_values_query(&patterns, &tree, source),
        Ok(Vec::<&str>::new())
    );
}

#[test]
fn query_candidates_keep_duplicates_and_order() {
    assert_eq!(
        candidates("module Main exposing (b, A, a, b)\na=1\nb=2"),
        vec!["b", "a", "b"]
    );
}

#[test]
fn query_candidates_twice_are_the_same() {
    let source = "module Main exposing (..)\none=1\ntwo=2";
    assert_eq!(candidates(source), candidates(source));
}

#[test]
fn first_capture_of_matches() {
    assert_eq!(first_capture(&vec![]), None);
    assert_eq!(first_capture(&vec![Some((3, 5)), Some((7, 9))]), Some((3, 5)));
    assert_eq!(first_capture(&vec![None, Some((7, 9))]), None);
}

#[test]
fn names_of_captures_cut_the_source() {
    let source = "héllo wörld";
    assert_eq!(
        names_of_captures(&vec![Some((0, 6)), None, Some((7, 13))], source),
        Ok(vec!["héllo", "wörld"])
    );
    assert_eq!(names_of_captures(&vec![], source), Ok(Vec::<&str>::new()));
}

#[test]
fn names_of_captures_report_the_first_misfit() {
    let source = "héllo";
    assert_eq!(
        names_of_captures(&vec![Some((0, 1)), Some((0, 2)), Some((4, 99))], source),
        Err(OutsideSource { start: 0, end: 2 })
    );
    assert_eq!(
        names_of_captures(&vec![Some((3, 2))], source),
        Err(OutsideSource { start: 3, end: 2 })
    );
    assert_eq!(
        names_of_captures(&vec![Some((0, 7))], source),
        Err(OutsideSource { start: 0, end: 7 })
    );
}

#[test]
fn all_tests_pairs_each_file_with_its_names() {
    let modules: Vec<TestModule> = all_tests(files(&[
        ("tests/One.elm", "module Main exposing (..)\none=1\ntwo=2"),
        ("tests/Two.elm", "module Main exposing (one)\none=1\ntwo=2"),
        ("tests/Three.elm", "one=1"),
    ]))
    .unwrap();
    assert_eq!(modules.len(), 3);
    assert_eq!(modules[0].path, PathBuf::from("tests/One.elm"));
    assert_eq!(modules[0].tests, vec!["one", "two"]);
    assert_eq!(modules[1].path, PathBuf::from("tests/Two.elm"));
    assert_eq!(modules[1].tests, vec!["one"]);
    assert_eq!(modules[2].path, PathBuf::from("tests/Three.elm"));
    assert!(modules[2].tests.is_empty());
}

#[test]
fn all_tests_of_no_files_is_empty() {
    assert!(all_tests(Vec::new()).unwrap().is_empty());
}

#[test]
fn all_tests_with_shared_patterns() {
    let patterns = Patterns::new().unwrap();
    let first = all_tests_with(&patterns, files(&[("A.elm", "module A exposing (a)\na=1")]))
        .unwrap();
    let second = all_tests_with(&patterns, files(&[("A.elm", "module A exposing (a)\na=1")]))
        .unwrap();
    assert_eq!(first[0].tests, vec!["a"]);
    assert_eq!(first[0].tests, second[0].tests);
    assert_eq!(first[0].path, second[0].path);
}

#[test]
fn file_fault_in_words() {
    assert_eq!(FileFault::NoTree.describe(), "the grammar made no syntax tree");
    assert_eq!(
        FileFault::OutsideSource(OutsideSource { start: 1, end: 0 }).describe(),
        "a node lies outside the source text"
    );
}
