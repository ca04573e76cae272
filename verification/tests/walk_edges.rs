use elm_exposing::cursor::{check_kind, child, is_comment_kind, next_sibling, peek_head};
use elm_exposing::names::node_text;
use elm_exposing::exposing::seek_child;
use elm_exposing::{
    get_all_exposed_values, get_all_top_level_values, get_explicit_exposed_values,
    ExplicitExposedValuesError,
};
use tree_sitter::{Parser, Tree};

fn elm(source_code: &str) -> Tree {
    let mut parser = Parser::new();
    parser.set_language(tree_sitter_elm::language()).unwrap();
    parser.parse(source_code, None).unwrap()
}

#[test]
fn wildcard_yields_every_top_level_value() {
    let source = "module Main exposing (..)\none=1\ntwo=2";
    let tree = elm(source);
    assert_eq!(get_explicit_exposed_values(&tree, source).unwrap(), None);
    assert_eq!(get_all_exposed_values(&tree, source).unwrap(), vec!["one", "two"]);
    assert_eq!(
        get_all_exposed_values(&tree, source).unwrap(),
        get_all_top_level_values(&tree, source).unwrap()
    );
}

#[test]
fn explicit_list_yields_only_what_it_names() {
    let source = "module Main exposing (one)\none=1\ntwo=2";
    let tree = elm(source);
    assert_eq!(get_all_exposed_values(&tree, source).unwrap(), vec!["one"]);
}

#[test]
fn wildcard_leaves_out_types_ports_and_nested_bindings() {
    let source = "port module Main exposing (..)

import Other exposing (other)

type Kind = Kind

type alias Name = String

port send : String -> Cmd msg

infix left 6 (+) = add

first : Int
first =
    let
        hidden = 1
    in
    hidden

hidden x y = x
";
    let tree = elm(source);
    assert_eq!(
        get_all_exposed_values(&tree, source).unwrap(),
        vec!["first", "hidden"]
    );
}

#[test]
fn explicit_list_keeps_order_and_duplicates() {
    let source = "module Main exposing (b, A(..), a, B, b)\na=1\nb=2";
    let tree = elm(source);
    assert_eq!(
        get_explicit_exposed_values(&tree, source).unwrap(),
        Some(vec!["b", "a", "b"])
    );
}

#[test]
fn comments_of_both_forms_never_count() {
    let source = "module Main exposing (int, Int, {- -}test, Test)";
    let tree = elm(source);
    assert_eq!(
        get_explicit_exposed_values(&tree, source).unwrap(),
        Some(vec!["int", "test"])
    );

    let source = "module Main exposing {- a -} ( {- b -} .. {- c -} ) -- d\n";
    let tree = elm(source);
    assert_eq!(get_explicit_exposed_values(&tree, source).unwrap(), None);

    let source = "-- first\n{- second -}\none = 1\n-- third\n{- fourth -}\ntwo = 2\n-- fifth\n";
    let tree = elm(source);
    assert_eq!(
        get_all_top_level_values(&tree, source).unwrap(),
        vec!["one", "two"]
    );
}

#[test]
fn annotated_value_counts_once() {
    let source = "f : Int\nf = 1\n";
    let tree = elm(source);
    assert_eq!(get_all_top_level_values(&tree, source).unwrap(), vec!["f"]);
}

#[test]
fn nested_binding_with_a_top_level_name_counts_once() {
    let source = "one =\n    let\n        two = 2\n    in\n    two\n\ntwo = 3\n";
    let tree = elm(source);
    assert_eq!(
        get_all_top_level_values(&tree, source).unwrap(),
        vec!["one", "two"]
    );
}

#[test]
fn walking_twice_yields_the_same() {
    let source = "module Main exposing (one, two)\none=1\ntwo=2";
    let tree = elm(source);
    assert_eq!(
        get_all_exposed_values(&tree, source).unwrap(),
        get_all_exposed_values(&tree, source).unwrap()
    );
}

#[test]
fn walk_fails_without_a_header() {
    let source = "one=1\ntwo=2";
    let tree = elm(source);
    assert!(matches!(
        get_explicit_exposed_values(&tree, source),
        Err(ExplicitExposedValuesError::ShouldHaveSibling(node)) if node.kind() == "value_declaration"
            && node.start_byte() == 6 && node.end_byte() == 11
    ));
    assert!(matches!(
        get_all_exposed_values(&tree, source),
        Err(ExplicitExposedValuesError::ShouldHaveSibling(_))
    ));
}

#[test]
fn walk_fails_on_an_empty_file() {
    let tree = elm("");
    assert!(matches!(
        get_explicit_exposed_values(&tree, ""),
        Err(ExplicitExposedValuesError::ShouldHaveChildren(node)) if node.kind() == "file"
    ));
    assert!(matches!(
        get_all_top_level_values(&tree, ""),
        Err(ExplicitExposedValuesError::ShouldHaveChildren(node)) if node.kind() == "file"
    ));
}

#[test]
fn walk_fails_on_comments_alone() {
    let source = "-- one\n-- two\n";
    let tree = elm(source);
    assert!(matches!(
        get_all_top_level_values(&tree, source),
        Err(ExplicitExposedValuesError::ShouldHaveSibling(node)) if node.kind() == "line_comment"
            && node.start_byte() == 7
    ));
}

#[test]
fn walk_refuses_an_unexpected_item() {
    let source = "module Main exposing ((+), one)\none=1";
    let tree = elm(source);
    assert!(matches!(
        get_explicit_exposed_values(&tree, source),
        Err(ExplicitExposedValuesError::UnexpectedNode(node)) if node.kind() == "exposed_operator"
    ));
}

#[test]
fn walk_refuses_a_span_outside_the_source() {
    let source = "module Main exposing (one)\none=1";
    let tree = elm(source);
    assert!(matches!(
        get_explicit_exposed_values(&tree, "module Main"),
        Err(ExplicitExposedValuesError::OutsideSource(node)) if node.kind() == "lower_case_identifier"
    ));
    assert!(matches!(
        get_all_top_level_values(&tree, "module"),
        Err(ExplicitExposedValuesError::OutsideSource(_))
    ));
}

#[test]
fn errors_in_words() {
    let tree = elm("one=1");
    let node = tree.root_node();
    assert_eq!(
        ExplicitExposedValuesError::UnexpectedNode(node).describe(),
        "unexpected node kind"
    );
    assert_eq!(
        ExplicitExposedValuesError::ShouldHaveSibling(node).describe(),
        "node should have had a next sibling"
    );
    assert_eq!(
        ExplicitExposedValuesError::ShouldHaveChildren(node).describe(),
        "node should have children"
    );
    assert_eq!(
        ExplicitExposedValuesError::OutsideSource(node).describe(),
        "node lies outside the source text"
    );
}

#[test]
fn child_lands_past_comments() {
    let source = "-- note\n{- more -}\none = 1\n";
    let tree = elm(source);
    let mut cursor = tree.walk();
    assert!(child(&mut cursor).is_ok());
    assert_eq!(cursor.node().kind(), "value_declaration");
}

#[test]
fn child_of_a_leaf_fails_and_stays() {
    let source = "one = 1\n";
    let tree = elm(source);
    let mut cursor = tree.walk();
    child(&mut cursor).unwrap();
    child(&mut cursor).unwrap();
    child(&mut cursor).unwrap();
    assert_eq!(cursor.node().kind(), "lower_case_identifier");
    assert!(matches!(
        child(&mut cursor),
        Err(ExplicitExposedValuesError::ShouldHaveChildren(node)) if node.kind() == "lower_case_identifier"
    ));
    assert_eq!(cursor.node().kind(), "lower_case_identifier");
}

#[test]
fn next_sibling_lands_past_comments() {
    let source = "one = 1\n-- note\n{- more -}\ntwo = 2\n-- end\n";
    let tree = elm(source);
    let mut cursor = tree.walk();
    child(&mut cursor).unwrap();
    assert_eq!(cursor.node().start_byte(), 0);
    next_sibling(&mut cursor).unwrap();
    assert_eq!(cursor.node().kind(), "value_declaration");
    assert_eq!(cursor.node().start_byte(), 27);
    assert!(matches!(
        next_sibling(&mut cursor),
        Err(ExplicitExposedValuesError::ShouldHaveSibling(node)) if node.kind() == "line_comment"
    ));
    assert_eq!(cursor.node().kind(), "line_comment");
}

#[test]
fn next_sibling_of_the_root_fails() {
    let tree = elm("one = 1\n");
    let mut cursor = tree.walk();
    assert!(matches!(
        next_sibling(&mut cursor),
        Err(ExplicitExposedValuesError::ShouldHaveSibling(node)) if node.kind() == "file"
    ));
    assert_eq!(cursor.node().kind(), "file");
}

#[test]
fn peek_head_returns_the_cursor() {
    let source = "one two = 1\n";
    let tree = elm(source);
    let mut cursor = tree.walk();
    child(&mut cursor).unwrap();
    let head = peek_head(&mut cursor, 2).unwrap();
    assert_eq!(head.kind(), "lower_case_identifier");
    assert_eq!(node_text(head, source).unwrap(), "one");
    assert_eq!(cursor.node().kind(), "value_declaration");
    let same = peek_head(&mut cursor, 0).unwrap();
    assert_eq!(same.kind(), "value_declaration");
    assert!(matches!(
        peek_head(&mut cursor, 9),
        Err(ExplicitExposedValuesError::ShouldHaveChildren(_))
    ));
    assert_eq!(cursor.node().kind(), "value_declaration");
}

#[test]
fn seek_child_finds_the_first_of_a_kind() {
    let source = "module Main exposing (..)\nimport A\none = 1\ntwo = 2\n";
    let tree = elm(source);
    let mut cursor = tree.walk();
    seek_child(&mut cursor, "value_declaration").unwrap();
    assert_eq!(node_text(cursor.node(), source).unwrap(), "one = 1");
    let mut cursor = tree.walk();
    assert!(matches!(
        seek_child(&mut cursor, "type_declaration"),
        Err(ExplicitExposedValuesError::ShouldHaveSibling(node)) if node.kind() == "value_declaration"
    ));
}

#[test]
fn check_kind_accepts_only_the_expected() {
    let tree = elm("one = 1\n");
    let node = tree.root_node();
    assert!(check_kind(node, "file").is_ok());
    assert!(matches!(
        check_kind(node, "module_declaration"),
        Err(ExplicitExposedValuesError::UnexpectedNode(found)) if found == node
    ));
}

#[test]
fn comment_kinds() {
    assert!(is_comment_kind("line_comment"));
    assert!(is_comment_kind("block_comment"));
    assert!(!is_comment_kind("comment"));
    assert!(!is_comment_kind("value_declaration"));
}
