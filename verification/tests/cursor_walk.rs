use tree_sitter::{Parser, Tree};

fn tree_from_elm(source_code: &str) -> Tree {
    let mut parser = Parser::new();
    let language = tree_sitter_elm::language();
    parser.set_language(language).unwrap();
    parser.parse(source_code, None).unwrap()
}

#[test]
fn smoke() {
    let source_code = "test : Test.Test";
    let tree = tree_from_elm(source_code);
    let root_node = tree.root_node();

    assert_eq!(root_node.kind(), "file");
    assert_eq!(root_node.start_position().column, 0);
    assert_eq!(root_node.end_position().column, 16);
}

#[test]
fn get_explicit_exposed_values() {
    let helper = |source: &str, expected: &Option<Vec<&str>>| {
        let tree = tree_from_elm(source);
        assert_eq!(
            elm_exposing::get_explicit_exposed_values(&tree, source)
                .unwrap()
                .as_ref(),
            expected.as_ref()
        );
    };

    helper("module Main exposing (..)", &None);
    helper("module Main.Pain exposing (..)", &None);
    helper("port module Main.Pain exposing (Int)", &Some(vec![]));
    helper("port module Main.Pain exposing (int)", &Some(vec!["int"]));
    helper(
        "port module Main.Pain exposing (int, Int, test, Test)",
        &Some(vec!["int", "test"]),
    );
    helper(
        "port module Main.Pain exposing (int, Int, {- -}test, Test)",
        &Some(vec!["int", "test"]),
    );
    helper(
        "port module Main.Pain exposing (int, Int, -- comment
    test, Test)",
        &Some(vec!["int", "test"]),
    );
    helper(
        "port module Main.Pain exposing (int, Int,
    test, Test)",
        &Some(vec!["int", "test"]),
    );
    helper(
        "-- some comment
module Main.Pain exposing (int, Int,
    test, Test)",
        &Some(vec!["int", "test"]),
    );
    helper(
        r#"
module{--}Main {-
    {{-}-}-
-}exposing--{-
    ({--}one{--}
    ,
    -- notExport
    two{-{-{-{--}-}{--}-}{-{--}-}-},Type{--}({--}..{--}){--}
    ,    three
    )--
"#,
        &Some(vec!["one", "two", "three"]),
    );
}

#[test]
fn get_all_top_level_values() {
    let helper = |source: &str, expected: &Vec<&str>| {
        let tree = tree_from_elm(source);
        assert_eq!(
            &elm_exposing::get_all_top_level_values(&tree, source).unwrap(),
            expected
        );
    };

    helper("type Test = Thi", &vec![]);
    helper(
        "test = 3
differentTest: Test.Test
differentTest =
    w
",
        &vec!["test", "differentTest"],
    );
    helper(
        "
type Test = Igore

withNestedValues: Test.Test
withNestedValues =
    let
        shouldIgnore = Test.test
    in
    ()
",
        &vec!["withNestedValues"],
    );
    helper(
        "
type Test = Igore

withNestedValues: Test.Test
withNestedValues a =
    let
        shouldIgnore = Test.test
    in
    ()
",
        &vec!["withNestedValues"],
    );
    helper(
        r#"
module Main exposing ( ..)

one="\"{-"
two="""-}
notAThing = something
\"""
notAThing2 = something
"""
three = '"' {- "
notAThing3 = something
-}
four{--}=--{-
    1
five = something
--}
"#,
        &vec!["one", "two", "three", "four", "five"],
    );
}
