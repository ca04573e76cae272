//! Candidate names by structural patterns matched against the whole tree.
//!
//! A file without a module header has no exposing clause to match, and so
//! yields no candidate at all.

use crate::handles::{compile, elm_query, first_captures, query_matches};
use crate::names::{attach, lemma_attach_none, lemma_attach_one, texts};
use crate::text::{slice, span_text};
use tree_sitter::{Query, QueryError, Tree};
use vstd::prelude::*;

verus! {

/// Finds the exposing clause of the module declaration.
pub const EXPOSING_LIST_PATTERN: &'static str =
    "(module_declaration exposing: (exposing_list) @list)";

/// Finds an opening parenthesis that `..` follows at once.
pub const DOUBLE_DOT_PATTERN: &'static str = "((left_parenthesis) . (double_dot))";

/// Finds every exposed value.
pub const EXPOSED_VALUE_PATTERN: &'static str = "(exposed_value) @val";

/// Finds the head identifier of every value declaration at the top of a file.
pub const TOP_LEVEL_VALUE_PATTERN: &'static str = "(file (value_declaration . (_ . (_) @name)))";

/// The end of the byte range that takes in a whole tree.
pub const WHOLE_TREE: usize = 0xffff_ffff;

/// Whether a text is one of the four patterns.
pub open spec fn is_fixed_pattern(pattern: Seq<char>) -> bool {
    pattern == EXPOSING_LIST_PATTERN@ || pattern == DOUBLE_DOT_PATTERN@ || pattern
        == EXPOSED_VALUE_PATTERN@ || pattern == TOP_LEVEL_VALUE_PATTERN@
}

/// Whether a query is what one of the four patterns compiles to.
pub open spec fn is_fixed_query(query: Query) -> bool {
    exists|pattern: Seq<char>|
        is_fixed_pattern(pattern) && #[trigger] elm_query(pattern) == Some(query)
}

/// The first of the four patterns that does not compile, if one does not.
pub open spec fn failing_pattern() -> Option<Seq<char>> {
    if elm_query(EXPOSING_LIST_PATTERN@) is None {
        Some(EXPOSING_LIST_PATTERN@)
    } else if elm_query(DOUBLE_DOT_PATTERN@) is None {
        Some(DOUBLE_DOT_PATTERN@)
    } else if elm_query(EXPOSED_VALUE_PATTERN@) is None {
        Some(EXPOSED_VALUE_PATTERN@)
    } else if elm_query(TOP_LEVEL_VALUE_PATTERN@) is None {
        Some(TOP_LEVEL_VALUE_PATTERN@)
    } else {
        None
    }
}

/// A pattern that the grammar refused, with what the grammar said of it.
#[derive(Debug)]
pub struct PatternError {
    pub pattern: &'static str,
    pub cause: QueryError,
}

/// A span of bytes that a match captured and that delimits no text of the
/// source it was matched against.
#[derive(Clone, Copy, Debug, PartialEq, Eq, Structural)]
pub struct OutsideSource {
    pub start: usize,
    pub end: usize,
}

/// The four patterns, compiled once and used for every file.
pub struct Patterns {
    exposing_list: Query,
    double_dot: Query,
    exposed_value: Query,
    top_level_value: Query,
}

impl Patterns {
    #[verifier::type_invariant]
    spec fn compiled(self) -> bool {
        &&& elm_query(EXPOSING_LIST_PATTERN@) == Some(self.exposing_list)
        &&& elm_query(DOUBLE_DOT_PATTERN@) == Some(self.double_dot)
        &&& elm_query(EXPOSED_VALUE_PATTERN@) == Some(self.exposed_value)
        &&& elm_query(TOP_LEVEL_VALUE_PATTERN@) == Some(self.top_level_value)
    }

    /// Compiles the four patterns, or names the first that the grammar
    /// refuses.
    pub fn new() -> (patterns: Result<Patterns, PatternError>)
        ensures
            match patterns {
                Ok(_) => failing_pattern() is None,
                Err(error) => failing_pattern() == Some(error.pattern@),
            },
    {
        let exposing_list = match compile(EXPOSING_LIST_PATTERN) {
            Ok(query) => query,
            Err(cause) => {
                return Err(PatternError { pattern: EXPOSING_LIST_PATTERN, cause });
            },
        };
        let double_dot = match compile(DOUBLE_DOT_PATTERN) {
            Ok(query) => query,
            Err(cause) => {
                return Err(PatternError { pattern: DOUBLE_DOT_PATTERN, cause });
            },
        };
        let exposed_value = match compile(EXPOSED_VALUE_PATTERN) {
            Ok(query) => query,
            Err(cause) => {
                return Err(PatternError { pattern: EXPOSED_VALUE_PATTERN, cause });
            },
        };
        let top_level_value = match compile(TOP_LEVEL_VALUE_PATTERN) {
            Ok(query) => query,
            Err(cause) => {
                return Err(PatternError { pattern: TOP_LEVEL_VALUE_PATTERN, cause });
            },
        };
        Ok(Patterns { exposing_list, double_dot, exposed_value, top_level_value })
    }
}

/// What a pattern finds in a tree between two byte offsets.
pub open spec fn found(pattern: Seq<char>, tree: Tree, start: usize, end: usize) -> Seq<
    Option<(usize, usize)>,
> {
    query_matches(elm_query(pattern)->Some_0, tree, start, end)
}

/// The span that the first of some matches captured, if there is a match
/// and it captured one.
pub open spec fn first_span(matches: Seq<Option<(usize, usize)>>) -> Option<(usize, usize)> {
    if matches.len() == 0 {
        None
    } else {
        matches[0]
    }
}

/// The texts of the source that the matches captured, in the order of the
/// matches; a match that captured nothing yields no text. The first span that
/// delimits no text of the source is a fault.
pub open spec fn captured_names(matches: Seq<Option<(usize, usize)>>, source: Seq<char>) -> Result<
    Seq<Seq<char>>,
    OutsideSource,
>
    decreases matches.len(),
{
    if matches.len() == 0 {
        Ok(Seq::empty())
    } else {
        match matches[0] {
            None => captured_names(matches.drop_first(), source),
            Some((start, end)) => match span_text(source, start as int, end as int) {
                Some(name) => attach(seq![name], captured_names(matches.drop_first(), source)),
                None => Err(OutsideSource { start, end }),
            },
        }
    }
}

/// The byte span of the exposing clause of a tree, if it has one.
pub open spec fn exposing_span(tree: Tree) -> Option<(usize, usize)> {
    first_span(found(EXPOSING_LIST_PATTERN@, tree, 0, WHOLE_TREE))
}

/// What the exposing clause within the given span exposes by name; `None`
/// where it exposes everything.
pub open spec fn explicit_by_query(tree: Tree, source: Seq<char>, start: usize, end: usize) -> Result<
    Option<Seq<Seq<char>>>,
    OutsideSource,
> {
    if found(DOUBLE_DOT_PATTERN@, tree, start, end).len() > 0 {
        Ok(None)
    } else {
        match captured_names(found(EXPOSED_VALUE_PATTERN@, tree, start, end), source) {
            Ok(names) => Ok(Some(names)),
            Err(fault) => Err(fault),
        }
    }
}

/// The names of the values bound at the top level of a tree.
pub open spec fn top_level_by_query(tree: Tree, source: Seq<char>) -> Result<
    Seq<Seq<char>>,
    OutsideSource,
> {
    captured_names(found(TOP_LEVEL_VALUE_PATTERN@, tree, 0, WHOLE_TREE), source)
}

/// The candidate names of a tree: none where it has no exposing clause;
/// else what the clause exposes by name, or, where it exposes everything,
/// the values bound at the top level of the whole tree.
pub open spec fn candidates_by_query(tree: Tree, source: Seq<char>) -> Result<
    Seq<Seq<char>>,
    OutsideSource,
> {
    match exposing_span(tree) {
        None => Ok(Seq::empty()),
        Some((start, end)) => match explicit_by_query(tree, source, start, end) {
            Ok(Some(names)) => Ok(names),
            Ok(None) => top_level_by_query(tree, source),
            Err(fault) => Err(fault),
        },
    }
}

/// The span that the first of some matches captured.
pub fn first_capture(matches: &Vec<Option<(usize, usize)>>) -> (span: Option<(usize, usize)>)
    ensures
        span == first_span(matches@),
{
    if matches.len() == 0 {
        None
    } else {
        matches[0]
    }
}

/// The texts of the source that some matches captured, in their order.
pub fn names_of_captures<'a>(matches: &Vec<Option<(usize, usize)>>, source: &'a str) -> (names:
    Result<Vec<&'a str>, OutsideSource>)
    ensures
        match names {
            Ok(names) => captured_names(matches@, source@) == Ok::<Seq<Seq<char>>, OutsideSource>(
                texts(names@),
            ),
            Err(fault) => captured_names(matches@, source@) == Err::<
                Seq<Seq<char>>,
                OutsideSource,
            >(fault),
        },
{
    let mut names: Vec<&'a str> = Vec::new();
    let mut at: usize = 0;
    proof {
        assert(texts(names@) =~= Seq::<Seq<char>>::empty());
        assert(matches@.skip(0) =~= matches@);
        lemma_attach_none(captured_names(matches@, source@));
    }
    while at < matches.len()
        invariant
            at <= matches.len(),
            captured_names(matches@, source@) == attach(
                texts(names@),
                captured_names(matches@.skip(at as int), source@),
            ),
        decreases matches.len() - at,
    {
        proof {
            assert(matches@.skip(at as int).drop_first() =~= matches@.skip(at + 1));
        }
        if let Some((start, end)) = matches[at] {
            match slice(source, start, end) {
                Some(name) => {
                    proof {
                        lemma_attach_one(
                            texts(names@),
                            name@,
                            captured_names(matches@.skip(at + 1), source@),
                        );
                        assert(texts(names@.push(name)) =~= texts(names@).push(name@));
                    }
                    names.push(name);
                },
                None => {
                    return Err(OutsideSource { start, end });
                },
            }
        }
        at += 1;
    }
    proof {
        assert(texts(names@) + Seq::<Seq<char>>::empty() =~= texts(names@));
    }
    Ok(names)
}

/// The byte span of the exposing clause of the module declaration, if the
/// tree has one.
pub fn get_exposing_src_range(patterns: &Patterns, tree: &Tree) -> (range: Option<(usize, usize)>)
    ensures
        range == exposing_span(*tree),
{
    proof {
        use_type_invariant(patterns);
    }
    let matches = first_captures(&patterns.exposing_list, tree, 0, WHOLE_TREE);
    first_capture(&matches)
}

/// What the exposing clause within the given span exposes by name; `None`
/// where it reads `(..)` and so exposes everything.
pub fn get_explicit_exposed_values_query<'a>(
    patterns: &Patterns,
    tree: &Tree,
    source: &'a str,
    start: usize,
    end: usize,
) -> (exposed: Result<Option<Vec<&'a str>>, OutsideSource>)
    ensures
        match exposed {
            Ok(Some(names)) => explicit_by_query(*tree, source@, start, end) == Ok::<
                Option<Seq<Seq<char>>>,
                OutsideSource,
            >(Some(texts(names@))),
            Ok(None) => explicit_by_query(*tree, source@, start, end) == Ok::<
                Option<Seq<Seq<char>>>,
                OutsideSource,
            >(None),
            Err(fault) => explicit_by_query(*tree, source@, start, end) == Err::<
                Option<Seq<Seq<char>>>,
                OutsideSource,
            >(fault),
        },
{
    proof {
        use_type_invariant(patterns);
    }
    let wildcards = first_captures(&patterns.double_dot, tree, start, end);
    if wildcards.len() > 0 {
        return Ok(None);
    }
    let values = first_captures(&patterns.exposed_value, tree, start, end);
    match names_of_captures(&values, source) {
        Ok(names) => Ok(Some(names)),
        Err(fault) => Err(fault),
    }
}

/// The names of all values bound at the top level of a tree.
pub fn get_all_top_level_values_query<'a>(patterns: &Patterns, tree: &Tree, source: &'a str) -> (values:
    Result<Vec<&'a str>, OutsideSource>)
    ensures
        match values {
            Ok(names) => top_level_by_query(*tree, source@) == Ok::<Seq<Seq<char>>, OutsideSource>(
                texts(names@),
            ),
            Err(fault) => top_level_by_query(*tree, source@) == Err::<
                Seq<Seq<char>>,
                OutsideSource,
            >(fault),
        },
{
    proof {
        use_type_invariant(patterns);
    }
    let matches = first_captures(&patterns.top_level_value, tree, 0, WHOLE_TREE);
    names_of_captures(&matches, source)
}

/// The candidate names of a tree, by patterns alone.
pub fn get_all_exposed_values_query<'a>(patterns: &Patterns, tree: &Tree, source: &'a str) -> (values:
    Result<Vec<&'a str>, OutsideSource>)
    ensures
        match values {
            Ok(names) => candidates_by_query(*tree, source@) == Ok::<Seq<Seq<char>>, OutsideSource>(
                texts(names@),
            ),
            Err(fault) => candidates_by_query(*tree, source@) == Err::<
                Seq<Seq<char>>,
                OutsideSource,
            >(fault),
        },
{
    match get_exposing_src_range(patterns, tree) {
        None => {
            let names: Vec<&'a str> = Vec::new();
            proof {
                assert(texts(names@) =~= Seq::<Seq<char>>::empty());
            }
            Ok(names)
        },
        Some((start, end)) => match get_explicit_exposed_values_query(
            patterns,
            tree,
            source,
            start,
            end,
        ) {
            Ok(Some(names)) => Ok(names),
            Ok(None) => get_all_top_level_values_query(patterns, tree, source),
            Err(fault) => Err(fault),
        },
    }
}

} // verus!
