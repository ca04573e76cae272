//! The handles of `tree_sitter` and of `std::path` that this crate works
//! with, and what it takes on trust about them: nothing in this file is
//! proved.

use crate::query::is_fixed_pattern;
use crate::query::is_fixed_query;
use crate::syntax::Syntax;
use std::path::PathBuf;
use tree_sitter::{Node, Parser, Query, QueryCursor, QueryError, Tree, TreeCursor};
use vstd::prelude::*;

verus! {

/// `tree_sitter::Tree`: a syntax tree, seen through `tree_root` alone.
#[verifier::external_type_specification]
#[verifier::external_body]
pub struct ExTree(Tree);

/// `tree_sitter::TreeCursor`: a cursor on a tree, seen through `cursor_root`
/// and `cursor_path` alone.
#[verifier::external_type_specification]
#[verifier::external_body]
pub struct ExTreeCursor<'a>(TreeCursor<'a>);

/// `tree_sitter::Node`: a handle of one node, seen through `node_syntax`
/// alone.
#[verifier::external_type_specification]
#[verifier::external_body]
pub struct ExNode<'a>(Node<'a>);

/// `tree_sitter::Query`: a compiled pattern, carried as it is.
#[verifier::external_type_specification]
#[verifier::external_body]
pub struct ExQuery(Query);

/// `tree_sitter::QueryError`: why a pattern did not compile, carried as it
/// is.
#[verifier::external_type_specification]
#[verifier::external_body]
pub struct ExQueryError(QueryError);

/// `std::path::PathBuf`: the path of a file, carried as it is.
#[verifier::external_type_specification]
#[verifier::external_body]
pub struct ExPathBuf(PathBuf);

/// The root of the syntax tree that a `Tree` holds.
pub uninterp spec fn tree_root(tree: Tree) -> Syntax;

/// The root of the tree that a cursor walks.
pub uninterp spec fn cursor_root(cursor: TreeCursor) -> Syntax;

/// Where a cursor stands: the child indices that lead from the root of its
/// tree down to its current node.
pub uninterp spec fn cursor_path(cursor: TreeCursor) -> Seq<nat>;

/// The node that a `Node` handle refers to.
pub uninterp spec fn node_syntax(node: Node) -> Syntax;

/// The tree that the Elm grammar makes of a source text, if it makes one.
pub uninterp spec fn elm_tree(source: Seq<char>) -> Option<Tree>;

/// The query that a pattern compiles to under the Elm grammar, if it compiles.
pub uninterp spec fn elm_query(pattern: Seq<char>) -> Option<Query>;

/// What a query finds in a tree between two byte offsets: for each match, in
/// the order of the matches, the byte span of its first capture, if the match
/// captured anything.
pub uninterp spec fn query_matches(query: Query, tree: Tree, start: usize, end: usize) -> Seq<
    Option<(usize, usize)>,
>;

/// A path in words, as it is shown to a reader.
pub uninterp spec fn path_words(path: PathBuf) -> Seq<char>;

/// The node a cursor stands on.
pub open spec fn here(cursor: TreeCursor) -> Syntax {
    cursor_root(cursor).at(cursor_path(cursor))
}

/// The nodes among which a cursor moves sideways: the children of the parent
/// of its node, or the root alone where it stands on the root.
pub open spec fn siblings(cursor: TreeCursor) -> Seq<Syntax> {
    if cursor_path(cursor).len() == 0 {
        seq![cursor_root(cursor)]
    } else {
        cursor_root(cursor).at(cursor_path(cursor).drop_last()).children
    }
}

/// The place of a cursor's node among its siblings.
pub open spec fn index(cursor: TreeCursor) -> int {
    if cursor_path(cursor).len() == 0 {
        0
    } else {
        cursor_path(cursor).last() as int
    }
}

/// The path to the sibling at `index` of a cursor's node.
pub open spec fn sibling_path(cursor: TreeCursor, index: int) -> Seq<nat> {
    if cursor_path(cursor).len() == 0 {
        cursor_path(cursor)
    } else {
        cursor_path(cursor).drop_last().push(index as nat)
    }
}

/// `Tree::walk`: the new cursor walks the tree's root and stands on it.
pub assume_specification[ Tree::walk ](tree: &Tree) -> (cursor: TreeCursor<'_>)
    ensures
        cursor_root(cursor) == tree_root(*tree),
        cursor_path(cursor) == Seq::<nat>::empty(),
;

/// `TreeCursor::node`: a handle of the node the cursor stands on.
pub assume_specification<'a>[ TreeCursor::<'a>::node ](cursor: &TreeCursor<'a>) -> (node: Node<'a>)
    ensures
        node_syntax(node) == here(*cursor),
;

/// `TreeCursor::goto_first_child`: the cursor moves to the first child of its
/// node and `true` comes back, or the node has no child, the cursor stays
/// and `false` comes back.
pub assume_specification<'a>[ TreeCursor::<'a>::goto_first_child ](
    cursor: &mut TreeCursor<'a>,
) -> (moved: bool)
    ensures
        cursor_root(*final(cursor)) == cursor_root(*old(cursor)),
        moved == (here(*old(cursor)).children.len() > 0),
        cursor_path(*final(cursor)) == if moved {
            cursor_path(*old(cursor)).push(0)
        } else {
            cursor_path(*old(cursor))
        },
;

/// `TreeCursor::goto_next_sibling`: the cursor moves to the sibling that
/// follows its node and `true` comes back, or none follows, the cursor stays
/// and `false` comes back.
pub assume_specification<'a>[ TreeCursor::<'a>::goto_next_sibling ](
    cursor: &mut TreeCursor<'a>,
) -> (moved: bool)
    ensures
        cursor_root(*final(cursor)) == cursor_root(*old(cursor)),
        moved == (index(*old(cursor)) + 1 < siblings(*old(cursor)).len()),
        cursor_path(*final(cursor)) == if moved {
            sibling_path(*old(cursor), index(*old(cursor)) + 1)
        } else {
            cursor_path(*old(cursor))
        },
;

/// `TreeCursor::goto_parent`: the cursor moves to the parent of its node and
/// `true` comes back, or it stands on the root, stays and `false` comes back.
pub assume_specification<'a>[ TreeCursor::<'a>::goto_parent ](cursor: &mut TreeCursor<'a>) -> (moved:
    bool)
    ensures
        cursor_root(*final(cursor)) == cursor_root(*old(cursor)),
        moved == (cursor_path(*old(cursor)).len() > 0),
        cursor_path(*final(cursor)) == if moved {
            cursor_path(*old(cursor)).drop_last()
        } else {
            cursor_path(*old(cursor))
        },
;

/// `Node::kind`: the node's kind tag.
pub assume_specification<'a>[ Node::<'a>::kind ](node: &Node<'a>) -> (kind: &'static str)
    ensures
        kind@ == node_syntax(*node).kind,
;

/// `Node::start_byte`: the offset of the node's first byte.
pub assume_specification<'a>[ Node::<'a>::start_byte ](node: &Node<'a>) -> (start: usize)
    ensures
        start == node_syntax(*node).start,
;

/// `Node::end_byte`: the offset just past the node's last byte.
pub assume_specification<'a>[ Node::<'a>::end_byte ](node: &Node<'a>) -> (end: usize)
    ensures
        end == node_syntax(*node).end,
;

/// Makes a `Parser`, gives it the Elm grammar with `Parser::set_language` and
/// has it read `source` with `Parser::parse`. The same text gives the same
/// tree; whether a tree comes back is the grammar's to say.
#[verifier::external_body]
pub(crate) fn parse_elm(source: &str) -> (tree: Option<Tree>)
    ensures
        tree == elm_tree(source@),
{
    let mut parser = Parser::new();
    match parser.set_language(tree_sitter_elm::language()) {
        Ok(()) => parser.parse(source, None),
        Err(_) => None,
    }
}

/// `Query::new` with the Elm grammar, for one of the patterns of this crate.
/// The same pattern gives the same query; whether it compiles is the grammar's
/// to say. Other patterns are left out: on some that do not compile,
/// `Query::new` panics while it words the error.
#[verifier::external_body]
pub(crate) fn compile(pattern: &str) -> (query: Result<Query, QueryError>)
    requires
        is_fixed_pattern(pattern@),
    ensures
        match query {
            Ok(q) => elm_query(pattern@) == Some(q),
            Err(_) => elm_query(pattern@) is None,
        },
{
    Query::new(tree_sitter_elm::language(), pattern)
}

/// `QueryCursor::matches` over a whole tree, after `QueryCursor::set_byte_range`
/// with the two offsets: the byte span of the first capture of each match, in
/// the order of the matches. The query is one of this crate's, none of which
/// has a predicate: on a query with predicates a match can panic.
#[verifier::external_body]
pub(crate) fn first_captures(query: &Query, tree: &Tree, start: usize, end: usize) -> (spans: Vec<
    Option<(usize, usize)>,
>)
    requires
        is_fixed_query(*query),
    ensures
        spans@ == query_matches(*query, *tree, start, end),
{
    let mut cursor = QueryCursor::new();
    cursor.set_byte_range(start, end);
    cursor
        .matches(query, tree.root_node(), |_| &[])
        .map(|m| m.captures.first().map(|c| (c.node.start_byte(), c.node.end_byte())))
        .collect()
}

/// `Path::display`, written out: the path in words. The same path gives
/// the same words.
#[verifier::external_body]
pub(crate) fn path_text(path: &PathBuf) -> (words: String)
    ensures
        words@ == path_words(*path),
{
    format!("{}", path.display())
}

} // verus!
