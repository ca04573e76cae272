//! The syntax tree as the contracts of this crate see it, and the kind tags
//! of the Elm grammar that the resolvers read.

use vstd::prelude::*;

verus! {

/// The header of a module.
pub const MODULE_DECLARATION: &'static str = "module_declaration";

/// The exposing clause of a header or of an import.
pub const EXPOSING_LIST: &'static str = "exposing_list";

/// The word `exposing`.
pub const EXPOSING: &'static str = "exposing";

/// An opening parenthesis.
pub const LEFT_PARENTHESIS: &'static str = "left_parenthesis";

/// A closing parenthesis.
pub const RIGHT_PARENTHESIS: &'static str = "right_parenthesis";

/// The two dots that expose everything.
pub const DOUBLE_DOT: &'static str = "double_dot";

/// A value named in an exposing list.
pub const EXPOSED_VALUE: &'static str = "exposed_value";

/// A type named in an exposing list.
pub const EXPOSED_TYPE: &'static str = "exposed_type";

/// A comma.
pub const COMMA: &'static str = "comma";

/// A comment that runs to the end of its line.
pub const LINE_COMMENT: &'static str = "line_comment";

/// A comment between `{-` and `-}`.
pub const BLOCK_COMMENT: &'static str = "block_comment";

/// The definition of a value or a function.
pub const VALUE_DECLARATION: &'static str = "value_declaration";

/// An identifier that begins in lower case, as the names of values do.
pub const LOWER_CASE_IDENTIFIER: &'static str = "lower_case_identifier";

/// One node of a concrete syntax tree: its kind tag, the half-open byte span
/// of the source it covers, and its children in source order.
pub struct Syntax {
    pub kind: Seq<char>,
    pub start: nat,
    pub end: nat,
    pub children: Seq<Syntax>,
}

impl Syntax {
    /// The node reached from `self` by taking, in turn, the child at each
    /// index of `path`.
    pub open spec fn at(self, path: Seq<nat>) -> Syntax
        decreases path.len(),
    {
        if path.len() == 0 {
            self
        } else {
            self.at(path.drop_last()).children[path.last() as int]
        }
    }
}

/// Whether a kind tag is that of a comment, of the line or of the block form.
pub open spec fn is_comment(kind: Seq<char>) -> bool {
    kind == LINE_COMMENT@ || kind == BLOCK_COMMENT@
}

/// Taking one more child after a path leads to that child of the node the
/// path leads to.
pub proof fn lemma_at_push(root: Syntax, path: Seq<nat>, index: nat)
    ensures
        root.at(path.push(index)) == root.at(path).children[index as int],
{
    assert(path.push(index).drop_last() =~= path);
}

/// No kind tag that the resolvers look for is a comment's, and the tags of
/// what stands between the parentheses of an exposing list differ from one
/// another and from that of the closing parenthesis.
pub proof fn lemma_kinds_differ()
    ensures
        !is_comment(MODULE_DECLARATION@),
        !is_comment(EXPOSING_LIST@),
        !is_comment(EXPOSING@),
        !is_comment(LEFT_PARENTHESIS@),
        !is_comment(RIGHT_PARENTHESIS@),
        !is_comment(DOUBLE_DOT@),
        !is_comment(EXPOSED_VALUE@),
        !is_comment(EXPOSED_TYPE@),
        !is_comment(COMMA@),
        !is_comment(VALUE_DECLARATION@),
        !is_comment(LOWER_CASE_IDENTIFIER@),
        EXPOSED_VALUE@ != EXPOSED_TYPE@,
        EXPOSED_VALUE@ != COMMA@,
        EXPOSED_VALUE@ != RIGHT_PARENTHESIS@,
        EXPOSED_TYPE@ != RIGHT_PARENTHESIS@,
        COMMA@ != RIGHT_PARENTHESIS@,
        DOUBLE_DOT@ != RIGHT_PARENTHESIS@,
        DOUBLE_DOT@ != EXPOSED_VALUE@,
        DOUBLE_DOT@ != EXPOSED_TYPE@,
        DOUBLE_DOT@ != COMMA@,
{
    reveal_strlit("module_declaration");
    reveal_strlit("exposing_list");
    reveal_strlit("exposing");
    reveal_strlit("left_parenthesis");
    reveal_strlit("right_parenthesis");
    reveal_strlit("double_dot");
    reveal_strlit("exposed_value");
    reveal_strlit("exposed_type");
    reveal_strlit("comma");
    reveal_strlit("line_comment");
    reveal_strlit("block_comment");
    reveal_strlit("value_declaration");
    reveal_strlit("lower_case_identifier");
    assert(LINE_COMMENT@.len() == 12 && LINE_COMMENT@[0] == 'l');
    assert(BLOCK_COMMENT@.len() == 13 && BLOCK_COMMENT@[0] == 'b');
    assert(MODULE_DECLARATION@.len() == 18);
    assert(EXPOSING_LIST@.len() == 13 && EXPOSING_LIST@[0] == 'e');
    assert(EXPOSING@.len() == 8);
    assert(LEFT_PARENTHESIS@.len() == 16);
    assert(RIGHT_PARENTHESIS@.len() == 17);
    assert(DOUBLE_DOT@.len() == 10);
    assert(EXPOSED_VALUE@.len() == 13 && EXPOSED_VALUE@[0] == 'e');
    assert(EXPOSED_TYPE@.len() == 12 && EXPOSED_TYPE@[0] == 'e');
    assert(COMMA@.len() == 5);
    assert(VALUE_DECLARATION@.len() == 17);
    assert(LOWER_CASE_IDENTIFIER@.len() == 21);
}

} // verus!
