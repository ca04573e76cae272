//! What a module header exposes, found by walking a cursor from the root of
//! the file to the exposing list.

use crate::cursor::{
    at_item, check_kind, child, head, lemma_advanced, lemma_entered, lemma_exhausted,
    lemma_not_entered, next_sibling, peek_head, solid,
};
use crate::error::ExplicitExposedValuesError;
use crate::error::Fault;
use crate::handles::{cursor_path, cursor_root, here, index, tree_root};
use crate::names::{attach, lemma_attach_none, lemma_attach_one, node_text, text_of, texts};
use crate::syntax::{
    Syntax, COMMA, DOUBLE_DOT, EXPOSED_TYPE, EXPOSED_VALUE, EXPOSING, EXPOSING_LIST,
    LEFT_PARENTHESIS, LOWER_CASE_IDENTIFIER, MODULE_DECLARATION, RIGHT_PARENTHESIS,
};
use crate::text::same_text;
use tree_sitter::{Tree, TreeCursor};
use vstd::prelude::*;

verus! {

/// The first of `items` that has the given kind.
pub open spec fn first_of_kind(items: Seq<Syntax>, kind: Seq<char>) -> Option<Syntax>
    decreases items.len(),
{
    if items.len() == 0 {
        None
    } else if items[0].kind == kind {
        Some(items[0])
    } else {
        first_of_kind(items.drop_first(), kind)
    }
}

/// The first child of `node` that has the given kind, or the fault of a
/// node without children, or of children that end before the kind is found.
pub open spec fn child_of_kind(node: Syntax, kind: Seq<char>) -> Result<Syntax, Fault> {
    if node.children.len() == 0 {
        Err(Fault::ShouldHaveChildren(node))
    } else {
        match first_of_kind(solid(node.children), kind) {
            Some(found) => Ok(found),
            None => Err(Fault::ShouldHaveSibling(node.children.last())),
        }
    }
}

/// The name that an exposed value carries: the text of its first child,
/// which is to be a lower-case identifier.
pub open spec fn value_name(item: Syntax, source: Seq<char>) -> Result<Seq<char>, Fault> {
    match head(item, 1) {
        Err(fault) => Err(fault),
        Ok(identifier) => if identifier.kind == LOWER_CASE_IDENTIFIER@ {
            text_of(identifier, source)
        } else {
            Err(Fault::UnexpectedNode(identifier))
        },
    }
}

/// The names of the exposed values among `items`, up to the closing
/// parenthesis. Exposed types and commas are passed over; any other item
/// before the parenthesis is unexpected, and a list that ends without the
/// parenthesis lacks a sibling after `last`, its last node.
pub open spec fn exposed_names(items: Seq<Syntax>, last: Syntax, source: Seq<char>) -> Result<
    Seq<Seq<char>>,
    Fault,
>
    decreases items.len(),
{
    if items.len() == 0 {
        Err(Fault::ShouldHaveSibling(last))
    } else if items[0].kind == EXPOSED_VALUE@ {
        match value_name(items[0], source) {
            Ok(name) => attach(seq![name], exposed_names(items.drop_first(), last, source)),
            Err(fault) => Err(fault),
        }
    } else if items[0].kind == EXPOSED_TYPE@ || items[0].kind == COMMA@ {
        exposed_names(items.drop_first(), last, source)
    } else if items[0].kind == RIGHT_PARENTHESIS@ {
        Ok(Seq::empty())
    } else {
        Err(Fault::UnexpectedNode(items[0]))
    }
}

/// The names of an explicit list as the outcome of reading a header.
pub open spec fn listed(names: Result<Seq<Seq<char>>, Fault>) -> Result<
    Option<Seq<Seq<char>>>,
    Fault,
> {
    match names {
        Ok(names) => Ok(Some(names)),
        Err(fault) => Err(fault),
    }
}

/// What an exposing list says. With its comments left out it is to read
/// `exposing`, an opening parenthesis, and then either `..` and the closing
/// parenthesis, which exposes everything and yields `None`, or the exposed
/// items up to the closing parenthesis, which yields the names of the values
/// among them.
pub open spec fn exposing_clause(list: Syntax, source: Seq<char>) -> Result<
    Option<Seq<Seq<char>>>,
    Fault,
> {
    let items = solid(list.children);
    let last = list.children.last();
    if list.children.len() == 0 {
        Err(Fault::ShouldHaveChildren(list))
    } else if items.len() == 0 {
        Err(Fault::ShouldHaveSibling(last))
    } else if items[0].kind != EXPOSING@ {
        Err(Fault::UnexpectedNode(items[0]))
    } else if items.len() == 1 {
        Err(Fault::ShouldHaveSibling(last))
    } else if items[1].kind != LEFT_PARENTHESIS@ {
        Err(Fault::UnexpectedNode(items[1]))
    } else if items.len() == 2 {
        Err(Fault::ShouldHaveSibling(last))
    } else if items[2].kind == DOUBLE_DOT@ {
        if items.len() == 3 {
            Err(Fault::ShouldHaveSibling(last))
        } else if items[3].kind == RIGHT_PARENTHESIS@ {
            Ok(None)
        } else {
            Err(Fault::UnexpectedNode(items[3]))
        }
    } else {
        listed(exposed_names(items.skip(2), last, source))
    }
}

/// What the header of a file exposes: the exposing clause of the exposing
/// list of the module declaration, each found as the first child of its kind.
pub open spec fn explicit_exposed(root: Syntax, source: Seq<char>) -> Result<
    Option<Seq<Seq<char>>>,
    Fault,
> {
    match child_of_kind(root, MODULE_DECLARATION@) {
        Err(fault) => Err(fault),
        Ok(header) => match child_of_kind(header, EXPOSING_LIST@) {
            Err(fault) => Err(fault),
            Ok(list) => exposing_clause(list, source),
        },
    }
}

/// The texts of an optional list of names.
pub open spec fn optional_texts(names: Option<Vec<&str>>) -> Option<Seq<Seq<char>>> {
    match names {
        Some(list) => Some(texts(list@)),
        None => None,
    }
}

/// Moves a cursor to the first child of its node that has the given kind.
///
/// Where the node has no children the cursor stays; where none of them has
/// the kind the cursor rests on the last of them.
pub fn seek_child<'b>(cursor: &mut TreeCursor<'b>, kind: &'static str) -> (found: Result<
    (),
    ExplicitExposedValuesError<'b>,
>)
    ensures
        cursor_root(*final(cursor)) == cursor_root(*old(cursor)),
        match found {
            Ok(()) => {
                &&& child_of_kind(here(*old(cursor)), kind@) == Ok::<Syntax, Fault>(
                    here(*final(cursor)),
                )
                &&& cursor_path(*final(cursor)).len() == cursor_path(*old(cursor)).len() + 1
                &&& cursor_path(*final(cursor)).drop_last() == cursor_path(*old(cursor))
            },
            Err(error) => {
                &&& child_of_kind(here(*old(cursor)), kind@) == Err::<Syntax, Fault>(error@)
                &&& cursor_path(*final(cursor)) == if error@ is ShouldHaveChildren {
                    cursor_path(*old(cursor))
                } else {
                    cursor_path(*old(cursor)).push(
                        (here(*old(cursor)).children.len() - 1) as nat,
                    )
                }
            },
        },
{
    let ghost start = *cursor;
    let ghost root = cursor_root(start);
    let ghost up = cursor_path(start);
    let ghost node = here(start);
    match child(cursor) {
        Ok(()) => {},
        Err(error) => {
            proof {
                lemma_not_entered(node);
            }
            return Err(error);
        },
    }
    let ghost rest = solid(node.children);
    proof {
        lemma_entered(start, *cursor);
    }
    loop
        invariant
            at_item(*cursor, root, up, rest),
            root == cursor_root(*old(cursor)),
            up == cursor_path(*old(cursor)),
            node == here(*old(cursor)),
            node == root.at(up),
            node.children.len() > 0,
            first_of_kind(solid(node.children), kind@) == first_of_kind(rest, kind@),
        decreases rest.len(),
    {
        if same_text(cursor.node().kind(), kind) {
            proof {
                assert(up.push(index(*cursor) as nat).drop_last() =~= up);
            }
            return Ok(());
        }
        let ghost before = *cursor;
        match next_sibling(cursor) {
            Ok(()) => {
                proof {
                    lemma_advanced(before, *cursor, root, up, rest);
                    rest = rest.drop_first();
                }
            },
            Err(error) => {
                proof {
                    lemma_exhausted(before, *cursor, root, up, rest);
                    assert(first_of_kind(rest.drop_first(), kind@) is None);
                }
                return Err(error);
            },
        }
    }
}

/// The values that the module header of a file exposes by name, in the
/// order of the exposing list; `None` where the header reads `exposing (..)`
/// and so exposes every top-level value.
pub fn get_explicit_exposed_values<'a>(tree: &'a Tree, source: &'a str) -> (exposed: Result<
    Option<Vec<&'a str>>,
    ExplicitExposedValuesError<'a>,
>)
    ensures
        match exposed {
            Ok(names) => explicit_exposed(tree_root(*tree), source@) == Ok::<
                Option<Seq<Seq<char>>>,
                Fault,
            >(optional_texts(names)),
            Err(error) => explicit_exposed(tree_root(*tree), source@) == Err::<
                Option<Seq<Seq<char>>>,
                Fault,
            >(error@),
        },
{
    let mut cursor = tree.walk();
    match seek_child(&mut cursor, MODULE_DECLARATION) {
        Ok(()) => {},
        Err(error) => {
            return Err(error);
        },
    }
    match seek_child(&mut cursor, EXPOSING_LIST) {
        Ok(()) => {},
        Err(error) => {
            return Err(error);
        },
    }
    let ghost root = cursor_root(cursor);
    let ghost up = cursor_path(cursor);
    let ghost list = here(cursor);
    let ghost items = solid(list.children);
    let ghost last = list.children.last();
    let ghost outer = cursor;
    match child(&mut cursor) {
        Ok(()) => {},
        Err(error) => {
            proof {
                lemma_not_entered(list);
            }
            return Err(error);
        },
    }
    proof {
        lemma_entered(outer, cursor);
    }
    match check_kind(cursor.node(), EXPOSING) {
        Ok(()) => {},
        Err(error) => {
            return Err(error);
        },
    }
    let ghost before = cursor;
    match next_sibling(&mut cursor) {
        Ok(()) => {},
        Err(error) => {
            proof {
                lemma_exhausted(before, cursor, root, up, items);
            }
            return Err(error);
        },
    }
    proof {
        lemma_advanced(before, cursor, root, up, items);
    }
    match check_kind(cursor.node(), LEFT_PARENTHESIS) {
        Ok(()) => {},
        Err(error) => {
            return Err(error);
        },
    }
    let ghost before = cursor;
    match next_sibling(&mut cursor) {
        Ok(()) => {},
        Err(error) => {
            proof {
                lemma_exhausted(before, cursor, root, up, items.drop_first());
            }
            return Err(error);
        },
    }
    let ghost entries = items.skip(2);
    proof {
        lemma_advanced(before, cursor, root, up, items.drop_first());
        assert(items.drop_first().drop_first() =~= entries);
    }
    if same_text(cursor.node().kind(), DOUBLE_DOT) {
        let ghost before = cursor;
        match next_sibling(&mut cursor) {
            Ok(()) => {},
            Err(error) => {
                proof {
                    lemma_exhausted(before, cursor, root, up, entries);
                }
                return Err(error);
            },
        }
        proof {
            lemma_advanced(before, cursor, root, up, entries);
        }
        match check_kind(cursor.node(), RIGHT_PARENTHESIS) {
            Ok(()) => Ok(None),
            Err(error) => Err(error),
        }
    } else {
        let mut names: Vec<&'a str> = Vec::new();
        let ghost rest = entries;
        let ghost goal = explicit_exposed(tree_root(*tree), source@);
        proof {
            lemma_attach_none(exposed_names(entries, last, source@));
            assert(texts(names@) =~= Seq::<Seq<char>>::empty());
            assert(goal == listed(exposed_names(entries, last, source@)));
        }
        loop
            invariant
                goal == explicit_exposed(tree_root(*tree), source@),
                goal == listed(exposed_names(entries, last, source@)),
                at_item(cursor, root, up, rest),
                last == root.at(up).children.last(),
                exposed_names(entries, last, source@) == attach(
                    texts(names@),
                    exposed_names(rest, last, source@),
                ),
            ensures
                at_item(cursor, root, up, rest),
                exposed_names(entries, last, source@) == attach(
                    texts(names@),
                    exposed_names(rest, last, source@),
                ),
                rest[0].kind != EXPOSED_VALUE@,
                rest[0].kind != EXPOSED_TYPE@,
                rest[0].kind != COMMA@,
            decreases rest.len(),
        {
            let node = cursor.node();
            let kind = node.kind();
            if same_text(kind, EXPOSED_VALUE) {
                let identifier = match peek_head(&mut cursor, 1) {
                    Ok(identifier) => identifier,
                    Err(error) => {
                        return Err(error);
                    },
                };
                match check_kind(identifier, LOWER_CASE_IDENTIFIER) {
                    Ok(()) => {},
                    Err(error) => {
                        return Err(error);
                    },
                }
                let name = match node_text(identifier, source) {
                    Ok(name) => name,
                    Err(error) => {
                        return Err(error);
                    },
                };
                proof {
                    lemma_attach_one(
                        texts(names@),
                        name@,
                        exposed_names(rest.drop_first(), last, source@),
                    );
                    assert(texts(names@.push(name)) =~= texts(names@).push(name@));
                }
                names.push(name);
            } else if same_text(kind, EXPOSED_TYPE) || same_text(kind, COMMA) {
            } else {
                break ;
            }
            let ghost before = cursor;
            match next_sibling(&mut cursor) {
                Ok(()) => {
                    proof {
                        lemma_advanced(before, cursor, root, up, rest);
                        rest = rest.drop_first();
                    }
                },
                Err(error) => {
                    proof {
                        lemma_exhausted(before, cursor, root, up, rest);
                    }
                    return Err(error);
                },
            }
        }
        match check_kind(cursor.node(), RIGHT_PARENTHESIS) {
            Ok(()) => {
                proof {
                    assert(texts(names@) + Seq::<Seq<char>>::empty() =~= texts(names@));
                }
                Ok(Some(names))
            },
            Err(error) => Err(error),
        }
    }
}

} // verus!
