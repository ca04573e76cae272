//! The values that a file binds at its top level, found by walking a cursor
//! over the children of the root.

use crate::cursor::{
    at_item, child, head, lemma_advanced, lemma_entered, lemma_exhausted, lemma_not_entered,
    next_sibling, peek_head, solid,
};
use crate::error::ExplicitExposedValuesError;
use crate::error::Fault;
use crate::exposing::{explicit_exposed, get_explicit_exposed_values};
use crate::handles::{cursor_path, tree_root};
use crate::names::{attach, lemma_attach_none, lemma_attach_one, node_text, text_of, texts};
use crate::syntax::{Syntax, VALUE_DECLARATION};
use crate::text::same_text;
use tree_sitter::Tree;
use vstd::prelude::*;

verus! {

/// The name that a value declaration binds: the text of the head of its
/// left-hand side, which is the first child of its first child.
pub open spec fn binding_name(declaration: Syntax, source: Seq<char>) -> Result<Seq<char>, Fault> {
    match head(declaration, 2) {
        Ok(identifier) => text_of(identifier, source),
        Err(fault) => Err(fault),
    }
}

/// The names that the value declarations among `items` bind, in order.
/// Items of any other kind bind nothing.
pub open spec fn declared_names(items: Seq<Syntax>, source: Seq<char>) -> Result<
    Seq<Seq<char>>,
    Fault,
>
    decreases items.len(),
{
    if items.len() == 0 {
        Ok(Seq::empty())
    } else if items[0].kind == VALUE_DECLARATION@ {
        match binding_name(items[0], source) {
            Ok(name) => attach(seq![name], declared_names(items.drop_first(), source)),
            Err(fault) => Err(fault),
        }
    } else {
        declared_names(items.drop_first(), source)
    }
}

/// The names of the values that a file binds at its top level: those of the
/// value declarations among the children of its root. A root without
/// children, or with comments alone, is a fault.
pub open spec fn top_level_values(root: Syntax, source: Seq<char>) -> Result<
    Seq<Seq<char>>,
    Fault,
> {
    if root.children.len() == 0 {
        Err(Fault::ShouldHaveChildren(root))
    } else if solid(root.children).len() == 0 {
        Err(Fault::ShouldHaveSibling(root.children.last()))
    } else {
        declared_names(solid(root.children), source)
    }
}

/// The candidate names of a file: what its header exposes by name, or, where
/// the header exposes everything, the values bound at the top level. Never
/// both.
pub open spec fn all_exposed(root: Syntax, source: Seq<char>) -> Result<Seq<Seq<char>>, Fault> {
    match explicit_exposed(root, source) {
        Ok(Some(names)) => Ok(names),
        Ok(None) => top_level_values(root, source),
        Err(fault) => Err(fault),
    }
}

/// Whether `values` is what the walk for the candidates of a file comes to:
/// the candidate names of the file in their order, or the fault met.
pub open spec fn walked(
    values: Result<Vec<&str>, ExplicitExposedValuesError>,
    root: Syntax,
    source: Seq<char>,
) -> bool {
    match values {
        Ok(names) => all_exposed(root, source) == Ok::<Seq<Seq<char>>, Fault>(texts(names@)),
        Err(error) => all_exposed(root, source) == Err::<Seq<Seq<char>>, Fault>(error@),
    }
}

/// The names of all values bound at the top level of a file, in source order.
pub fn get_all_top_level_values<'a>(tree: &'a Tree, source: &'a str) -> (values: Result<
    Vec<&'a str>,
    ExplicitExposedValuesError<'a>,
>)
    ensures
        match values {
            Ok(names) => top_level_values(tree_root(*tree), source@) == Ok::<
                Seq<Seq<char>>,
                Fault,
            >(texts(names@)),
            Err(error) => top_level_values(tree_root(*tree), source@) == Err::<
                Seq<Seq<char>>,
                Fault,
            >(error@),
        },
{
    let mut cursor = tree.walk();
    let ghost root = tree_root(*tree);
    let ghost up = cursor_path(cursor);
    let ghost outer = cursor;
    match child(&mut cursor) {
        Ok(()) => {},
        Err(error) => {
            proof {
                lemma_not_entered(root);
            }
            return Err(error);
        },
    }
    let ghost items = solid(root.children);
    let ghost rest = items;
    let mut names: Vec<&'a str> = Vec::new();
    proof {
        lemma_entered(outer, cursor);
        lemma_attach_none(declared_names(items, source@));
        assert(texts(names@) =~= Seq::<Seq<char>>::empty());
    }
    loop
        invariant
            root == tree_root(*tree),
            root.children.len() > 0,
            items == solid(root.children),
            items.len() > 0,
            at_item(cursor, root, up, rest),
            declared_names(items, source@) == attach(
                texts(names@),
                declared_names(rest, source@),
            ),
        decreases rest.len(),
    {
        let node = cursor.node();
        if same_text(node.kind(), VALUE_DECLARATION) {
            let identifier = match peek_head(&mut cursor, 2) {
                Ok(identifier) => identifier,
                Err(error) => {
                    return Err(error);
                },
            };
            let name = match node_text(identifier, source) {
                Ok(name) => name,
                Err(error) => {
                    return Err(error);
                },
            };
            proof {
                lemma_attach_one(texts(names@), name@, declared_names(rest.drop_first(), source@));
                assert(texts(names@.push(name)) =~= texts(names@).push(name@));
            }
            names.push(name);
        }
        let ghost before = cursor;
        match next_sibling(&mut cursor) {
            Ok(()) => {
                proof {
                    lemma_advanced(before, cursor, root, up, rest);
                    rest = rest.drop_first();
                }
            },
            Err(_) => {
                proof {
                    lemma_exhausted(before, cursor, root, up, rest);
                    assert(texts(names@) + Seq::<Seq<char>>::empty() =~= texts(names@));
                }
                return Ok(names);
            },
        }
    }
}

/// The candidate names of a file: the values that its header exposes by
/// name, or every value bound at the top level where the header exposes
/// everything.
pub fn get_all_exposed_values<'a>(tree: &'a Tree, source: &'a str) -> (values: Result<
    Vec<&'a str>,
    ExplicitExposedValuesError<'a>,
>)
    ensures
        walked(values, tree_root(*tree), source@),
{
    match get_explicit_exposed_values(tree, source) {
        Ok(Some(names)) => Ok(names),
        Ok(None) => get_all_top_level_values(tree, source),
        Err(error) => Err(error),
    }
}

} // verus!
