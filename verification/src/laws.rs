//! What holds of the two ways to the candidate names, whatever the file.

use crate::collect::{collected, owned_texts, tested, TestModule};
use crate::cursor::{head, lemma_solid_from, lemma_solid_unfold, solid};
use crate::error::ExplicitExposedValuesError;
use crate::error::Fault;
use crate::exposing::{
    child_of_kind, explicit_exposed, exposed_names, exposing_clause, first_of_kind, value_name,
};
use crate::names::texts;
use crate::query::{candidates_by_query, exposing_span, failing_pattern};
use crate::syntax::{
    is_comment, lemma_kinds_differ, Syntax, COMMA, DOUBLE_DOT, EXPOSED_TYPE, EXPOSED_VALUE,
    EXPOSING, EXPOSING_LIST, LEFT_PARENTHESIS, MODULE_DECLARATION, RIGHT_PARENTHESIS,
    VALUE_DECLARATION,
};
use crate::toplevel::{all_exposed, binding_name, declared_names, top_level_values, walked};
use std::path::PathBuf;
use tree_sitter::Tree;
use vstd::prelude::*;

verus! {

/// Whether the header of a file reads `exposing (..)`: the exposing list of
/// its module declaration holds, comments aside, `exposing`, an opening
/// parenthesis, `..` and a closing parenthesis.
pub open spec fn exposes_everything(root: Syntax) -> bool {
    &&& child_of_kind(root, MODULE_DECLARATION@) is Ok
    &&& child_of_kind(child_of_kind(root, MODULE_DECLARATION@)->Ok_0, EXPOSING_LIST@) is Ok
    &&& {
        let header = child_of_kind(root, MODULE_DECLARATION@)->Ok_0;
        let items = solid(child_of_kind(header, EXPOSING_LIST@)->Ok_0.children);
        &&& items.len() >= 4
        &&& items[0].kind == EXPOSING@
        &&& items[1].kind == LEFT_PARENTHESIS@
        &&& items[2].kind == DOUBLE_DOT@
        &&& items[3].kind == RIGHT_PARENTHESIS@
    }
}

/// The value declarations among some items.
pub open spec fn bindings(items: Seq<Syntax>) -> Seq<Syntax> {
    items.filter(|item: Syntax| item.kind == VALUE_DECLARATION@)
}

/// The names that the value declarations among some items bind, where each
/// of them binds one.
pub open spec fn names_bound(items: Seq<Syntax>, source: Seq<char>) -> Seq<Seq<char>> {
    bindings(items).map_values(|declaration: Syntax| binding_name(declaration, source)->Ok_0)
}

/// The exposed values among some items.
pub open spec fn values(items: Seq<Syntax>) -> Seq<Syntax> {
    items.filter(|item: Syntax| item.kind == EXPOSED_VALUE@)
}

/// The names of the exposed values among some items, where each of them
/// carries one.
pub open spec fn names_exposed(items: Seq<Syntax>, source: Seq<char>) -> Seq<Seq<char>> {
    values(items).map_values(|value: Syntax| value_name(value, source)->Ok_0)
}

/// A node with its comments taken out from among its children.
pub open spec fn bare(node: Syntax) -> Syntax {
    Syntax { kind: node.kind, start: node.start, end: node.end, children: solid(node.children) }
}

/// Whether two outcomes agree: both fail, or both succeed with the same.
pub open spec fn agree<T>(first: Result<T, Fault>, second: Result<T, Fault>) -> bool {
    match (first, second) {
        (Ok(one), Ok(other)) => one == other,
        (Err(_), Err(_)) => true,
        _ => false,
    }
}

/// The value declarations among some items, taken from the front.
proof fn lemma_bindings_unfold(items: Seq<Syntax>)
    ensures
        bindings(items) == if items.len() == 0 {
            Seq::<Syntax>::empty()
        } else if items[0].kind == VALUE_DECLARATION@ {
            seq![items[0]] + bindings(items.drop_first())
        } else {
            bindings(items.drop_first())
        },
{
    items.lemma_filter_eq_filter_alt(|item: Syntax| item.kind == VALUE_DECLARATION@);
}

/// The exposed values among some items, taken from the front.
proof fn lemma_values_unfold(items: Seq<Syntax>)
    ensures
        values(items) == if items.len() == 0 {
            Seq::<Syntax>::empty()
        } else if items[0].kind == EXPOSED_VALUE@ {
            seq![items[0]] + values(items.drop_first())
        } else {
            values(items.drop_first())
        },
{
    items.lemma_filter_eq_filter_alt(|item: Syntax| item.kind == EXPOSED_VALUE@);
}

/// Taking the comments out of a list that holds none changes nothing.
pub proof fn lemma_solid_twice(items: Seq<Syntax>)
    ensures
        solid(solid(items)) == solid(items),
    decreases items.len(),
{
    lemma_solid_unfold(items);
    if items.len() > 0 {
        lemma_solid_twice(items.drop_first());
        if !is_comment(items[0].kind) {
            let kept = seq![items[0]] + solid(items.drop_first());
            lemma_solid_unfold(kept);
            assert(kept.drop_first() =~= solid(items.drop_first()));
        }
    } else {
        lemma_solid_unfold(solid(items));
    }
}

/// No comment is a value declaration: the comments of a list hold none of
/// its bindings.
pub proof fn lemma_bindings_are_solid(items: Seq<Syntax>)
    ensures
        bindings(solid(items)) == bindings(items),
    decreases items.len(),
{
    lemma_kinds_differ();
    lemma_solid_unfold(items);
    lemma_bindings_unfold(items);
    if items.len() > 0 {
        lemma_bindings_are_solid(items.drop_first());
        if !is_comment(items[0].kind) {
            let kept = seq![items[0]] + solid(items.drop_first());
            lemma_bindings_unfold(kept);
            assert(kept.drop_first() =~= solid(items.drop_first()));
        }
    } else {
        lemma_bindings_unfold(solid(items));
    }
}

/// The names read off some items are those of the value declarations among
/// them, one each and in order, and they are read where each declaration
/// binds a name.
pub proof fn lemma_declared_names(items: Seq<Syntax>, source: Seq<char>)
    ensures
        declared_names(items, source) is Ok <==> forall|i: int|
            0 <= i < bindings(items).len() ==> (#[trigger] binding_name(
                bindings(items)[i],
                source,
            )) is Ok,
        declared_names(items, source) is Ok ==> declared_names(items, source)->Ok_0 == names_bound(
            items,
            source,
        ),
    decreases items.len(),
{
    lemma_bindings_unfold(items);
    if items.len() == 0 {
        assert(names_bound(items, source) =~= Seq::<Seq<char>>::empty());
    } else {
        let rest = items.drop_first();
        lemma_declared_names(rest, source);
        if items[0].kind == VALUE_DECLARATION@ {
            let all = bindings(items);
            assert(all[0] == items[0]);
            assert(all.drop_first() =~= bindings(rest));
            if declared_names(items, source) is Ok {
                assert forall|i: int| 0 <= i < all.len() implies (#[trigger] binding_name(
                    all[i],
                    source,
                )) is Ok by {
                    if i > 0 {
                        assert(all[i] == bindings(rest)[i - 1]);
                    }
                }
                assert(names_bound(items, source) =~= seq![binding_name(items[0], source)->Ok_0]
                    + names_bound(rest, source));
            }
            if forall|i: int|
                0 <= i < all.len() ==> (#[trigger] binding_name(all[i], source)) is Ok {
                assert(binding_name(all[0], source) is Ok);
                assert forall|i: int| 0 <= i < bindings(rest).len() implies (
                #[trigger] binding_name(bindings(rest)[i], source)) is Ok by {
                    assert(bindings(rest)[i] == all[i + 1]);
                }
            }
        }
    }
}

/// Where the header of a file reads `exposing (..)`, the walk to the header
/// yields the sign for everything, and the candidates of the file are the
/// values bound at its top level.
pub proof fn lemma_wildcard_exposes_top_level(root: Syntax, source: Seq<char>)
    requires
        exposes_everything(root),
    ensures
        explicit_exposed(root, source) == Ok::<Option<Seq<Seq<char>>>, Fault>(None),
        all_exposed(root, source) == top_level_values(root, source),
{
    let header = child_of_kind(root, MODULE_DECLARATION@)->Ok_0;
    let list = child_of_kind(header, EXPOSING_LIST@)->Ok_0;
    lemma_kinds_differ();
    if list.children.len() == 0 {
        lemma_solid_unfold(list.children);
    }
}

/// The values bound at the top level of a file are exactly the names of the
/// value declarations among the children of its root, in source order:
/// declarations of other kinds and whatever lies deeper yield none.
pub proof fn lemma_top_level_values(root: Syntax, source: Seq<char>)
    requires
        top_level_values(root, source) is Ok,
    ensures
        top_level_values(root, source)->Ok_0 == names_bound(root.children, source),
{
    lemma_declared_names(solid(root.children), source);
    lemma_bindings_are_solid(root.children);
}

/// A file whose root has a child that is no comment, and whose value
/// declarations each bind a name, yields its top-level values.
pub proof fn lemma_top_level_values_exist(root: Syntax, source: Seq<char>)
    requires
        solid(root.children).len() > 0,
        forall|i: int|
            0 <= i < bindings(root.children).len() ==> (#[trigger] binding_name(
                bindings(root.children)[i],
                source,
            )) is Ok,
    ensures
        top_level_values(root, source) == Ok::<Seq<Seq<char>>, Fault>(
            names_bound(root.children, source),
        ),
{
    lemma_bindings_are_solid(root.children);
    lemma_declared_names(solid(root.children), source);
    if root.children.len() == 0 {
        lemma_solid_unfold(root.children);
    }
}

/// Whether some items are what an exposing list holds between its
/// parentheses: exposed values, exposed types and commas.
pub open spec fn are_entries(items: Seq<Syntax>) -> bool {
    forall|i: int|
        0 <= i < items.len() ==> {
            ||| (#[trigger] items[i]).kind == EXPOSED_VALUE@
            ||| items[i].kind == EXPOSED_TYPE@
            ||| items[i].kind == COMMA@
        }
}

/// The names read off the entries of a list up to its closing parenthesis
/// are those of the exposed values among the entries, one each and in
/// order, whatever stands between them and whatever follows the parenthesis.
pub proof fn lemma_exposed_names(
    entries: Seq<Syntax>,
    close: Syntax,
    after: Seq<Syntax>,
    last: Syntax,
    source: Seq<char>,
)
    requires
        are_entries(entries),
        close.kind == RIGHT_PARENTHESIS@,
        forall|i: int|
            0 <= i < values(entries).len() ==> (#[trigger] value_name(values(entries)[i], source))
                is Ok,
    ensures
        exposed_names(entries + seq![close] + after, last, source) == Ok::<Seq<Seq<char>>, Fault>(
            names_exposed(entries, source),
        ),
    decreases entries.len(),
{
    lemma_kinds_differ();
    lemma_values_unfold(entries);
    let items = entries + seq![close] + after;
    if entries.len() == 0 {
        assert(items[0] == close);
        assert(names_exposed(entries, source) =~= Seq::<Seq<char>>::empty());
    } else {
        let rest = entries.drop_first();
        assert(items[0] == entries[0]);
        assert(items.drop_first() =~= rest + seq![close] + after);
        assert forall|i: int| 0 <= i < rest.len() implies {
            ||| (#[trigger] rest[i]).kind == EXPOSED_VALUE@
            ||| rest[i].kind == EXPOSED_TYPE@
            ||| rest[i].kind == COMMA@
        } by {
            assert(rest[i] == entries[i + 1]);
        }
        if entries[0].kind == EXPOSED_VALUE@ {
            let all = values(entries);
            assert(all[0] == entries[0]);
            assert(all.drop_first() =~= values(rest));
            assert(value_name(all[0], source) is Ok);
            assert forall|i: int| 0 <= i < values(rest).len() implies (#[trigger] value_name(
                values(rest)[i],
                source,
            )) is Ok by {
                assert(values(rest)[i] == all[i + 1]);
            }
            lemma_exposed_names(rest, close, after, last, source);
            assert(names_exposed(entries, source) =~= seq![value_name(entries[0], source)->Ok_0]
                + names_exposed(rest, source));
        } else {
            lemma_exposed_names(rest, close, after, last, source);
        }
    }
}

/// An exposing list that names what it exposes yields exactly the names of
/// the exposed values on it, in the order they stand there, a name as often
/// as it stands there, and none of the types that stand among them.
pub proof fn lemma_explicit_list(
    list: Syntax,
    word: Syntax,
    open: Syntax,
    entries: Seq<Syntax>,
    close: Syntax,
    after: Seq<Syntax>,
    source: Seq<char>,
)
    requires
        solid(list.children) == seq![word, open] + entries + seq![close] + after,
        word.kind == EXPOSING@,
        open.kind == LEFT_PARENTHESIS@,
        close.kind == RIGHT_PARENTHESIS@,
        are_entries(entries),
        forall|i: int|
            0 <= i < values(entries).len() ==> (#[trigger] value_name(values(entries)[i], source))
                is Ok,
    ensures
        exposing_clause(list, source) == Ok::<Option<Seq<Seq<char>>>, Fault>(
            Some(names_exposed(entries, source)),
        ),
{
    lemma_kinds_differ();
    let items = solid(list.children);
    if list.children.len() == 0 {
        lemma_solid_unfold(list.children);
    }
    assert(items[0] == word);
    assert(items[1] == open);
    assert(items.skip(2) =~= entries + seq![close] + after);
    if entries.len() > 0 {
        assert(items[2] == entries[0]);
    } else {
        assert(items[2] == close);
    }
    lemma_exposed_names(entries, close, after, list.children.last(), source);
}

/// Comments among the children of the root never count: a file with the
/// comments between its top-level declarations taken out yields the same
/// top-level values, or fails as well; and with the same fault, where one
/// child at least is no comment.
pub proof fn lemma_comments_between_declarations(root: Syntax, source: Seq<char>)
    ensures
        agree(top_level_values(bare(root), source), top_level_values(root, source)),
        solid(root.children).len() > 0 ==> top_level_values(bare(root), source)
            == top_level_values(root, source),
{
    lemma_solid_twice(root.children);
    if root.children.len() == 0 {
        lemma_solid_unfold(root.children);
    }
}

/// Comments among the items of an exposing list never count: a list with
/// its comments taken out says the same, or fails as well.
pub proof fn lemma_comments_between_items(list: Syntax, source: Seq<char>)
    ensures
        agree(exposing_clause(bare(list), source), exposing_clause(list, source)),
{
    lemma_solid_twice(list.children);
    if list.children.len() == 0 {
        lemma_solid_unfold(list.children);
    }
    let items = solid(list.children);
    if items.len() > 2 && items[0].kind == EXPOSING@ && items[1].kind == LEFT_PARENTHESIS@
        && items[2].kind != DOUBLE_DOT@ {
        lemma_last_is_for_faults(items.skip(2), items.last(), list.children.last(), source);
    }
}

/// The last node of a list is read for a fault alone: with another in its
/// place the same names are read, or reading fails as well.
pub proof fn lemma_last_is_for_faults(
    items: Seq<Syntax>,
    first: Syntax,
    second: Syntax,
    source: Seq<char>,
)
    ensures
        agree(exposed_names(items, first, source), exposed_names(items, second, source)),
    decreases items.len(),
{
    if items.len() > 0 {
        lemma_last_is_for_faults(items.drop_first(), first, second, source);
    }
}

/// An item that is no value declaration binds no name: with or without it,
/// the same names are read off a list.
pub proof fn lemma_other_kinds_bind_nothing(
    before: Seq<Syntax>,
    item: Syntax,
    after: Seq<Syntax>,
    source: Seq<char>,
)
    requires
        item.kind != VALUE_DECLARATION@,
    ensures
        declared_names(before + seq![item] + after, source) == declared_names(
            before + after,
            source,
        ),
    decreases before.len(),
{
    let with = before + seq![item] + after;
    let without = before + after;
    if before.len() == 0 {
        assert(with.drop_first() =~= without);
    } else {
        lemma_other_kinds_bind_nothing(before.drop_first(), item, after, source);
        assert(with.drop_first() =~= before.drop_first() + seq![item] + after);
        assert(without.drop_first() =~= before.drop_first() + after);
    }
}

/// A value with a type annotation before its definition counts once: the
/// annotation and the declaration together yield the one name that the
/// declaration binds.
pub proof fn lemma_annotated_value_counts_once(
    annotation: Syntax,
    declaration: Syntax,
    source: Seq<char>,
)
    requires
        annotation.kind != VALUE_DECLARATION@,
        declaration.kind == VALUE_DECLARATION@,
        binding_name(declaration, source) is Ok,
    ensures
        declared_names(seq![annotation, declaration], source) == Ok::<Seq<Seq<char>>, Fault>(
            seq![binding_name(declaration, source)->Ok_0],
        ),
{
    let both = seq![annotation, declaration];
    assert(both.drop_first() =~= seq![declaration]);
    assert(seq![declaration].drop_first() =~= Seq::<Syntax>::empty());
    reveal_with_fuel(declared_names, 3);
    assert(seq![binding_name(declaration, source)->Ok_0] + Seq::<Seq<char>>::empty() =~= seq![
        binding_name(declaration, source)->Ok_0,
    ]);
}

/// The name of a declaration is read off its left-hand side alone: two
/// declarations with the same first child, comments aside, bind the same
/// name, whatever their bodies hold.
pub proof fn lemma_name_is_on_the_left(first: Syntax, second: Syntax, source: Seq<char>)
    requires
        solid(first.children).len() > 0,
        solid(second.children).len() > 0,
        solid(first.children)[0] == solid(second.children)[0],
    ensures
        binding_name(first, source) == binding_name(second, source),
{
    lemma_solid_from(first.children, 0);
    lemma_solid_from(second.children, 0);
    assert(first.children.skip(0) =~= first.children);
    assert(second.children.skip(0) =~= second.children);
    if first.children.len() == 0 {
        lemma_solid_unfold(first.children);
    }
    if second.children.len() == 0 {
        lemma_solid_unfold(second.children);
    }
    reveal_with_fuel(head, 2);
}

/// Bindings inside the body of a declaration never count: two lists of
/// items that agree, item by item, on the kind and on the left-hand side
/// yield the same names.
pub proof fn lemma_bodies_do_not_count(first: Seq<Syntax>, second: Seq<Syntax>, source: Seq<char>)
    requires
        first.len() == second.len(),
        forall|i: int|
            0 <= i < first.len() ==> {
                &&& (#[trigger] first[i]).kind == second[i].kind
                &&& solid(first[i].children).len() > 0
                &&& solid(second[i].children).len() > 0
                &&& solid(first[i].children)[0] == solid(second[i].children)[0]
            },
    ensures
        declared_names(first, source) == declared_names(second, source),
    decreases first.len(),
{
    if first.len() > 0 {
        assert(first[0].kind == second[0].kind);
        lemma_name_is_on_the_left(first[0], second[0], source);
        assert forall|i: int| 0 <= i < first.drop_first().len() implies {
            &&& (#[trigger] first.drop_first()[i]).kind == second.drop_first()[i].kind
            &&& solid(first.drop_first()[i].children).len() > 0
            &&& solid(second.drop_first()[i].children).len() > 0
            &&& solid(first.drop_first()[i].children)[0] == solid(
                second.drop_first()[i].children,
            )[0]
        } by {
            assert(first.drop_first()[i] == first[i + 1]);
            assert(second.drop_first()[i] == second[i + 1]);
        }
        lemma_bodies_do_not_count(first.drop_first(), second.drop_first(), source);
    }
}

/// A file without a module declaration: the walk to its header fails for
/// want of a node, and so does the search for its candidates by the walk.
pub proof fn lemma_walk_needs_a_header(root: Syntax, source: Seq<char>)
    requires
        first_of_kind(solid(root.children), MODULE_DECLARATION@) is None,
    ensures
        explicit_exposed(root, source) is Err,
        explicit_exposed(root, source)->Err_0.is_navigation(),
        all_exposed(root, source) == Err::<Seq<Seq<char>>, Fault>(
            explicit_exposed(root, source)->Err_0,
        ),
{
}

/// A tree without an exposing clause: the patterns find no candidate in it,
/// and do not fail.
pub proof fn lemma_patterns_need_no_header(tree: Tree, source: Seq<char>)
    requires
        exposing_span(tree) is None,
    ensures
        candidates_by_query(tree, source) == Ok::<Seq<Seq<char>>, crate::query::OutsideSource>(
            Seq::empty(),
        ),
{
}

/// Walking the same tree for the same source twice yields the same: the
/// same names in the same order, or the same fault.
pub proof fn lemma_walked_once(
    root: Syntax,
    source: Seq<char>,
    first: Result<Vec<&str>, ExplicitExposedValuesError>,
    second: Result<Vec<&str>, ExplicitExposedValuesError>,
)
    requires
        walked(first, root, source),
        walked(second, root, source),
    ensures
        first is Ok <==> second is Ok,
        first is Ok ==> texts(first->Ok_0@) == texts(second->Ok_0@),
        first is Err ==> first->Err_0@ == second->Err_0@,
{
}

/// Collecting the candidates of the same files twice comes to the same:
/// the same modules, with the same paths and the same names in the same
/// order, or the same report.
pub proof fn lemma_collected_once(
    files: Seq<(PathBuf, String)>,
    first: Result<Vec<TestModule>, String>,
    second: Result<Vec<TestModule>, String>,
)
    requires
        collected(first, files),
        collected(second, files),
    ensures
        first is Ok <==> second is Ok,
        first is Err ==> first->Err_0@ == second->Err_0@,
        first is Ok ==> first->Ok_0@.len() == second->Ok_0@.len(),
        first is Ok ==> forall|i: int|
            0 <= i < files.len() ==> {
                &&& (#[trigger] first->Ok_0@[i]).path == second->Ok_0@[i].path
                &&& owned_texts(first->Ok_0@[i].tests@) == owned_texts(second->Ok_0@[i].tests@)
            },
{
}

/// What `all_tests` comes to on the same files is the same each time.
pub proof fn lemma_tested_once(
    files: Seq<(PathBuf, String)>,
    first: Result<Vec<TestModule>, String>,
    second: Result<Vec<TestModule>, String>,
)
    requires
        tested(first, files),
        tested(second, files),
    ensures
        first is Ok <==> second is Ok,
        first is Err ==> first->Err_0@ == second->Err_0@,
        first is Ok ==> first->Ok_0@.len() == second->Ok_0@.len(),
        first is Ok ==> forall|i: int|
            0 <= i < files.len() ==> {
                &&& (#[trigger] first->Ok_0@[i]).path == second->Ok_0@[i].path
                &&& owned_texts(first->Ok_0@[i].tests@) == owned_texts(second->Ok_0@[i].tests@)
            },
{
    if failing_pattern() is None {
        lemma_collected_once(files, first, second);
    }
}

} // verus!
