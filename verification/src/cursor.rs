//! Moving a cursor through a syntax tree without ever resting on a comment.

use crate::error::ExplicitExposedValuesError;
use crate::error::Fault;
use crate::handles::{cursor_path, cursor_root, here, index, node_syntax, sibling_path, siblings};
use crate::syntax::{is_comment, lemma_at_push, Syntax, BLOCK_COMMENT, LINE_COMMENT};
use crate::text::same_text;
use tree_sitter::{Node, TreeCursor};
use vstd::prelude::*;

verus! {

/// The index of the first of `items`, at or after `from`, that is no comment;
/// the length of `items` where there is none.
pub open spec fn next_solid(items: Seq<Syntax>, from: int) -> int
    decreases items.len() - from,
{
    if from < 0 || from >= items.len() {
        items.len() as int
    } else if !is_comment(items[from].kind) {
        from
    } else {
        next_solid(items, from + 1)
    }
}

/// What entering a node yields: the index of its first child that is no
/// comment, or the fault of a node without children or with comments alone.
pub open spec fn enter(node: Syntax) -> Result<int, Fault> {
    if node.children.len() == 0 {
        Err(Fault::ShouldHaveChildren(node))
    } else if next_solid(node.children, 0) < node.children.len() {
        Ok(next_solid(node.children, 0))
    } else {
        Err(Fault::ShouldHaveSibling(node.children.last()))
    }
}

/// The node found `levels` below `node` by entering first children: the
/// first child that is no comment, then the first such child of that one,
/// and so on.
pub open spec fn head(node: Syntax, levels: nat) -> Result<Syntax, Fault>
    decreases levels,
{
    if levels == 0 {
        Ok(node)
    } else {
        match enter(node) {
            Ok(first) => head(node.children[first], (levels - 1) as nat),
            Err(fault) => Err(fault),
        }
    }
}

/// The items of a list that are no comments, in their order.
pub open spec fn solid(items: Seq<Syntax>) -> Seq<Syntax> {
    items.filter(|item: Syntax| !is_comment(item.kind))
}

/// A cursor stands on a child of the node at `up` that is no comment, and
/// `rest` holds that child and the children after it that are no comments.
pub open spec fn at_item(cursor: TreeCursor, root: Syntax, up: Seq<nat>, rest: Seq<Syntax>) -> bool {
    let items = root.at(up).children;
    &&& cursor_root(cursor) == root
    &&& cursor_path(cursor) == up.push(index(cursor) as nat)
    &&& 0 <= index(cursor) < items.len()
    &&& rest == solid(items.skip(index(cursor)))
    &&& rest.len() > 0
    &&& rest[0] == items[index(cursor)]
    &&& here(cursor) == rest[0]
}

/// A list without comments begins with the first item of the list that is
/// none, and goes on with what the rest of the list holds.
pub proof fn lemma_solid_unfold(items: Seq<Syntax>)
    ensures
        solid(items) == if items.len() == 0 {
            Seq::<Syntax>::empty()
        } else if is_comment(items[0].kind) {
            solid(items.drop_first())
        } else {
            seq![items[0]] + solid(items.drop_first())
        },
{
    items.lemma_filter_eq_filter_alt(|item: Syntax| !is_comment(item.kind));
}

/// Dropping the comments that stand before the next item that is none
/// changes nothing about the items that are no comments.
pub proof fn lemma_solid_from(items: Seq<Syntax>, from: int)
    requires
        0 <= from <= items.len(),
    ensures
        from <= next_solid(items, from) <= items.len() || next_solid(items, from) == items.len(),
        next_solid(items, from) < items.len() ==> solid(items.skip(from)) == seq![
            items[next_solid(items, from)],
        ] + solid(items.skip(next_solid(items, from) + 1)),
        next_solid(items, from) < items.len() ==> solid(items.skip(from)) == solid(
            items.skip(next_solid(items, from)),
        ),
        next_solid(items, from) >= items.len() ==> solid(items.skip(from)).len() == 0,
    decreases items.len() - from,
{
    let tail = items.skip(from);
    lemma_solid_unfold(tail);
    if from < items.len() {
        assert(tail.drop_first() =~= items.skip(from + 1));
        assert(tail[0] == items[from]);
        if is_comment(items[from].kind) {
            lemma_solid_from(items, from + 1);
        }
    }
}

/// After `child` has succeeded the cursor stands on the first of the items
/// of the node it entered.
pub proof fn lemma_entered(start: TreeCursor, end: TreeCursor)
    requires
        cursor_root(end) == cursor_root(start),
        enter(here(start)) is Ok,
        cursor_path(end) == cursor_path(start).push(enter(here(start))->Ok_0 as nat),
    ensures
        at_item(end, cursor_root(start), cursor_path(start), solid(here(start).children)),
{
    let items = here(start).children;
    let first = next_solid(items, 0);
    lemma_solid_from(items, 0);
    assert(items.skip(0) =~= items);
    lemma_at_push(cursor_root(start), cursor_path(start), first as nat);
    assert(cursor_path(start).push(first as nat).drop_last() =~= cursor_path(start));
}

/// After `child` has failed the node it was to enter has no item at all.
pub proof fn lemma_not_entered(node: Syntax)
    requires
        enter(node) is Err,
    ensures
        solid(node.children).len() == 0,
{
    lemma_solid_from(node.children, 0);
    assert(node.children.skip(0) =~= node.children);
}

/// After `next_sibling` has succeeded the cursor stands on the next item.
pub proof fn lemma_advanced(
    start: TreeCursor,
    end: TreeCursor,
    root: Syntax,
    up: Seq<nat>,
    rest: Seq<Syntax>,
)
    requires
        at_item(start, root, up, rest),
        cursor_root(end) == root,
        cursor_path(end) == sibling_path(start, rest_after(siblings(start), index(start))),
        next_solid(siblings(start), index(start) + 1) < siblings(start).len(),
    ensures
        at_item(end, root, up, rest.drop_first()),
{
    let items = root.at(up).children;
    let from = index(start);
    let to = next_solid(items, from + 1);
    assert(up.push(from as nat).drop_last() =~= up);
    assert(siblings(start) == items);
    lemma_solid_from(items, from);
    lemma_solid_from(items, from + 1);
    assert(up.push(to as nat).drop_last() =~= up);
    lemma_at_push(root, up, to as nat);
    assert(rest.drop_first() =~= solid(items.skip(from + 1)));
}

/// After `next_sibling` has failed no item is left, and the cursor rests on
/// the last of the siblings.
pub proof fn lemma_exhausted(
    start: TreeCursor,
    end: TreeCursor,
    root: Syntax,
    up: Seq<nat>,
    rest: Seq<Syntax>,
)
    requires
        at_item(start, root, up, rest),
        cursor_root(end) == root,
        cursor_path(end) == sibling_path(start, rest_after(siblings(start), index(start))),
        next_solid(siblings(start), index(start) + 1) >= siblings(start).len(),
    ensures
        rest.len() == 1,
        here(end) == root.at(up).children.last(),
        cursor_path(end) == up.push((root.at(up).children.len() - 1) as nat),
{
    let items = root.at(up).children;
    let from = index(start);
    assert(up.push(from as nat).drop_last() =~= up);
    assert(siblings(start) == items);
    lemma_solid_from(items, from);
    lemma_solid_from(items, from + 1);
    lemma_at_push(root, up, (items.len() - 1) as nat);
    assert(rest.drop_first() =~= solid(items.skip(from + 1)));
}

/// Between `from` and the next item that is no comment stand comments only.
pub proof fn lemma_next_solid(items: Seq<Syntax>, from: int)
    requires
        0 <= from,
    ensures
        from <= next_solid(items, from) || next_solid(items, from) == items.len(),
        next_solid(items, from) <= items.len(),
        next_solid(items, from) < items.len() ==> !is_comment(
            items[next_solid(items, from)].kind,
        ),
        forall|k: int| from <= k < next_solid(items, from) ==> is_comment(#[trigger] items[k].kind),
    decreases items.len() - from,
{
    if from < items.len() && is_comment(items[from].kind) {
        lemma_next_solid(items, from + 1);
    }
}

/// Whether a kind tag is that of a comment.
pub fn is_comment_kind(kind: &str) -> (comment: bool)
    ensures
        comment == is_comment(kind@),
{
    same_text(kind, LINE_COMMENT) || same_text(kind, BLOCK_COMMENT)
}

/// Accepts a node of the expected kind and refuses any other.
pub fn check_kind<'b>(node: Node<'b>, expected: &'static str) -> (checked: Result<
    (),
    ExplicitExposedValuesError<'b>,
>)
    ensures
        match checked {
            Ok(()) => node_syntax(node).kind == expected@,
            Err(error) => node_syntax(node).kind != expected@ && error
                == ExplicitExposedValuesError::UnexpectedNode(node),
        },
{
    if same_text(node.kind(), expected) {
        Ok(())
    } else {
        Err(ExplicitExposedValuesError::UnexpectedNode(node))
    }
}

/// Moves a cursor that stands among its siblings forward past comments.
fn skip_comments<'b>(cursor: &mut TreeCursor<'b>) -> (skipped: Result<
    (),
    ExplicitExposedValuesError<'b>,
>)
    requires
        cursor_path(*old(cursor)).len() > 0,
        0 <= index(*old(cursor)) < siblings(*old(cursor)).len(),
    ensures
        cursor_root(*final(cursor)) == cursor_root(*old(cursor)),
        match skipped {
            Ok(()) => {
                &&& next_solid(siblings(*old(cursor)), index(*old(cursor))) < siblings(
                    *old(cursor),
                ).len()
                &&& cursor_path(*final(cursor)) == sibling_path(
                    *old(cursor),
                    next_solid(siblings(*old(cursor)), index(*old(cursor))),
                )
            },
            Err(error) => {
                &&& next_solid(siblings(*old(cursor)), index(*old(cursor))) == siblings(
                    *old(cursor),
                ).len()
                &&& error@ == Fault::ShouldHaveSibling(siblings(*old(cursor)).last())
                &&& cursor_path(*final(cursor)) == sibling_path(
                    *old(cursor),
                    siblings(*old(cursor)).len() - 1,
                )
            },
        },
{
    let ghost root = cursor_root(*cursor);
    let ghost up = cursor_path(*cursor).drop_last();
    let ghost items = siblings(*cursor);
    let ghost first = index(*cursor);
    proof {
        assert(cursor_path(*cursor) =~= up.push(first as nat));
    }
    loop
        invariant
            cursor_root(*cursor) == root,
            root == cursor_root(*old(cursor)),
            items == root.at(up).children,
            0 <= first <= index(*cursor) < items.len(),
            cursor_path(*cursor) == up.push(index(*cursor) as nat),
            next_solid(items, first) == next_solid(items, index(*cursor)),
            cursor_path(*old(cursor)).len() > 0,
            up == cursor_path(*old(cursor)).drop_last(),
            items == siblings(*old(cursor)),
            first == index(*old(cursor)),
        decreases items.len() - index(*cursor),
    {
        let ghost at = index(*cursor);
        proof {
            lemma_at_push(root, up, at as nat);
            assert(up.push(at as nat).drop_last() =~= up);
        }
        let node = cursor.node();
        if !is_comment_kind(node.kind()) {
            return Ok(());
        }
        if !cursor.goto_next_sibling() {
            proof {
                assert(next_solid(items, at + 1) == items.len());
            }
            return Err(ExplicitExposedValuesError::ShouldHaveSibling(node));
        }
        proof {
            assert(up.push((at + 1) as nat).drop_last() =~= up);
        }
    }
}

/// Moves a cursor to the first child of its node that is no comment.
///
/// Where the node has no children the cursor stays; where its children are
/// comments alone the cursor rests on the last of them.
pub fn child<'b>(cursor: &mut TreeCursor<'b>) -> (entered: Result<
    (),
    ExplicitExposedValuesError<'b>,
>)
    ensures
        cursor_root(*final(cursor)) == cursor_root(*old(cursor)),
        match entered {
            Ok(()) => {
                &&& enter(here(*old(cursor))) is Ok
                &&& cursor_path(*final(cursor)) == cursor_path(*old(cursor)).push(
                    enter(here(*old(cursor)))->Ok_0 as nat,
                )
            },
            Err(error) => {
                &&& enter(here(*old(cursor))) == Err::<int, Fault>(error@)
                &&& cursor_path(*final(cursor)) == if error@ is ShouldHaveChildren {
                    cursor_path(*old(cursor))
                } else {
                    cursor_path(*old(cursor)).push((here(*old(cursor)).children.len() - 1) as nat)
                }
            },
        },
{
    let ghost down = cursor_path(*cursor);
    let ghost root = cursor_root(*cursor);
    if cursor.goto_first_child() {
        proof {
            assert(down.push(0).drop_last() =~= down);
        }
        skip_comments(cursor)
    } else {
        Err(ExplicitExposedValuesError::ShouldHaveChildren(cursor.node()))
    }
}

/// Where a cursor comes to rest when it is moved on from the item at `from`:
/// on the next item that is no comment, else on the last item.
pub open spec fn rest_after(items: Seq<Syntax>, from: int) -> int {
    if next_solid(items, from + 1) < items.len() {
        next_solid(items, from + 1)
    } else if from + 1 < items.len() {
        items.len() - 1
    } else {
        from
    }
}

/// Moves a cursor to the next sibling of its node that is no comment.
///
/// Where there is none the cursor rests on the last node it reached, and the
/// error holds that node.
pub fn next_sibling<'b>(cursor: &mut TreeCursor<'b>) -> (advanced: Result<
    (),
    ExplicitExposedValuesError<'b>,
>)
    ensures
        cursor_root(*final(cursor)) == cursor_root(*old(cursor)),
        cursor_path(*final(cursor)) == sibling_path(
            *old(cursor),
            rest_after(siblings(*old(cursor)), index(*old(cursor))),
        ),
        match advanced {
            Ok(()) => next_solid(siblings(*old(cursor)), index(*old(cursor)) + 1) < siblings(
                *old(cursor),
            ).len(),
            Err(error) => {
                &&& next_solid(siblings(*old(cursor)), index(*old(cursor)) + 1) >= siblings(
                    *old(cursor),
                ).len()
                &&& error@ == Fault::ShouldHaveSibling(here(*final(cursor)))
            },
        },
{
    let ghost start = *cursor;
    if cursor.goto_next_sibling() {
        proof {
            let up = cursor_path(start).drop_last();
            assert(up.push((index(start) + 1) as nat).drop_last() =~= up);
            assert(siblings(*cursor) == siblings(start));
        }
        let skipped = skip_comments(cursor);
        proof {
            let up = cursor_path(start).drop_last();
            let items = siblings(start);
            if skipped is Err {
                lemma_at_push(cursor_root(start), up, (items.len() - 1) as nat);
            }
        }
        skipped
    } else {
        proof {
            lemma_next_solid(siblings(start), index(start) + 1);
            if cursor_path(start).len() > 0 {
                assert(cursor_path(start).drop_last().push(index(start) as nat) =~= cursor_path(
                    start,
                ));
            }
        }
        Err(ExplicitExposedValuesError::ShouldHaveSibling(cursor.node()))
    }
}

/// Enters first children `levels` deep, takes a handle of the node reached
/// there, and brings the cursor back to where it stood, whether the descent
/// succeeded or not.
pub fn peek_head<'b>(cursor: &mut TreeCursor<'b>, levels: usize) -> (found: Result<
    Node<'b>,
    ExplicitExposedValuesError<'b>,
>)
    ensures
        cursor_root(*final(cursor)) == cursor_root(*old(cursor)),
        cursor_path(*final(cursor)) == cursor_path(*old(cursor)),
        match found {
            Ok(node) => head(here(*old(cursor)), levels as nat) == Ok::<Syntax, Fault>(
                node_syntax(node),
            ),
            Err(error) => head(here(*old(cursor)), levels as nat) == Err::<Syntax, Fault>(error@),
        },
    decreases levels,
{
    if levels == 0 {
        return Ok(cursor.node());
    }
    let ghost start = *cursor;
    match child(cursor) {
        Ok(()) => {
            proof {
                let first = enter(here(start))->Ok_0 as nat;
                lemma_at_push(cursor_root(start), cursor_path(start), first);
                assert(cursor_path(start).push(first).drop_last() =~= cursor_path(start));
            }
            let ghost below = *cursor;
            let found = peek_head(cursor, levels - 1);
            proof {
                let first = enter(here(start))->Ok_0;
                lemma_next_solid(here(start).children, 0);
                assert(here(below) == here(start).children[first]);
                assert(head(here(start), levels as nat) == head(
                    here(below),
                    (levels - 1) as nat,
                ));
            }
            let _ = cursor.goto_parent();
            found
        },
        Err(error) => {
            if let ExplicitExposedValuesError::ShouldHaveSibling(_) = &error {
                proof {
                    let last = (here(start).children.len() - 1) as nat;
                    assert(cursor_path(start).push(last).drop_last() =~= cursor_path(start));
                }
                let _ = cursor.goto_parent();
            }
            Err(error)
        },
    }
}

} // verus!
