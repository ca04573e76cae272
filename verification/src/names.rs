//! Reading names off nodes, and gathering them in order.

use crate::error::ExplicitExposedValuesError;
use crate::error::Fault;
use crate::handles::node_syntax;
use crate::syntax::Syntax;
use crate::text::{slice, span_text};
use tree_sitter::Node;
use vstd::prelude::*;

verus! {

/// The texts of a list of names.
pub open spec fn texts(names: Seq<&str>) -> Seq<Seq<char>> {
    names.map_values(|name: &str| name@)
}

/// The text of the source that a node spans, or the fault of a node whose
/// span delimits no text of the source.
pub open spec fn text_of(node: Syntax, source: Seq<char>) -> Result<Seq<char>, Fault> {
    match span_text(source, node.start as int, node.end as int) {
        Some(text) => Ok(text),
        None => Err(Fault::OutsideSource(node)),
    }
}

/// The names gathered so far, followed by those that the rest of a walk
/// yields, or the fault that the rest of the walk ends in.
pub open spec fn attach<E>(gathered: Seq<Seq<char>>, rest: Result<Seq<Seq<char>>, E>) -> Result<
    Seq<Seq<char>>,
    E,
> {
    match rest {
        Ok(more) => Ok(gathered + more),
        Err(fault) => Err(fault),
    }
}

/// Gathering one more name before the rest of a walk is the same as putting
/// that name in front of what the rest yields.
pub proof fn lemma_attach_one<E>(
    gathered: Seq<Seq<char>>,
    name: Seq<char>,
    rest: Result<Seq<Seq<char>>, E>,
)
    ensures
        attach(gathered.push(name), rest) == attach(gathered, attach(seq![name], rest)),
{
    if let Ok(more) = rest {
        assert(gathered.push(name) + more =~= gathered + (seq![name] + more));
    }
}

/// Nothing gathered yet changes nothing.
pub proof fn lemma_attach_none<E>(rest: Result<Seq<Seq<char>>, E>)
    ensures
        attach(Seq::empty(), rest) == rest,
{
    if let Ok(more) = rest {
        assert(Seq::<Seq<char>>::empty() + more =~= more);
    }
}

/// The text of the source that a node spans.
pub fn node_text<'a>(node: Node<'a>, source: &'a str) -> (text: Result<
    &'a str,
    ExplicitExposedValuesError<'a>,
>)
    ensures
        match text {
            Ok(name) => text_of(node_syntax(node), source@) == Ok::<Seq<char>, Fault>(name@),
            Err(error) => text_of(node_syntax(node), source@) == Err::<Seq<char>, Fault>(error@)
                && error == ExplicitExposedValuesError::OutsideSource(node),
        },
{
    match slice(source, node.start_byte(), node.end_byte()) {
        Some(name) => Ok(name),
        None => Err(ExplicitExposedValuesError::OutsideSource(node)),
    }
}

} // verus!
