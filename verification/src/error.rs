//! What can go wrong while a cursor walks a syntax tree.

use crate::handles::node_syntax;
use crate::syntax::Syntax;
use tree_sitter::Node;
use vstd::prelude::*;
use vstd::string::StringExecFns;

verus! {

/// A structural surprise met on a walk, with the node at which it was met.
pub enum Fault {
    /// A node of another kind stood where one kind was required.
    UnexpectedNode(Syntax),
    /// A node had no sibling after it where one was required.
    ShouldHaveSibling(Syntax),
    /// A node had no children where some were required.
    ShouldHaveChildren(Syntax),
    /// The byte span of a node does not delimit a text of the source.
    OutsideSource(Syntax),
}

impl Fault {
    /// Whether the walk ran out of nodes, rather than meeting a wrong one.
    pub open spec fn is_navigation(self) -> bool {
        self is ShouldHaveSibling || self is ShouldHaveChildren
    }
}

/// A structural surprise met on a walk, with a handle of the node at which
/// it was met.
#[derive(Debug)]
pub enum ExplicitExposedValuesError<'a> {
    UnexpectedNode(Node<'a>),
    ShouldHaveSibling(Node<'a>),
    ShouldHaveChildren(Node<'a>),
    OutsideSource(Node<'a>),
}

impl<'a> View for ExplicitExposedValuesError<'a> {
    type V = Fault;

    open spec fn view(&self) -> Fault {
        match *self {
            ExplicitExposedValuesError::UnexpectedNode(node) => Fault::UnexpectedNode(
                node_syntax(node),
            ),
            ExplicitExposedValuesError::ShouldHaveSibling(node) => Fault::ShouldHaveSibling(
                node_syntax(node),
            ),
            ExplicitExposedValuesError::ShouldHaveChildren(node) => Fault::ShouldHaveChildren(
                node_syntax(node),
            ),
            ExplicitExposedValuesError::OutsideSource(node) => Fault::OutsideSource(
                node_syntax(node),
            ),
        }
    }
}

impl<'a> ExplicitExposedValuesError<'a> {
    /// The error in words.
    pub fn describe(&self) -> (words: String)
        ensures
            words@ == match self@ {
                Fault::UnexpectedNode(_) => "unexpected node kind"@,
                Fault::ShouldHaveSibling(_) => "node should have had a next sibling"@,
                Fault::ShouldHaveChildren(_) => "node should have children"@,
                Fault::OutsideSource(_) => "node lies outside the source text"@,
            },
    {
        match self {
            ExplicitExposedValuesError::UnexpectedNode(_) => String::from_str(
                "unexpected node kind",
            ),
            ExplicitExposedValuesError::ShouldHaveSibling(_) => String::from_str(
                "node should have had a next sibling",
            ),
            ExplicitExposedValuesError::ShouldHaveChildren(_) => String::from_str(
                "node should have children",
            ),
            ExplicitExposedValuesError::OutsideSource(_) => String::from_str(
                "node lies outside the source text",
            ),
        }
    }
}

} // verus!
