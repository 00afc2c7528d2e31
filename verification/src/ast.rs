//! The syntax tree.
use crate::builtin::BuiltInFunction;
use rust_decimal::Decimal;
use vstd::prelude::*;

verus! {

/// A node in its place in the arena.
pub type NodeRef<'arena> = &'arena Node<'arena>;

/// A node of the syntax tree. Nodes and the lists between them live in the arena of the parser
/// that made them.
#[derive(Debug, PartialEq, Eq)]
pub enum Node<'arena> {
    Null,
    Bool(bool),
    Number(Decimal),
    String(&'arena str),
    /// Literal pieces and embedded expressions, in the order in which they are written.
    TemplateString(&'arena [NodeRef<'arena>]),
    Array(&'arena [NodeRef<'arena>]),
    /// Keys with their values.
    Object(&'arena [(NodeRef<'arena>, NodeRef<'arena>)]),
    Identifier(&'arena str),
    Root,
    /// The body of a built-in function that runs over items.
    Closure(NodeRef<'arena>),
    Member { node: NodeRef<'arena>, property: NodeRef<'arena> },
    Slice {
        node: NodeRef<'arena>,
        from: Option<NodeRef<'arena>>,
        to: Option<NodeRef<'arena>>,
    },
    /// A range of values; the brackets say which of its ends belong to it.
    Interval {
        left_bracket: &'arena str,
        left: NodeRef<'arena>,
        right: NodeRef<'arena>,
        right_bracket: &'arena str,
    },
    Conditional {
        condition: NodeRef<'arena>,
        on_true: NodeRef<'arena>,
        on_false: NodeRef<'arena>,
    },
    BuiltIn { kind: BuiltInFunction, arguments: &'arena [NodeRef<'arena>] },
}

} // verus!
