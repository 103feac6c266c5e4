//! The syntax tree that the collector walks.
//!
//! A tree holds, for each element of a source file, what the measurement
//! needs: the kind of element, its name, the lines it spans and the elements
//! declared inside it.

use vstd::prelude::*;

verus! {

/// The lines that an element spans, counted from 1, both ends included.
/// A zero stands for a position that could not be resolved.
#[derive(Clone, Copy, Debug, PartialEq, Eq)]
pub struct Span {
    pub start_line: usize,
    pub end_line: usize,
}

/// What a node of the tree stands for.
#[derive(Debug, PartialEq, Eq)]
pub enum NodeKind {
    /// A free function; `is_test` says whether it carries the test marker.
    Function { name: String, is_test: bool },
    /// An implementation block for `target`, of `trait_name` if it names one.
    ImplBlock { target: String, trait_name: Option<String> },
    /// A method inside an implementation block.
    ImplMethod { name: String },
    /// A trait declaration.
    Trait { name: String },
    /// A method that a trait declares; `has_default` says whether it comes
    /// with a body.
    TraitMethod { name: String, has_default: bool },
    /// A struct definition.
    Struct { name: String },
    /// An enum definition.
    Enum { name: String },
    /// A constant.
    Const { name: String },
    /// A static.
    Static { name: String },
    /// Any other syntax that may hold elements, such as a module or a block.
    Scope,
}

/// One element of a source file with the elements declared inside it, in
/// source order.
#[derive(Debug, PartialEq, Eq)]
pub struct Node {
    pub kind: NodeKind,
    pub span: Span,
    pub children: Vec<Node>,
}

impl Span {
    /// A span from `start_line` to `end_line`.
    pub fn new(start_line: usize, end_line: usize) -> (span: Span)
        ensures
            span.start_line == start_line,
            span.end_line == end_line,
    {
        Span { start_line, end_line }
    }
}

impl Node {
    /// A node without children.
    pub fn leaf(kind: NodeKind, span: Span) -> (node: Node)
        ensures
            node.kind == kind,
            node.span == span,
            node.children@.len() == 0,
    {
        Node { kind, span, children: Vec::new() }
    }

    /// A node with the given children.
    pub fn with_children(kind: NodeKind, span: Span, children: Vec<Node>) -> (node: Node)
        ensures
            node.kind == kind,
            node.span == span,
            node.children == children,
    {
        Node { kind, span, children }
    }
}

} // verus!
