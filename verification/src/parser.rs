//! What the parser hands to the compiler.

use vstd::prelude::*;
use crate::span::Span;

verus! {

/// A piece of syntax together with the span of the source that it was read
/// from.
#[derive(Debug, PartialEq)]
pub struct Node<T> {
    pub span: Span,
    pub node: T,
}

impl<T> Node<T> {
    /// The node for `node`, read from `span`.
    pub fn new(span: Span, node: T) -> (made: Node<T>)
        ensures
            made.span == span,
            made.node == node,
    {
        Node { span, node }
    }

    /// The span that the node was read from.
    pub fn span(&self) -> (span: Span)
        ensures
            span == self.span,
    {
        self.span
    }

    /// The piece of syntax.
    pub fn inner(&self) -> (node: &T)
        ensures
            *node == self.node,
    {
        &self.node
    }

    /// The node taken apart.
    pub fn take(self) -> (parts: (Span, T))
        ensures
            parts.0 == self.span,
            parts.1 == self.node,
    {
        (self.span, self.node)
    }
}

} // verus!
