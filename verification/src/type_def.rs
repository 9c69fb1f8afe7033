//! The static type of an expression.

use vstd::prelude::*;
use crate::kind::{Kind, Shape};

verus! {

/// What is known of an expression before it runs: the shapes its value may
/// take, whether evaluating it may fail, and whether it may end the program
/// early. Every operation returns a new value.
#[derive(Clone, Copy, Debug, PartialEq, Eq, Structural)]
pub struct TypeDef {
    pub kind: Kind,
    pub fallible: bool,
    pub abortable: bool,
}

impl TypeDef {
    /// An infallible type of the given kind that never aborts.
    pub fn new(kind: Kind) -> (def: TypeDef)
        ensures
            def == (TypeDef { kind, fallible: false, abortable: false }),
    {
        TypeDef { kind, fallible: false, abortable: false }
    }

    /// The infallible type of one shape.
    pub open spec fn of(shape: Shape) -> TypeDef {
        TypeDef { kind: Kind::only(shape), fallible: false, abortable: false }
    }

    /// The infallible type of every shape.
    pub open spec fn unknown() -> TypeDef {
        TypeDef { kind: Kind::all(), fallible: false, abortable: false }
    }

    /// The infallible type of every shape.
    pub fn any() -> (def: TypeDef)
        ensures
            def == TypeDef::unknown(),
    {
        TypeDef::new(Kind::any())
    }

    /// The infallible type of kind `{null}`.
    pub fn null() -> (def: TypeDef)
        ensures
            def == TypeDef::of(Shape::Null),
    {
        TypeDef::new(Kind::exact(Shape::Null))
    }

    /// The infallible type of kind `{boolean}`.
    pub fn boolean() -> (def: TypeDef)
        ensures
            def == TypeDef::of(Shape::Boolean),
            def.is_boolean_spec(),
    {
        TypeDef::new(Kind::boolean())
    }

    /// The same type with its fallibility replaced.
    pub fn with_fallibility(self, fallible: bool) -> (def: TypeDef)
        ensures
            def == (TypeDef { fallible, ..self }),
    {
        TypeDef { kind: self.kind, fallible, abortable: self.abortable }
    }

    /// The same type with its abortability replaced.
    pub fn with_abortability(self, abortable: bool) -> (def: TypeDef)
        ensures
            def == (TypeDef { abortable, ..self }),
    {
        TypeDef { kind: self.kind, fallible: self.fallible, abortable }
    }

    /// The kind is exactly `{boolean}`.
    pub open spec fn is_boolean_spec(self) -> bool {
        forall|shape: Shape| self.kind.has(shape) == (shape == Shape::Boolean)
    }

    /// Whether the kind is exactly `{boolean}`.
    pub fn is_boolean(&self) -> (only: bool)
        ensures
            only == self.is_boolean_spec(),
    {
        self.kind.is_boolean()
    }

    /// Whether evaluation may fail.
    pub fn is_fallible(&self) -> (fallible: bool)
        ensures
            fallible == self.fallible,
    {
        self.fallible
    }

    /// Whether evaluation may end the program early.
    pub fn is_abortable(&self) -> (abortable: bool)
        ensures
            abortable == self.abortable,
    {
        self.abortable
    }

    /// The shapes that the value may take.
    pub fn kind(&self) -> (kind: Kind)
        ensures
            kind == self.kind,
    {
        self.kind
    }
}

} // verus!
