//! What is known, while a program is built, of the variables and of the
//! fields that it may read.

use vstd::prelude::*;
use crate::assoc::{lookup, named};
use crate::type_def::TypeDef;
use crate::kind::Shape;

verus! {

/// The types of the variables in scope.
#[derive(Debug)]
pub struct LocalEnv {
    bindings: Vec<(String, TypeDef)>,
}

impl View for LocalEnv {
    type V = Map<Seq<char>, TypeDef>;

    closed spec fn view(&self) -> Map<Seq<char>, TypeDef> {
        named(self.bindings@)
    }
}

impl LocalEnv {
    /// The scope without any variable.
    pub fn new() -> (env: LocalEnv)
        ensures
            env@ == Map::<Seq<char>, TypeDef>::empty(),
    {
        LocalEnv { bindings: Vec::new() }
    }

    /// Binds `ident` to a type; an earlier binding of the name is hidden.
    pub fn insert_variable(&mut self, ident: String, type_def: TypeDef)
        ensures
            final(self)@ == old(self)@.insert(ident@, type_def),
    {
        proof {
            assert(self.bindings@.push((ident, type_def)).drop_last() =~= self.bindings@);
        }
        self.bindings.push((ident, type_def));
    }

    /// The type that `ident` is bound to, if it is bound.
    pub fn variable(&self, ident: &str) -> (found: Option<TypeDef>)
        ensures
            found == (if self@.contains_key(ident@) {
                Some(self@[ident@])
            } else {
                None
            }),
    {
        lookup(&self.bindings, ident)
    }
}

/// The types of the fields of the events that a program will run on.
#[derive(Debug)]
pub struct ExternalEnv {
    fields: Vec<(String, TypeDef)>,
}

impl View for ExternalEnv {
    type V = Map<Seq<char>, TypeDef>;

    closed spec fn view(&self) -> Map<Seq<char>, TypeDef> {
        named(self.fields@)
    }
}

impl ExternalEnv {
    /// The schema that says nothing of any field.
    pub fn new() -> (env: ExternalEnv)
        ensures
            env@ == Map::<Seq<char>, TypeDef>::empty(),
    {
        ExternalEnv { fields: Vec::new() }
    }

    /// Records the type of the field `name`, in place of what was known.
    pub fn insert_field(&mut self, name: String, type_def: TypeDef)
        ensures
            final(self)@ == old(self)@.insert(name@, type_def),
    {
        proof {
            assert(self.fields@.push((name, type_def)).drop_last() =~= self.fields@);
        }
        self.fields.push((name, type_def));
    }

    /// The type recorded for the field `name`, if there is one.
    pub fn field(&self, name: &str) -> (found: Option<TypeDef>)
        ensures
            found == (if self@.contains_key(name@) {
                Some(self@[name@])
            } else {
                None
            }),
    {
        lookup(&self.fields, name)
    }
}

/// The static type of the variable `ident`: what the scope binds it to, and
/// null where it is unbound.
pub open spec fn variable_type(local: Map<Seq<char>, TypeDef>, ident: Seq<char>) -> TypeDef {
    if local.contains_key(ident) {
        local[ident]
    } else {
        TypeDef::of(Shape::Null)
    }
}

/// The static type of the field `name`: what the schema records, and any
/// shape where it records nothing.
pub open spec fn field_type(external: Map<Seq<char>, TypeDef>, name: Seq<char>) -> TypeDef {
    if external.contains_key(name) {
        external[name]
    } else {
        TypeDef::unknown()
    }
}

} // verus!
