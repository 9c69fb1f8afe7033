//! What an expression is evaluated against.

use vstd::prelude::*;
use crate::event::LogEvent;
use crate::state::{field_type, variable_type};
use crate::type_def::TypeDef;
use crate::value::{Value, ValueView};

verus! {

/// The bindings of one evaluation: the event at hand and the values of the
/// variables. A context belongs to the evaluation that it was made for.
#[derive(Debug)]
pub struct Context {
    pub target: LogEvent,
    pub variables: LogEvent,
}

/// The value that a record gives a name: null where it has no such entry.
pub open spec fn value_at(record: Map<Seq<char>, ValueView>, name: Seq<char>) -> ValueView {
    if record.contains_key(name) {
        record[name]
    } else {
        ValueView::Null
    }
}

impl Context {
    /// The context for `target`, without any variable.
    pub fn new(target: LogEvent) -> (ctx: Context)
        ensures
            ctx.target@ == target@,
            ctx.variables@ == Map::<Seq<char>, ValueView>::empty(),
    {
        Context { target, variables: LogEvent::new() }
    }

    /// The value of the event's field `name`, if the event has it.
    pub fn get(&self, name: &str) -> (found: Option<&Value>)
        ensures
            match found {
                Some(value) => self.target@.contains_key(name@) && value@ == self.target@[name@],
                None => !self.target@.contains_key(name@),
            },
    {
        self.target.get(name)
    }

    /// Sets the event's field `name`.
    pub fn set(&mut self, name: String, value: Value)
        ensures
            final(self).target@ == old(self).target@.insert(name@, value@),
            final(self).variables@ == old(self).variables@,
    {
        self.target.insert(name, value);
    }

    /// Takes the field `name` out of the event.
    pub fn remove(&mut self, name: &str)
        ensures
            final(self).target@ == old(self).target@.remove(name@),
            final(self).variables@ == old(self).variables@,
    {
        self.target.remove(name);
    }

    /// The value of the variable `ident`, if it has one.
    pub fn variable(&self, ident: &str) -> (found: Option<&Value>)
        ensures
            match found {
                Some(value) => self.variables@.contains_key(ident@) && value@
                    == self.variables@[ident@],
                None => !self.variables@.contains_key(ident@),
            },
    {
        self.variables.get(ident)
    }

    /// Gives the variable `ident` a value.
    pub fn set_variable(&mut self, ident: String, value: Value)
        ensures
            final(self).variables@ == old(self).variables@.insert(ident@, value@),
            final(self).target@ == old(self).target@,
    {
        self.variables.insert(ident, value);
    }

    /// The context agrees with the static model of the variables and of
    /// the fields.
    pub open spec fn conforms(
        &self,
        local: Map<Seq<char>, TypeDef>,
        external: Map<Seq<char>, TypeDef>,
    ) -> bool {
        conforming(self.target@, self.variables@, local, external)
    }
}

/// The values agree with the static model: wherever the model calls a
/// field or a variable infallible, the value found there has one of the
/// shapes that the model allows. Of a name that the model calls fallible
/// it promises nothing: there the model is an approximation.
pub open spec fn conforming(
    target: Map<Seq<char>, ValueView>,
    variables: Map<Seq<char>, ValueView>,
    local: Map<Seq<char>, TypeDef>,
    external: Map<Seq<char>, TypeDef>,
) -> bool {
    &&& forall|name: Seq<char>|
        !field_type(external, name).fallible ==> #[trigger] field_type(external, name).kind.has(
            value_at(target, name).shape(),
        )
    &&& forall|ident: Seq<char>|
        !variable_type(local, ident).fallible ==> #[trigger] variable_type(
            local,
            ident,
        ).kind.has(value_at(variables, ident).shape())
}

} // verus!
