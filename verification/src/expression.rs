//! Expressions: the closed set of their variants, their static types and
//! their evaluation.

pub mod not;
pub mod op;
pub mod written;

use vstd::prelude::*;
use crate::context::{conforming, value_at, Context};
use crate::expression::not::Not;
use crate::expression::op::{Op, Opcode};
use crate::kind::{Kind, Shape};
use crate::state::{field_type, variable_type, ExternalEnv, LocalEnv};
use crate::text::{i64_to_string, push_char, signed_decimal};
use crate::type_def::TypeDef;
use crate::value::{try_boolean_spec, Value, ValueError, ValueView};

verus! {

/// Why an evaluation failed.
#[derive(Clone, Copy, Debug, PartialEq, Eq, Structural)]
pub enum RuntimeError {
    /// A value did not have the shape that the operation works on.
    Coercion(ValueError),
    /// A compiled program found no value where it needed one.
    NoValue,
}

/// A value written out in the source.
#[derive(Debug, PartialEq)]
pub enum Literal {
    Boolean(bool),
    Integer(i64),
    String(String),
    Null,
}

/// How one character stands inside a quoted string: a quote and a
/// backslash behind a backslash, every other character as it is.
pub open spec fn escape_char(c: char) -> Seq<char> {
    if c == '"' {
        seq!['\\', '"']
    } else if c == '\\' {
        seq!['\\', '\\']
    } else {
        seq![c]
    }
}

/// The characters of a text as they stand inside a quoted string.
pub open spec fn escaped(text: Seq<char>) -> Seq<char>
    decreases text.len(),
{
    if text.len() == 0 {
        Seq::empty()
    } else {
        escaped(text.drop_last()) + escape_char(text.last())
    }
}

impl Literal {
    /// The value that the literal stands for.
    pub open spec fn value(self) -> ValueView {
        match self {
            Literal::Boolean(b) => ValueView::Boolean(b),
            Literal::Integer(i) => ValueView::Integer(i),
            Literal::String(s) => ValueView::String(s@),
            Literal::Null => ValueView::Null,
        }
    }

    /// The literal as it is written.
    pub open spec fn text(self) -> Seq<char> {
        match self {
            Literal::Boolean(b) => if b {
                "true"@
            } else {
                "false"@
            },
            Literal::Integer(i) => signed_decimal(i as int),
            Literal::String(s) => seq!['"'] + escaped(s@) + seq!['"'],
            Literal::Null => "null"@,
        }
    }

    /// The value that the literal stands for.
    pub fn to_value(&self) -> (value: Value)
        ensures
            value@ == self.value(),
    {
        match self {
            Literal::Boolean(b) => Value::Boolean(*b),
            Literal::Integer(i) => Value::Integer(*i),
            Literal::String(s) => Value::String(s.clone()),
            Literal::Null => Value::Null,
        }
    }

    /// The shape of the value that the literal stands for.
    pub fn shape(&self) -> (shape: Shape)
        ensures
            shape == self.value().shape(),
    {
        match self {
            Literal::Boolean(_) => Shape::Boolean,
            Literal::Integer(_) => Shape::Integer,
            Literal::String(_) => Shape::String,
            Literal::Null => Shape::Null,
        }
    }

    /// The literal as it is written.
    pub fn format(&self) -> (text: String)
        ensures
            text@ == self.text(),
    {
        match self {
            Literal::Boolean(b) => if *b {
                "true".to_string()
            } else {
                "false".to_string()
            },
            Literal::Integer(i) => i64_to_string(*i),
            Literal::String(s) => {
                let mut text = String::new();
                push_char(&mut text, '"');
                let ghost opening = text@;
                for c in it: s.as_str().chars()
                    invariant
                        opening == seq!['"'],
                        it.seq() == s@,
                        text@ == opening + escaped(it.seq().take(it.index@)),
                {
                    proof {
                        let done = it.seq().take(it.index@);
                        let next = it.seq().take(it.index@ + 1);
                        assert(next.drop_last() =~= done);
                        assert(next.last() == c);
                        assert(opening + escaped(next) =~= opening + escaped(done) + escape_char(
                            c,
                        ));
                    }
                    if c == '"' {
                        push_char(&mut text, '\\');
                        push_char(&mut text, '"');
                    } else if c == '\\' {
                        push_char(&mut text, '\\');
                        push_char(&mut text, '\\');
                    } else {
                        push_char(&mut text, c);
                    }
                    assert(text@ =~= opening + escaped(it.seq().take(it.index@)) + escape_char(c));
                }
                proof {
                    assert(s@.take(s@.len() as int) =~= s@);
                }
                push_char(&mut text, '"');
                assert(text@ =~= seq!['"'] + escaped(s@) + seq!['"']);
                text
            },
            Literal::Null => "null".to_string(),
        }
    }
}

/// An expression of the language. The set of variants is closed; each
/// variant owns the expressions below it.
#[derive(Debug, PartialEq)]
pub enum Expr {
    /// A value written out in the source.
    Literal(Literal),
    /// The field of the event that has the given name.
    Query(String),
    /// The variable that has the given name.
    Variable(String),
    /// The negation of a boolean expression.
    Not(Not),
    /// A logical operation on two expressions.
    Op(Op),
}

/// The static type of a negation whose operand has the type `inner`: the
/// kind is `{boolean}`, and the operand's flags pass through.
pub open spec fn not_type(inner: TypeDef) -> TypeDef {
    TypeDef {
        kind: Kind::only(Shape::Boolean),
        fallible: inner.fallible,
        abortable: inner.abortable,
    }
}

/// What a negation evaluates to, given what its operand evaluated to: the
/// operand's error; or the mismatch where its value is no boolean; or the
/// other boolean.
pub open spec fn not_value(inner: Result<ValueView, RuntimeError>) -> Result<
    ValueView,
    RuntimeError,
> {
    match inner {
        Err(error) => Err(error),
        Ok(value) => match try_boolean_spec(value) {
            Ok(b) => Ok(ValueView::Boolean(!b)),
            Err(error) => Err(RuntimeError::Coercion(error)),
        },
    }
}

/// The static type of a logical operation whose operands have the types
/// `lhs` and `rhs`: the kind is `{boolean}`; each flag of an operand is
/// kept; and the operation is fallible of itself where an operand is not
/// exactly boolean.
pub open spec fn op_type(lhs: TypeDef, rhs: TypeDef) -> TypeDef {
    TypeDef {
        kind: Kind::only(Shape::Boolean),
        fallible: lhs.fallible || rhs.fallible || !lhs.is_boolean_spec() || !rhs.is_boolean_spec(),
        abortable: lhs.abortable || rhs.abortable,
    }
}

/// What a logical operation evaluates to, given what its operands
/// evaluate to. The left operand comes first: its error, or the mismatch
/// where its value is no boolean, is the outcome. Where its value decides
/// the operation, that value is the outcome, whatever the right operand
/// would evaluate to. Else the outcome is that of the right operand: its
/// error, the mismatch, or its boolean.
pub open spec fn op_value(
    opcode: Opcode,
    lhs: Result<ValueView, RuntimeError>,
    rhs: Result<ValueView, RuntimeError>,
) -> Result<ValueView, RuntimeError> {
    match lhs {
        Err(error) => Err(error),
        Ok(value) => match try_boolean_spec(value) {
            Err(error) => Err(RuntimeError::Coercion(error)),
            Ok(left) => if opcode.decided_by(left) {
                Ok(ValueView::Boolean(left))
            } else {
                match rhs {
                    Err(error) => Err(error),
                    Ok(value) => match try_boolean_spec(value) {
                        Err(error) => Err(RuntimeError::Coercion(error)),
                        Ok(right) => Ok(ValueView::Boolean(right)),
                    },
                }
            },
        },
    }
}

/// The content of the outcome of an evaluation.
pub open spec fn outcome_view(outcome: Result<Value, RuntimeError>) -> Result<
    ValueView,
    RuntimeError,
> {
    match outcome {
        Ok(value) => Ok(value@),
        Err(error) => Err(error),
    }
}

impl Expr {
    /// The static type of the expression where the variables and the
    /// fields have the given types.
    pub open spec fn type_def_spec(
        self,
        local: Map<Seq<char>, TypeDef>,
        external: Map<Seq<char>, TypeDef>,
    ) -> TypeDef
        decreases self,
        via Self::operand_is_smaller_types
    {
        match self {
            Expr::Literal(literal) => TypeDef::of(literal.value().shape()),
            Expr::Query(field) => field_type(external, field@),
            Expr::Variable(ident) => variable_type(local, ident@),
            Expr::Not(not) => not_type(not.inner().type_def_spec(local, external)),
            Expr::Op(op) => op_type(
                op.lhs().type_def_spec(local, external),
                op.rhs().type_def_spec(local, external),
            ),
        }
    }

    #[via_fn]
    proof fn operand_is_smaller_types(
        self,
        local: Map<Seq<char>, TypeDef>,
        external: Map<Seq<char>, TypeDef>,
    ) {
        match self {
            Expr::Not(not) => not.lemma_inner_is_smaller(),
            Expr::Op(op) => op.lemma_operands_are_smaller(),
            _ => {},
        }
    }

    /// Every negation in the expression has an operand whose static type
    /// is exactly boolean.
    pub open spec fn well_typed(
        self,
        local: Map<Seq<char>, TypeDef>,
        external: Map<Seq<char>, TypeDef>,
    ) -> bool
        decreases self,
        via Self::operand_is_smaller_typed
    {
        match self {
            Expr::Not(not) => not.inner().well_typed(local, external) && not.inner().type_def_spec(
                local,
                external,
            ).is_boolean_spec(),
            Expr::Op(op) => op.lhs().well_typed(local, external) && op.rhs().well_typed(
                local,
                external,
            ),
            _ => true,
        }
    }

    #[via_fn]
    proof fn operand_is_smaller_typed(
        self,
        local: Map<Seq<char>, TypeDef>,
        external: Map<Seq<char>, TypeDef>,
    ) {
        match self {
            Expr::Not(not) => not.lemma_inner_is_smaller(),
            Expr::Op(op) => op.lemma_operands_are_smaller(),
            _ => {},
        }
    }

    /// What the expression evaluates to against an event and the values
    /// of the variables. Operands come first, from left to right; the
    /// right operand of a logical operation counts only where the left
    /// one does not decide.
    pub open spec fn resolve_spec(
        self,
        target: Map<Seq<char>, ValueView>,
        variables: Map<Seq<char>, ValueView>,
    ) -> Result<ValueView, RuntimeError>
        decreases self,
        via Self::operand_is_smaller_values
    {
        match self {
            Expr::Literal(literal) => Ok(literal.value()),
            Expr::Query(field) => Ok(value_at(target, field@)),
            Expr::Variable(ident) => Ok(value_at(variables, ident@)),
            Expr::Not(not) => not_value(not.inner().resolve_spec(target, variables)),
            Expr::Op(op) => op_value(
                op.opcode(),
                op.lhs().resolve_spec(target, variables),
                op.rhs().resolve_spec(target, variables),
            ),
        }
    }

    #[via_fn]
    proof fn operand_is_smaller_values(
        self,
        target: Map<Seq<char>, ValueView>,
        variables: Map<Seq<char>, ValueView>,
    ) {
        match self {
            Expr::Not(not) => not.lemma_inner_is_smaller(),
            Expr::Op(op) => op.lemma_operands_are_smaller(),
            _ => {},
        }
    }

    /// The expression as it is written.
    pub open spec fn format_spec(self) -> Seq<char>
        decreases self,
        via Self::operand_is_smaller
    {
        match self {
            Expr::Literal(literal) => literal.text(),
            Expr::Query(field) => seq!['.'] + field@,
            Expr::Variable(ident) => ident@,
            Expr::Not(not) => seq!['!'] + not.inner().format_spec(),
            Expr::Op(op) => seq!['('] + op.lhs().format_spec() + seq![' '] + op.opcode().text()
                + seq![' '] + op.rhs().format_spec() + seq![')'],
        }
    }

    #[via_fn]
    proof fn operand_is_smaller(self) {
        match self {
            Expr::Not(not) => not.lemma_inner_is_smaller(),
            Expr::Op(op) => op.lemma_operands_are_smaller(),
            _ => {},
        }
    }

    /// The static type of the expression under `state`.
    pub fn type_def(&self, state: (&LocalEnv, &ExternalEnv)) -> (def: TypeDef)
        ensures
            def == self.type_def_spec(state.0@, state.1@),
        decreases self,
    {
        match self {
            Expr::Literal(literal) => TypeDef::new(Kind::exact(literal.shape())),
            Expr::Query(field) => match state.1.field(field.as_str()) {
                Some(def) => def,
                None => TypeDef::any(),
            },
            Expr::Variable(ident) => match state.0.variable(ident.as_str()) {
                Some(def) => def,
                None => TypeDef::null(),
            },
            Expr::Not(not) => not.type_def(state),
            Expr::Op(op) => op.type_def(state),
        }
    }

    /// Evaluates the expression against `ctx`, which it leaves as it was.
    pub fn resolve(&self, ctx: &mut Context) -> (outcome: Result<Value, RuntimeError>)
        ensures
            outcome_view(outcome) == self.resolve_spec(old(ctx).target@, old(ctx).variables@),
            final(ctx).target@ == old(ctx).target@,
            final(ctx).variables@ == old(ctx).variables@,
        decreases self,
    {
        match self {
            Expr::Literal(literal) => Ok(literal.to_value()),
            Expr::Query(field) => match ctx.get(field.as_str()) {
                Some(value) => Ok(value.clone()),
                None => Ok(Value::Null),
            },
            Expr::Variable(ident) => match ctx.variable(ident.as_str()) {
                Some(value) => Ok(value.clone()),
                None => Ok(Value::Null),
            },
            Expr::Not(not) => not.resolve(ctx),
            Expr::Op(op) => op.resolve(ctx),
        }
    }

    /// The expression as it is written.
    pub fn format(&self) -> (text: String)
        ensures
            text@ == self.format_spec(),
        decreases self,
    {
        match self {
            Expr::Literal(literal) => literal.format(),
            Expr::Query(field) => {
                let mut text = String::new();
                push_char(&mut text, '.');
                text.append(field.as_str());
                assert(text@ =~= seq!['.'] + field@);
                text
            },
            Expr::Variable(ident) => ident.clone(),
            Expr::Not(not) => not.format(),
            Expr::Op(op) => op.format(),
        }
    }
    /// The expression `part` occurs in this one: it is this expression or
    /// occurs in one of its operands.
    pub open spec fn has_part(self, part: Expr) -> bool
        decreases self,
        via Self::operand_is_smaller_part
    {
        self == part || match self {
            Expr::Not(not) => not.inner().has_part(part),
            Expr::Op(op) => op.lhs().has_part(part) || op.rhs().has_part(part),
            _ => false,
        }
    }

    #[via_fn]
    proof fn operand_is_smaller_part(self, part: Expr) {
        match self {
            Expr::Not(not) => not.lemma_inner_is_smaller(),
            Expr::Op(op) => op.lemma_operands_are_smaller(),
            _ => {},
        }
    }

    /// The expression has no operand.
    pub open spec fn is_leaf(self) -> bool {
        !(self is Not) && !(self is Op)
    }

    /// The expression is fallible of itself, whatever its operands are:
    /// it is a logical operation on an operand that is not exactly
    /// boolean.
    pub open spec fn adds_fallibility(
        self,
        local: Map<Seq<char>, TypeDef>,
        external: Map<Seq<char>, TypeDef>,
    ) -> bool {
        self is Op && (!self->Op_0.lhs().type_def_spec(local, external).is_boolean_spec()
            || !self->Op_0.rhs().type_def_spec(local, external).is_boolean_spec())
    }

    /// Evaluation stays within the static type: a well-typed expression
    /// that is not fallible, evaluated against values that agree with the
    /// model, does not fail, and its value has one of the shapes of its
    /// kind.
    pub proof fn lemma_resolves_within_type(
        self,
        local: Map<Seq<char>, TypeDef>,
        external: Map<Seq<char>, TypeDef>,
        target: Map<Seq<char>, ValueView>,
        variables: Map<Seq<char>, ValueView>,
    )
        requires
            self.well_typed(local, external),
            conforming(target, variables, local, external),
            !self.type_def_spec(local, external).fallible,
        ensures
            self.resolve_spec(target, variables) is Ok,
            self.type_def_spec(local, external).kind.has(
                self.resolve_spec(target, variables)->Ok_0.shape(),
            ),
        decreases self,
    {
        broadcast use Kind::lemma_constructors;

        match self {
            Expr::Literal(literal) => {},
            Expr::Query(field) => {
                assert(field_type(external, field@).kind.has(value_at(target, field@).shape()));
            },
            Expr::Variable(ident) => {
                assert(variable_type(local, ident@).kind.has(
                    value_at(variables, ident@).shape(),
                ));
            },
            Expr::Not(not) => {
                not.lemma_inner_is_smaller();
                not.inner().lemma_resolves_within_type(local, external, target, variables);
            },
            Expr::Op(op) => {
                op.lemma_operands_are_smaller();
                op.lhs().lemma_resolves_within_type(local, external, target, variables);
                op.rhs().lemma_resolves_within_type(local, external, target, variables);
            },
        }
    }

    /// An expression that is not fallible never fails: whatever values
    /// agree with the model, a well-typed expression whose static type is
    /// infallible evaluates to a value.
    pub proof fn theorem_infallible_never_fails(
        self,
        local: Map<Seq<char>, TypeDef>,
        external: Map<Seq<char>, TypeDef>,
        target: Map<Seq<char>, ValueView>,
        variables: Map<Seq<char>, ValueView>,
    )
        requires
            self.well_typed(local, external),
            conforming(target, variables, local, external),
            !self.type_def_spec(local, external).fallible,
        ensures
            self.resolve_spec(target, variables) is Ok,
    {
        self.lemma_resolves_within_type(local, external, target, variables);
    }

    /// No flag is lost on the way up: an expression is fallible if any
    /// expression that occurs in it is, and abortable if any is.
    pub proof fn theorem_flags_are_kept(
        self,
        part: Expr,
        local: Map<Seq<char>, TypeDef>,
        external: Map<Seq<char>, TypeDef>,
    )
        requires
            self.has_part(part),
        ensures
            part.type_def_spec(local, external).fallible ==> self.type_def_spec(
                local,
                external,
            ).fallible,
            part.type_def_spec(local, external).abortable ==> self.type_def_spec(
                local,
                external,
            ).abortable,
        decreases self,
    {
        if self != part {
            match self {
                Expr::Not(not) => {
                    not.lemma_inner_is_smaller();
                    not.inner().theorem_flags_are_kept(part, local, external);
                },
                Expr::Op(op) => {
                    op.lemma_operands_are_smaller();
                    if op.lhs().has_part(part) {
                        op.lhs().theorem_flags_are_kept(part, local, external);
                    } else {
                        op.rhs().theorem_flags_are_kept(part, local, external);
                    }
                },
                _ => {},
            }
        }
    }

    /// No flag comes from nowhere: a fallible expression holds an
    /// expression without operands that is fallible, or an operation that
    /// is fallible of itself. The one that is found is returned.
    pub proof fn theorem_fallible_has_source(
        self,
        local: Map<Seq<char>, TypeDef>,
        external: Map<Seq<char>, TypeDef>,
    ) -> (source: Expr)
        requires
            self.type_def_spec(local, external).fallible,
        ensures
            self.has_part(source),
            source.type_def_spec(local, external).fallible,
            source.is_leaf() || source.adds_fallibility(local, external),
        decreases self,
    {
        match self {
            Expr::Not(not) => {
                not.lemma_inner_is_smaller();
                not.inner().theorem_fallible_has_source(local, external)
            },
            Expr::Op(op) => {
                op.lemma_operands_are_smaller();
                if op.lhs().type_def_spec(local, external).fallible {
                    op.lhs().theorem_fallible_has_source(local, external)
                } else if op.rhs().type_def_spec(local, external).fallible {
                    op.rhs().theorem_fallible_has_source(local, external)
                } else {
                    self
                }
            },
            _ => self,
        }
    }

    /// No flag comes from nowhere: an abortable expression holds an
    /// abortable expression without operands, which is returned.
    pub proof fn theorem_abortable_has_source(
        self,
        local: Map<Seq<char>, TypeDef>,
        external: Map<Seq<char>, TypeDef>,
    ) -> (source: Expr)
        requires
            self.type_def_spec(local, external).abortable,
        ensures
            self.has_part(source),
            source.is_leaf(),
            source.type_def_spec(local, external).abortable,
        decreases self,
    {
        match self {
            Expr::Not(not) => {
                not.lemma_inner_is_smaller();
                not.inner().theorem_abortable_has_source(local, external)
            },
            Expr::Op(op) => {
                op.lemma_operands_are_smaller();
                if op.lhs().type_def_spec(local, external).abortable {
                    op.lhs().theorem_abortable_has_source(local, external)
                } else {
                    op.rhs().theorem_abortable_has_source(local, external)
                }
            },
            _ => self,
        }
    }
}

} // verus!
