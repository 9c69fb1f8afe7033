//! The logical operators `&&` and `||`.

use vstd::prelude::*;
use crate::compiled::{lemma_branch_view, Backend, CodegenError, Instruction, InstructionView};
use crate::context::Context;
use crate::expression::{op_type, op_value, outcome_view, Expr, RuntimeError};
use crate::parser::Node;
use crate::state::{ExternalEnv, LocalEnv};
use crate::text::push_char;
use crate::type_def::TypeDef;
use crate::value::Value;

verus! {

/// A logical operator.
#[derive(Clone, Copy, Debug, PartialEq, Eq, Structural)]
pub enum Opcode {
    /// `&&`: true if both operands are.
    And,
    /// `||`: true if either operand is.
    Or,
}

impl Opcode {
    /// The operator as it is written.
    pub open spec fn text(self) -> Seq<char> {
        match self {
            Opcode::And => "&&"@,
            Opcode::Or => "||"@,
        }
    }

    /// The left operand decides alone: `false` decides `&&`, and `true`
    /// decides `||`. The right operand is then not evaluated.
    pub open spec fn decided_by(self, left: bool) -> bool {
        match self {
            Opcode::And => !left,
            Opcode::Or => left,
        }
    }

    /// The operator as it is written.
    pub fn as_str(&self) -> (text: &'static str)
        ensures
            text@ == self.text(),
    {
        match self {
            Opcode::And => "&&",
            Opcode::Or => "||",
        }
    }
}

/// The operation `lhs opcode rhs`.
#[derive(Debug, PartialEq)]
pub struct Op {
    lhs: Box<Expr>,
    rhs: Box<Expr>,
    opcode: Opcode,
}

impl Op {
    /// The left operand.
    pub closed spec fn lhs(&self) -> Expr {
        *self.lhs
    }

    /// The right operand.
    pub closed spec fn rhs(&self) -> Expr {
        *self.rhs
    }

    /// The operator.
    pub closed spec fn opcode(&self) -> Opcode {
        self.opcode
    }

    /// The operation `lhs opcode rhs`.
    pub closed spec fn of(lhs: Expr, opcode: Opcode, rhs: Expr) -> Op {
        Op { lhs: Box::new(lhs), rhs: Box::new(rhs), opcode }
    }

    /// An operation is what its parts are.
    pub broadcast proof fn lemma_of_parts(lhs: Expr, opcode: Opcode, rhs: Expr)
        ensures
            (#[trigger] Op::of(lhs, opcode, rhs)).lhs() == lhs,
            Op::of(lhs, opcode, rhs).opcode() == opcode,
            Op::of(lhs, opcode, rhs).rhs() == rhs,
    {
    }

    /// The operands are smaller expressions than the operation.
    pub proof fn lemma_operands_are_smaller(&self)
        ensures
            decreases_to!(self => self.lhs()),
            decreases_to!(self => self.rhs()),
    {
    }

    /// Builds the operation of the operator in `opcode` on the
    /// expressions in `lhs` and `rhs`. Operands of any kind are taken:
    /// one that is not exactly boolean makes the operation fallible.
    pub fn new(lhs: Node<Expr>, opcode: Node<Opcode>, rhs: Node<Expr>) -> (op: Op)
        ensures
            op == Op::of(lhs.node, opcode.node, rhs.node),
            op.lhs() == lhs.node,
            op.opcode() == opcode.node,
            op.rhs() == rhs.node,
    {
        let (_, lhs) = lhs.take();
        let (_, opcode) = opcode.take();
        let (_, rhs) = rhs.take();
        Op { lhs: Box::new(lhs), rhs: Box::new(rhs), opcode }
    }

    /// Evaluates the left operand and takes its value as a boolean. Where
    /// that decides, it is the result, and the right operand is not
    /// evaluated; else the right operand is evaluated, and its value,
    /// taken as a boolean, is the result.
    pub fn resolve(&self, ctx: &mut Context) -> (outcome: Result<Value, RuntimeError>)
        ensures
            outcome_view(outcome) == op_value(
                self.opcode(),
                self.lhs().resolve_spec(old(ctx).target@, old(ctx).variables@),
                self.rhs().resolve_spec(old(ctx).target@, old(ctx).variables@),
            ),
            final(ctx).target@ == old(ctx).target@,
            final(ctx).variables@ == old(ctx).variables@,
        decreases self,
    {
        let value = match self.lhs.resolve(ctx) {
            Ok(value) => value,
            Err(error) => {
                return Err(error);
            },
        };
        let left = match value.try_boolean() {
            Ok(left) => left,
            Err(error) => {
                return Err(RuntimeError::Coercion(error));
            },
        };
        let decided = match self.opcode {
            Opcode::And => !left,
            Opcode::Or => left,
        };
        if decided {
            return Ok(Value::Boolean(left));
        }
        let value = match self.rhs.resolve(ctx) {
            Ok(value) => value,
            Err(error) => {
                return Err(error);
            },
        };
        match value.try_boolean() {
            Ok(right) => Ok(Value::Boolean(right)),
            Err(error) => Err(RuntimeError::Coercion(error)),
        }
    }

    /// The static type: boolean; fallible if an operand is, or if an
    /// operand is not exactly boolean, for then taking its value as a
    /// boolean may fail; abortable if an operand is.
    pub fn type_def(&self, state: (&LocalEnv, &ExternalEnv)) -> (def: TypeDef)
        ensures
            def == op_type(
                self.lhs().type_def_spec(state.0@, state.1@),
                self.rhs().type_def_spec(state.0@, state.1@),
            ),
        decreases self,
    {
        let lhs = self.lhs.type_def(state);
        let rhs = self.rhs.type_def(state);
        let fallible = lhs.is_fallible() || rhs.is_fallible() || !lhs.is_boolean()
            || !rhs.is_boolean();
        let abortable = lhs.is_abortable() || rhs.is_abortable();

        TypeDef::boolean().with_fallibility(fallible).with_abortability(abortable)
    }

    /// Adds the compiled form of the operation to the program of
    /// `backend`: the steps of the left operand, and a branch around the
    /// steps of the right operand. Where an operand has no compiled form
    /// the request is refused and the program is left as it was.
    pub fn emit_compiled(&self, state: (&LocalEnv, &ExternalEnv), backend: &mut Backend) -> (outcome:
        Result<(), CodegenError>)
        ensures
            match outcome {
                Ok(()) => {
                    &&& self.lhs().compilable()
                    &&& self.rhs().compilable()
                    &&& final(backend)@ == old(backend)@ + self.lhs().code_spec().push(
                        InstructionView::Branch(self.opcode(), self.rhs().code_spec()),
                    )
                },
                Err(error) => {
                    &&& !(self.lhs().compilable() && self.rhs().compilable())
                    &&& error == CodegenError::Unsupported
                    &&& final(backend)@ == old(backend)@
                },
            },
        decreases self,
    {
        let mut left = Backend::new();
        match self.lhs.emit_compiled(state, &mut left) {
            Ok(()) => {},
            Err(error) => {
                return Err(error);
            },
        }
        let mut right = Backend::new();
        match self.rhs.emit_compiled(state, &mut right) {
            Ok(()) => {},
            Err(error) => {
                return Err(error);
            },
        }
        let ghost left_code = left@;
        let ghost right_code = right@;
        assert(left_code =~= self.lhs().code_spec());
        assert(right_code =~= self.rhs().code_spec());
        let rest = right.into_code();
        proof {
            lemma_branch_view(self.opcode, rest);
        }
        let branch = Instruction::Branch(self.opcode, rest);
        backend.extend(left);
        backend.emit(branch);
        assert(backend@ =~= old(backend)@ + self.lhs().code_spec().push(
            InstructionView::Branch(self.opcode(), self.rhs().code_spec()),
        ));
        Ok(())
    }

    /// The operation as it is written: the operands, with the operator
    /// between them, in round brackets.
    pub fn format(&self) -> (text: String)
        ensures
            text@ == seq!['('] + self.lhs().format_spec() + seq![' '] + self.opcode().text()
                + seq![' '] + self.rhs().format_spec() + seq![')'],
        decreases self,
    {
        let mut text = String::new();
        push_char(&mut text, '(');
        let lhs = self.lhs.format();
        text.append(lhs.as_str());
        push_char(&mut text, ' ');
        text.append(self.opcode.as_str());
        push_char(&mut text, ' ');
        let rhs = self.rhs.format();
        text.append(rhs.as_str());
        push_char(&mut text, ')');
        assert(text@ =~= seq!['('] + self.lhs().format_spec() + seq![' '] + self.opcode().text()
            + seq![' '] + self.rhs().format_spec() + seq![')']);
        text
    }
}

} // verus!
