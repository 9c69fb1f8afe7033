//! From a syntax tree to a program, and from a program and an event to a
//! value: what the pipeline around the language calls.

use vstd::prelude::*;
use crate::context::{conforming, Context};
use crate::diagnostic::{Diagnostic, DiagnosticView};
use crate::diagnostic::Urls;
use crate::event::LogEvent;
use crate::expression::not::{Error, Not};
use crate::expression::op::{Op, Opcode};
use crate::expression::{outcome_view, Expr, Literal, RuntimeError};
use crate::parser::Node;
use crate::span::Span;
use crate::state::{ExternalEnv, LocalEnv};
use crate::type_def::TypeDef;
use crate::value::{Value, ValueView};

verus! {

/// An expression as the parser read it, before anything was checked.
#[derive(Debug, PartialEq)]
pub enum Syntax {
    /// A value written out in the source.
    Literal(Literal),
    /// The field of the event that has the given name.
    Query(String),
    /// The variable that has the given name.
    Variable(String),
    /// A `!`, read from `operator`, before an operand.
    Not { operator: Span, operand: Box<Node<Syntax>> },
    /// A logical operator between two operands.
    Op { lhs: Box<Node<Syntax>>, opcode: Node<Opcode>, rhs: Box<Node<Syntax>> },
}

impl Syntax {
    /// The expression that the syntax is read as.
    pub open spec fn expr(self) -> Expr
        decreases self,
    {
        match self {
            Syntax::Literal(literal) => Expr::Literal(literal),
            Syntax::Query(field) => Expr::Query(field),
            Syntax::Variable(ident) => Expr::Variable(ident),
            Syntax::Not { operator, operand } => Expr::Not(Not::of(operand.node.expr())),
            Syntax::Op { lhs, opcode, rhs } => Expr::Op(
                Op::of(lhs.node.expr(), opcode.node, rhs.node.expr()),
            ),
        }
    }

    /// The error that the syntax is refused with, if it is refused: that
    /// of the first negation, from the inside out and from left to
    /// right, whose operand is not exactly boolean.
    pub open spec fn refusal(
        self,
        local: Map<Seq<char>, TypeDef>,
        external: Map<Seq<char>, TypeDef>,
    ) -> Option<Error>
        decreases self,
    {
        match self {
            Syntax::Not { operator, operand } => match operand.node.refusal(local, external) {
                Some(error) => Some(error),
                None => {
                    let type_def = operand.node.expr().type_def_spec(local, external);
                    if type_def.is_boolean_spec() {
                        None
                    } else {
                        Some(Error::refusal(type_def.kind, operator, operand.span))
                    }
                },
            },
            Syntax::Op { lhs, opcode, rhs } => match lhs.node.refusal(local, external) {
                Some(error) => Some(error),
                None => rhs.node.refusal(local, external),
            },
            _ => None,
        }
    }

    /// Syntax that is not refused is read as a well-typed expression.
    pub proof fn lemma_accepted_is_well_typed(
        self,
        local: Map<Seq<char>, TypeDef>,
        external: Map<Seq<char>, TypeDef>,
    )
        requires
            self.refusal(local, external) is None,
        ensures
            self.expr().well_typed(local, external),
        decreases self,
    {
        broadcast use Not::lemma_of_inner, Op::lemma_of_parts;

        match self {
            Syntax::Not { operator, operand } => {
                operand.node.lemma_accepted_is_well_typed(local, external);
            },
            Syntax::Op { lhs, opcode, rhs } => {
                lhs.node.lemma_accepted_is_well_typed(local, external);
                rhs.node.lemma_accepted_is_well_typed(local, external);
            },
            _ => {},
        }
    }
}

impl Syntax {
    /// Syntax that is read as a well-typed expression is not refused.
    pub proof fn lemma_well_typed_is_accepted(
        self,
        local: Map<Seq<char>, TypeDef>,
        external: Map<Seq<char>, TypeDef>,
    )
        requires
            self.expr().well_typed(local, external),
        ensures
            self.refusal(local, external) is None,
        decreases self,
    {
        broadcast use Not::lemma_of_inner, Op::lemma_of_parts;

        match self {
            Syntax::Not { operator, operand } => {
                operand.node.lemma_well_typed_is_accepted(local, external);
            },
            Syntax::Op { lhs, opcode, rhs } => {
                lhs.node.lemma_well_typed_is_accepted(local, external);
                rhs.node.lemma_well_typed_is_accepted(local, external);
            },
            _ => {},
        }
    }
}

/// Checks the syntax in `node` from the inside out and builds the
/// expression that it is read as, or returns the first error.
pub fn construct(node: Node<Syntax>, state: (&LocalEnv, &ExternalEnv)) -> (outcome: Result<
    Expr,
    Error,
>)
    ensures
        match outcome {
            Ok(expr) => node.node.refusal(state.0@, state.1@) is None && expr == node.node.expr(),
            Err(error) => node.node.refusal(state.0@, state.1@) == Some(error),
        },
    decreases node,
{
    let (_, syntax) = node.take();
    match syntax {
        Syntax::Literal(literal) => Ok(Expr::Literal(literal)),
        Syntax::Query(field) => Ok(Expr::Query(field)),
        Syntax::Variable(ident) => Ok(Expr::Variable(ident)),
        Syntax::Not { operator, operand } => {
            let operand_span = operand.span();
            let inner = match construct(*operand, state) {
                Ok(inner) => inner,
                Err(error) => {
                    return Err(error);
                },
            };
            match Not::new(Node::new(operand_span, inner), operator, state) {
                Ok(not) => Ok(Expr::Not(not)),
                Err(error) => Err(error),
            }
        },
        Syntax::Op { lhs, opcode, rhs } => {
            let lhs_span = lhs.span();
            let rhs_span = rhs.span();
            let left = match construct(*lhs, state) {
                Ok(left) => left,
                Err(error) => {
                    return Err(error);
                },
            };
            let right = match construct(*rhs, state) {
                Ok(right) => right,
                Err(error) => {
                    return Err(error);
                },
            };
            Ok(Expr::Op(Op::new(Node::new(lhs_span, left), opcode, Node::new(rhs_span, right))))
        },
    }
}

/// A program: an expression that was checked when it was built.
#[derive(Debug, PartialEq)]
pub struct Program {
    expr: Expr,
}

impl Program {
    /// The expression of the program.
    pub closed spec fn expr(&self) -> Expr {
        self.expr
    }

    /// The expression of the program.
    pub fn expression(&self) -> (expr: &Expr)
        ensures
            *expr == self.expr(),
    {
        &self.expr
    }

    /// The static type of the program under `state`.
    pub fn type_def(&self, state: (&LocalEnv, &ExternalEnv)) -> (def: TypeDef)
        ensures
            def == self.expr().type_def_spec(state.0@, state.1@),
    {
        self.expr.type_def(state)
    }

    /// Runs the program on one event, in a context of its own, and
    /// returns the value or the error.
    pub fn run(&self, event: LogEvent) -> (outcome: Result<Value, RuntimeError>)
        ensures
            outcome_view(outcome) == self.expr().resolve_spec(
                event@,
                Map::<Seq<char>, ValueView>::empty(),
            ),
    {
        let mut ctx = Context::new(event);
        self.expr.resolve(&mut ctx)
    }
}

/// The views of a list of diagnostics.
pub open spec fn diagnostic_views(reports: Seq<Diagnostic>) -> Seq<DiagnosticView> {
    Seq::new(reports.len(), |i: int| reports[i]@)
}

/// Builds the program that the syntax in `node` is read as under `state`.
/// Syntax that is refused gives no program but the report of the error,
/// with addresses from `urls`.
pub fn compile(node: Node<Syntax>, state: (&LocalEnv, &ExternalEnv), urls: &Urls) -> (outcome:
    Result<Program, Vec<Diagnostic>>)
    ensures
        match outcome {
            Ok(program) => {
                &&& node.node.refusal(state.0@, state.1@) is None
                &&& program.expr() == node.node.expr()
                &&& program.expr().well_typed(state.0@, state.1@)
            },
            Err(reports) => {
                &&& node.node.refusal(state.0@, state.1@) is Some
                &&& diagnostic_views(reports@) == seq![
                    node.node.refusal(state.0@, state.1@)->Some_0.diagnostic_spec(urls@),
                ]
            },
        },
{
    proof {
        if node.node.refusal(state.0@, state.1@) is None {
            node.node.lemma_accepted_is_well_typed(state.0@, state.1@);
        }
    }
    match construct(node, state) {
        Ok(expr) => Ok(Program { expr }),
        Err(error) => {
            let mut reports: Vec<Diagnostic> = Vec::new();
            reports.push(error.diagnostic(urls));
            assert(diagnostic_views(reports@) =~= seq![error.diagnostic_spec(urls@)]);
            Err(reports)
        },
    }
}

/// A program that was built evaluates within its static type: if the type
/// is infallible, the program fails on no event that agrees with the
/// schema that it was built under.
pub proof fn theorem_built_program_is_sound(
    syntax: Syntax,
    local: Map<Seq<char>, TypeDef>,
    external: Map<Seq<char>, TypeDef>,
    event: Map<Seq<char>, ValueView>,
)
    requires
        syntax.refusal(local, external) is None,
        !syntax.expr().type_def_spec(local, external).fallible,
        conforming(event, Map::<Seq<char>, ValueView>::empty(), local, external),
    ensures
        syntax.expr().resolve_spec(event, Map::<Seq<char>, ValueView>::empty()) is Ok,
{
    syntax.lemma_accepted_is_well_typed(local, external);
    syntax.expr().theorem_infallible_never_fails(
        local,
        external,
        event,
        Map::<Seq<char>, ValueView>::empty(),
    );
}

/// Writing a program and reading it back keeps its type: where `read` is
/// what a parser makes of the written form of the well-typed expression
/// `expr`, so that it is written as `expr` is, it is built without error
/// into an expression of the same static type, which evaluates to the
/// same on every event.
pub proof fn theorem_written_and_read_back(
    expr: Expr,
    read: Syntax,
    local: Map<Seq<char>, TypeDef>,
    external: Map<Seq<char>, TypeDef>,
    event: Map<Seq<char>, ValueView>,
)
    requires
        expr.writable(),
        expr.well_typed(local, external),
        read.expr().writable(),
        read.expr().format_spec() == expr.format_spec(),
    ensures
        read.refusal(local, external) is None,
        read.expr().type_def_spec(local, external) == expr.type_def_spec(local, external),
        read.expr().resolve_spec(event, Map::<Seq<char>, ValueView>::empty())
            == expr.resolve_spec(event, Map::<Seq<char>, ValueView>::empty()),
{
    let variables = Map::<Seq<char>, ValueView>::empty();
    expr.lemma_written_alike(read.expr());
    expr.lemma_alike_means_the_same(read.expr(), local, external, event, variables);
    read.lemma_well_typed_is_accepted(local, external);
}

/// Building is determined: the same syntax under the same environment is
/// refused with the same error, so with the same code and the same
/// labelled spans, however often it is built.
pub proof fn theorem_same_source_same_diagnostic(
    syntax: Syntax,
    local: Map<Seq<char>, TypeDef>,
    external: Map<Seq<char>, TypeDef>,
    urls: Seq<char>,
    first: Error,
    second: Error,
)
    requires
        syntax.refusal(local, external) == Some(first),
        syntax.refusal(local, external) == Some(second),
    ensures
        first == second,
        first.diagnostic_spec(urls).code == second.diagnostic_spec(urls).code,
        first.diagnostic_spec(urls).labels == second.diagnostic_spec(urls).labels,
        first.diagnostic_spec(urls) == second.diagnostic_spec(urls),
{
}

} // verus!
