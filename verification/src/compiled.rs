//! The second evaluator: a program of instructions, generated once from an
//! expression, that must evaluate to what the expression resolves to. An
//! expression that has no compiled form is refused whole, never left to
//! the interpreter in part.

use vstd::prelude::*;
use crate::context::{value_at, Context};
use crate::expression::op::Opcode;
use crate::expression::{outcome_view, Expr, RuntimeError};
use crate::state::{ExternalEnv, LocalEnv};
use crate::value::{try_boolean_spec, Value, ValueView};

verus! {

/// One step of a compiled program. The machine has one register, which
/// holds the value of the expression that was evaluated last.
#[derive(Debug, PartialEq)]
pub enum Instruction {
    /// Loads the given value.
    Constant(Value),
    /// Loads the value of the event's field of the given name.
    Field(String),
    /// Loads the value of the variable of the given name.
    Variable(String),
    /// Takes the value in the register as the left operand of a logical
    /// operator. Where it decides the operation it stays; else the steps
    /// of the right operand are run, and the boolean that they leave is
    /// loaded.
    Branch(Opcode, Vec<Instruction>),
}

/// The mathematical content of an [`Instruction`].
pub enum InstructionView {
    Constant(ValueView),
    Field(Seq<char>),
    Variable(Seq<char>),
    Branch(Opcode, Seq<InstructionView>),
}

impl View for Instruction {
    type V = InstructionView;

    open spec fn view(&self) -> InstructionView
        decreases self,
    {
        match self {
            Instruction::Constant(value) => InstructionView::Constant(value@),
            Instruction::Field(name) => InstructionView::Field(name@),
            Instruction::Variable(ident) => InstructionView::Variable(ident@),
            Instruction::Branch(opcode, rest) => InstructionView::Branch(
                *opcode,
                Seq::new(
                    rest@.len(),
                    |i: int|
                        if 0 <= i < rest@.len() {
                            rest@[i].view()
                        } else {
                            InstructionView::Variable(Seq::empty())
                        },
                ),
            ),
        }
    }
}

/// The views of a list of instructions.
pub open spec fn instruction_views(code: Seq<Instruction>) -> Seq<InstructionView> {
    Seq::new(code.len(), |i: int| code[i]@)
}

/// The view of a branch holds the views of its steps.
pub proof fn lemma_branch_view(opcode: Opcode, rest: Vec<Instruction>)
    ensures
        Instruction::Branch(opcode, rest)@ == InstructionView::Branch(
            opcode,
            instruction_views(rest@),
        ),
{
    reveal_with_fuel(<Instruction as View>::view, 2);
    let branch = Instruction::Branch(opcode, rest);
    assert(branch@->Branch_1 =~= instruction_views(rest@));
}

/// Why no code was generated.
#[derive(Clone, Copy, Debug, PartialEq, Eq, Structural)]
pub enum CodegenError {
    /// The expression holds a construct that has no compiled form.
    Unsupported,
}

/// The boolean in the register, or the error where it holds none.
pub open spec fn register_boolean(register: Option<ValueView>) -> Result<bool, RuntimeError> {
    match register {
        None => Err(RuntimeError::NoValue),
        Some(value) => match try_boolean_spec(value) {
            Ok(b) => Ok(b),
            Err(error) => Err(RuntimeError::Coercion(error)),
        },
    }
}

/// The register after one step.
pub open spec fn step_spec(
    instruction: InstructionView,
    register: Option<ValueView>,
    target: Map<Seq<char>, ValueView>,
    variables: Map<Seq<char>, ValueView>,
) -> Result<Option<ValueView>, RuntimeError>
    decreases instruction, 0int,
{
    match instruction {
        InstructionView::Constant(value) => Ok(Some(value)),
        InstructionView::Field(name) => Ok(Some(value_at(target, name))),
        InstructionView::Variable(ident) => Ok(Some(value_at(variables, ident))),
        InstructionView::Branch(opcode, rest) => match register_boolean(register) {
            Err(error) => Err(error),
            Ok(left) => if opcode.decided_by(left) {
                Ok(Some(ValueView::Boolean(left)))
            } else {
                match steps_spec(rest, 0, None, target, variables) {
                    Err(error) => Err(error),
                    Ok(after) => match register_boolean(after) {
                        Err(error) => Err(error),
                        Ok(right) => Ok(Some(ValueView::Boolean(right))),
                    },
                }
            },
        },
    }
}

/// The register after the steps of `code` from place `from` on have run,
/// in order. The first error ends the run.
pub open spec fn steps_spec(
    code: Seq<InstructionView>,
    from: int,
    register: Option<ValueView>,
    target: Map<Seq<char>, ValueView>,
    variables: Map<Seq<char>, ValueView>,
) -> Result<Option<ValueView>, RuntimeError>
    decreases code, code.len() - from,
{
    if from < 0 || from >= code.len() {
        Ok(register)
    } else {
        match step_spec(code[from], register, target, variables) {
            Err(error) => Err(error),
            Ok(after) => steps_spec(code, from + 1, after, target, variables),
        }
    }
}

/// What a program evaluates to: the value in the register when its steps
/// have run. A program that loads nothing leaves none.
pub open spec fn run_spec(
    code: Seq<InstructionView>,
    target: Map<Seq<char>, ValueView>,
    variables: Map<Seq<char>, ValueView>,
) -> Result<ValueView, RuntimeError> {
    match steps_spec(code, 0, None, target, variables) {
        Err(error) => Err(error),
        Ok(None) => Err(RuntimeError::NoValue),
        Ok(Some(value)) => Ok(value),
    }
}

/// The content of a register.
pub open spec fn register_view(register: Option<Value>) -> Option<ValueView> {
    match register {
        Some(value) => Some(value@),
        None => None,
    }
}

/// The boolean in the register, or the error where it holds none.
fn take_boolean(register: &Option<Value>) -> (outcome: Result<bool, RuntimeError>)
    ensures
        outcome == register_boolean(register_view(*register)),
{
    match register {
        None => Err(RuntimeError::NoValue),
        Some(value) => match value.try_boolean() {
            Ok(b) => Ok(b),
            Err(error) => Err(RuntimeError::Coercion(error)),
        },
    }
}

/// Runs the steps of `code` on an empty register.
fn run_steps(code: &Vec<Instruction>, ctx: &Context) -> (outcome: Result<
    Option<Value>,
    RuntimeError,
>)
    ensures
        match outcome {
            Ok(register) => steps_spec(
                instruction_views(code@),
                0,
                None,
                ctx.target@,
                ctx.variables@,
            ) == Ok::<Option<ValueView>, RuntimeError>(register_view(register)),
            Err(error) => steps_spec(
                instruction_views(code@),
                0,
                None,
                ctx.target@,
                ctx.variables@,
            ) == Err::<Option<ValueView>, RuntimeError>(error),
        },
    decreases code,
{
    let ghost views = instruction_views(code@);
    let mut register: Option<Value> = None;
    let mut i: usize = 0;
    while i < code.len()
        invariant
            i <= code@.len(),
            views == instruction_views(code@),
            steps_spec(views, 0, None, ctx.target@, ctx.variables@) == steps_spec(
                views,
                i as int,
                register_view(register),
                ctx.target@,
                ctx.variables@,
            ),
        decreases code@.len() - i,
    {
        proof {
            reveal_with_fuel(steps_spec, 2);
            reveal_with_fuel(step_spec, 2);
            assert(views[i as int] == code@[i as int]@);
        }
        let next = match &code[i] {
            Instruction::Constant(value) => Some(value.clone()),
            Instruction::Field(name) => match ctx.get(name.as_str()) {
                Some(value) => Some(value.clone()),
                None => Some(Value::Null),
            },
            Instruction::Variable(ident) => match ctx.variable(ident.as_str()) {
                Some(value) => Some(value.clone()),
                None => Some(Value::Null),
            },
            Instruction::Branch(opcode, rest) => {
                let left = match take_boolean(&register) {
                    Ok(left) => left,
                    Err(error) => {
                        return Err(error);
                    },
                };
                let decided = match opcode {
                    Opcode::And => !left,
                    Opcode::Or => left,
                };
                if decided {
                    Some(Value::Boolean(left))
                } else {
                    proof {
                        assert(decreases_to!(*code => (*code)[i as int]));
                        assert(decreases_to!((*code)[i as int] => (*code)[i as int]->Branch_1));
                        lemma_branch_view(*opcode, *rest);
                    }
                    let after = match run_steps(rest, ctx) {
                        Ok(after) => after,
                        Err(error) => {
                            return Err(error);
                        },
                    };
                    match take_boolean(&after) {
                        Ok(right) => Some(Value::Boolean(right)),
                        Err(error) => {
                            return Err(error);
                        },
                    }
                }
            },
        };
        register = next;
        i += 1;
    }
    Ok(register)
}

/// The compiled backend: the program that has been generated so far.
#[derive(Debug, PartialEq)]
pub struct Backend {
    code: Vec<Instruction>,
}

impl View for Backend {
    type V = Seq<InstructionView>;

    closed spec fn view(&self) -> Seq<InstructionView> {
        instruction_views(self.code@)
    }
}

impl Backend {
    /// The backend with an empty program.
    pub fn new() -> (backend: Backend)
        ensures
            backend@ == Seq::<InstructionView>::empty(),
    {
        let backend = Backend { code: Vec::new() };
        assert(backend@ =~= Seq::<InstructionView>::empty());
        backend
    }

    /// Adds a step to the end of the program.
    pub fn emit(&mut self, instruction: Instruction)
        ensures
            final(self)@ == old(self)@.push(instruction@),
    {
        self.code.push(instruction);
        assert(self@ =~= old(self)@.push(instruction@));
    }

    /// Adds the steps of `other` to the end of the program.
    pub fn extend(&mut self, other: Backend)
        ensures
            final(self)@ == old(self)@ + other@,
    {
        let ghost added = other@;
        let mut code = other.into_code();
        self.code.append(&mut code);
        assert(self@ =~= old(self)@ + added);
    }

    /// The steps of the program.
    pub fn into_code(self) -> (code: Vec<Instruction>)
        ensures
            instruction_views(code@) == self@,
    {
        self.code
    }

    /// The number of steps of the program, not counting steps within
    /// steps.
    pub fn len(&self) -> (steps: usize)
        ensures
            steps == self@.len(),
    {
        self.code.len()
    }

    /// Runs the program against `ctx`, which it leaves as it was.
    pub fn run(&self, ctx: &mut Context) -> (outcome: Result<Value, RuntimeError>)
        ensures
            outcome_view(outcome) == run_spec(self@, old(ctx).target@, old(ctx).variables@),
            final(ctx).target@ == old(ctx).target@,
            final(ctx).variables@ == old(ctx).variables@,
    {
        match run_steps(&self.code, ctx) {
            Ok(Some(value)) => Ok(value),
            Ok(None) => Err(RuntimeError::NoValue),
            Err(error) => Err(error),
        }
    }
}

/// Running two programs one behind the other is running the first and
/// then, on the register that it leaves, the second.
pub proof fn lemma_steps_in_sequence(
    first: Seq<InstructionView>,
    second: Seq<InstructionView>,
    from: int,
    register: Option<ValueView>,
    target: Map<Seq<char>, ValueView>,
    variables: Map<Seq<char>, ValueView>,
)
    requires
        0 <= from <= first.len(),
    ensures
        steps_spec(first + second, from, register, target, variables) == (match steps_spec(
            first,
            from,
            register,
            target,
            variables,
        ) {
            Err(error) => Err(error),
            Ok(after) => steps_spec(second, 0, after, target, variables),
        }),
    decreases first.len() - from,
{
    let both = first + second;
    if from < first.len() {
        assert(both[from] == first[from]);
        match step_spec(first[from], register, target, variables) {
            Err(error) => {},
            Ok(after) => {
                lemma_steps_in_sequence(first, second, from + 1, after, target, variables);
            },
        }
    } else {
        lemma_steps_shifted(first, second, 0, register, target, variables);
    }
}

/// Behind the first program, the steps of the two programs put together
/// are those of the second.
pub proof fn lemma_steps_shifted(
    first: Seq<InstructionView>,
    second: Seq<InstructionView>,
    from: int,
    register: Option<ValueView>,
    target: Map<Seq<char>, ValueView>,
    variables: Map<Seq<char>, ValueView>,
)
    requires
        0 <= from <= second.len(),
    ensures
        steps_spec(first + second, first.len() + from, register, target, variables) == steps_spec(
            second,
            from,
            register,
            target,
            variables,
        ),
    decreases second.len() - from,
{
    let both = first + second;
    if from < second.len() {
        assert(both[first.len() + from] == second[from]);
        match step_spec(second[from], register, target, variables) {
            Err(error) => {},
            Ok(after) => {
                lemma_steps_shifted(first, second, from + 1, after, target, variables);
            },
        }
    }
}

impl Expr {
    /// The expression has a compiled form: it holds no negation.
    pub open spec fn compilable(self) -> bool
        decreases self,
        via Self::operand_is_smaller_compilable
    {
        match self {
            Expr::Not(_) => false,
            Expr::Op(op) => op.lhs().compilable() && op.rhs().compilable(),
            _ => true,
        }
    }

    #[via_fn]
    proof fn operand_is_smaller_compilable(self) {
        match self {
            Expr::Op(op) => op.lemma_operands_are_smaller(),
            _ => {},
        }
    }

    /// The steps that the expression compiles to. They leave the value
    /// of the expression in the register, whatever was there. A logical
    /// operation is the steps of its left operand and then a branch
    /// around the steps of its right operand.
    pub open spec fn code_spec(self) -> Seq<InstructionView>
        decreases self,
        via Self::operand_is_smaller_code
    {
        match self {
            Expr::Literal(literal) => seq![InstructionView::Constant(literal.value())],
            Expr::Query(field) => seq![InstructionView::Field(field@)],
            Expr::Variable(ident) => seq![InstructionView::Variable(ident@)],
            Expr::Not(_) => Seq::empty(),
            Expr::Op(op) => op.lhs().code_spec().push(
                InstructionView::Branch(op.opcode(), op.rhs().code_spec()),
            ),
        }
    }

    #[via_fn]
    proof fn operand_is_smaller_code(self) {
        match self {
            Expr::Op(op) => op.lemma_operands_are_smaller(),
            _ => {},
        }
    }

    /// Adds the compiled form of the expression to the program of
    /// `backend`. An expression without a compiled form is refused, and
    /// the program is left as it was.
    pub fn emit_compiled(&self, state: (&LocalEnv, &ExternalEnv), backend: &mut Backend) -> (outcome:
        Result<(), CodegenError>)
        ensures
            match outcome {
                Ok(()) => self.compilable() && final(backend)@ == old(backend)@ + self.code_spec(),
                Err(error) => {
                    &&& !self.compilable()
                    &&& error == CodegenError::Unsupported
                    &&& final(backend)@ == old(backend)@
                },
            },
        decreases self,
    {
        match self {
            Expr::Literal(literal) => {
                backend.emit(Instruction::Constant(literal.to_value()));
                assert(backend@ =~= old(backend)@ + self.code_spec());
                Ok(())
            },
            Expr::Query(field) => {
                backend.emit(Instruction::Field(field.clone()));
                assert(backend@ =~= old(backend)@ + self.code_spec());
                Ok(())
            },
            Expr::Variable(ident) => {
                backend.emit(Instruction::Variable(ident.clone()));
                assert(backend@ =~= old(backend)@ + self.code_spec());
                Ok(())
            },
            Expr::Not(not) => not.emit_compiled(state, backend),
            Expr::Op(op) => op.emit_compiled(state, backend),
        }
    }

    /// The compiled form of an expression leaves in the register what the
    /// expression resolves to, whatever the register held, and fails as
    /// the expression fails.
    pub proof fn lemma_code_resolves(
        self,
        register: Option<ValueView>,
        target: Map<Seq<char>, ValueView>,
        variables: Map<Seq<char>, ValueView>,
    )
        requires
            self.compilable(),
        ensures
            steps_spec(self.code_spec(), 0, register, target, variables) == (match self.resolve_spec(
                target,
                variables,
            ) {
                Ok(value) => Ok(Some(value)),
                Err(error) => Err(error),
            }),
        decreases self,
    {
        let code = self.code_spec();
        match self {
            Expr::Op(op) => {
                op.lemma_operands_are_smaller();
                let left = op.lhs().code_spec();
                let branch = InstructionView::Branch(op.opcode(), op.rhs().code_spec());
                assert(code =~= left + seq![branch]);
                lemma_steps_in_sequence(left, seq![branch], 0, register, target, variables);
                op.lhs().lemma_code_resolves(register, target, variables);
                op.rhs().lemma_code_resolves(None, target, variables);
                match op.lhs().resolve_spec(target, variables) {
                    Ok(value) => {
                        let after = step_spec(branch, Some(value), target, variables);
                        assert(steps_spec(seq![branch], 0, Some(value), target, variables) == (
                        match after {
                            Err(error) => Err(error),
                            Ok(next) => steps_spec(seq![branch], 1, next, target, variables),
                        }));
                    },
                    Err(error) => {},
                }
            },
            Expr::Not(_) => {},
            _ => {
                assert(steps_spec(code, 0, register, target, variables) == (match step_spec(
                    code[0],
                    register,
                    target,
                    variables,
                ) {
                    Err(error) => Err(error),
                    Ok(next) => steps_spec(code, 1, next, target, variables),
                }));
            },
        }
    }

    /// The two evaluators agree: the compiled form of an expression that
    /// has one evaluates, against any event and any values of the
    /// variables, to what the expression resolves to, value for value
    /// and error for error.
    pub proof fn theorem_compiled_agrees(
        self,
        target: Map<Seq<char>, ValueView>,
        variables: Map<Seq<char>, ValueView>,
    )
        requires
            self.compilable(),
        ensures
            run_spec(self.code_spec(), target, variables) == self.resolve_spec(target, variables),
    {
        self.lemma_code_resolves(None, target, variables);
    }
}

} // verus!
