use remap_lang::compiled::{Backend, CodegenError, Instruction};
use remap_lang::context::Context;
use remap_lang::diagnostic::Urls;
use remap_lang::event::LogEvent;
use remap_lang::expression::not::Not;
use remap_lang::expression::op::{Op, Opcode};
use remap_lang::expression::{Expr, Literal, RuntimeError};
use remap_lang::kind::{Kind, Shape};
use remap_lang::parser::Node;
use remap_lang::program::{compile, Syntax};
use remap_lang::span::Span;
use remap_lang::state::{ExternalEnv, LocalEnv};
use remap_lang::type_def::TypeDef;
use remap_lang::value::{Value, ValueError};

fn at<T>(node: T) -> Node<T> {
    Node::new(Span::new(0, 0), node)
}

fn boolean(b: bool) -> Expr {
    Expr::Literal(Literal::Boolean(b))
}

fn integer(i: i64) -> Expr {
    Expr::Literal(Literal::Integer(i))
}

fn query(name: &str) -> Expr {
    Expr::Query(name.to_string())
}

fn op(lhs: Expr, opcode: Opcode, rhs: Expr) -> Expr {
    Expr::Op(Op::new(at(lhs), at(opcode), at(rhs)))
}

fn context(fields: Vec<(&str, Value)>) -> Context {
    let mut event = LogEvent::new();
    for (name, value) in fields {
        event.insert(name.to_string(), value);
    }
    Context::new(event)
}

fn mismatch(got: Shape) -> Result<Value, RuntimeError> {
    Err(RuntimeError::Coercion(ValueError::Expected {
        expected: Shape::Boolean,
        got,
    }))
}

#[test]
fn logical_operators_on_booleans() {
    let mut ctx = context(vec![]);
    for left in [false, true] {
        for right in [false, true] {
            assert_eq!(
                op(boolean(left), Opcode::And, boolean(right)).resolve(&mut ctx),
                Ok(Value::Boolean(left && right))
            );
            assert_eq!(
                op(boolean(left), Opcode::Or, boolean(right)).resolve(&mut ctx),
                Ok(Value::Boolean(left || right))
            );
        }
    }
}

#[test]
fn a_decided_operation_does_not_evaluate_its_right_operand() {
    // the right operand would fail: its value is no boolean
    let mut ctx = context(vec![("n", Value::Integer(1))]);
    assert_eq!(
        op(boolean(false), Opcode::And, query("n")).resolve(&mut ctx),
        Ok(Value::Boolean(false))
    );
    assert_eq!(
        op(boolean(true), Opcode::Or, query("n")).resolve(&mut ctx),
        Ok(Value::Boolean(true))
    );
    assert_eq!(
        op(boolean(true), Opcode::And, query("n")).resolve(&mut ctx),
        mismatch(Shape::Integer)
    );
    assert_eq!(
        op(boolean(false), Opcode::Or, query("n")).resolve(&mut ctx),
        mismatch(Shape::Integer)
    );
}

#[test]
fn the_left_operand_fails_first() {
    let mut ctx = context(vec![("n", Value::Integer(1)), ("s", Value::String("x".to_string()))]);
    for opcode in [Opcode::And, Opcode::Or] {
        assert_eq!(
            op(query("n"), opcode, query("s")).resolve(&mut ctx),
            mismatch(Shape::Integer)
        );
        assert_eq!(
            op(query("s"), opcode, query("n")).resolve(&mut ctx),
            mismatch(Shape::String)
        );
        assert_eq!(
            op(query("missing"), opcode, boolean(true)).resolve(&mut ctx),
            mismatch(Shape::Null)
        );
    }
}

#[test]
fn an_operation_is_fallible_where_an_operand_is_or_is_no_boolean() {
    let mut local = LocalEnv::new();
    local.insert_variable("flag".to_string(), TypeDef::boolean());
    local.insert_variable("risky".to_string(), TypeDef::boolean().with_fallibility(true));
    local.insert_variable("final".to_string(), TypeDef::boolean().with_abortability(true));
    local.insert_variable(
        "maybe".to_string(),
        TypeDef::new(Kind::boolean().union(&Kind::exact(Shape::Null))),
    );
    let external = ExternalEnv::new();
    let state = (&local, &external);
    let variable = |name: &str| Expr::Variable(name.to_string());

    let cases = [
        ("flag", "flag", false, false),
        ("flag", "risky", true, false),
        ("risky", "flag", true, false),
        ("flag", "final", false, true),
        ("final", "risky", true, true),
        ("flag", "maybe", true, false),
        ("maybe", "flag", true, false),
        ("unbound", "flag", true, false),
    ];
    for (left, right, fallible, abortable) in cases {
        for opcode in [Opcode::And, Opcode::Or] {
            let type_def = op(variable(left), opcode, variable(right)).type_def(state);
            assert_eq!(type_def.kind(), Kind::boolean());
            assert_eq!(type_def.is_fallible(), fallible, "{:?}", (left, right));
            assert_eq!(type_def.is_abortable(), abortable, "{:?}", (left, right));
        }
    }
    assert!(op(integer(1), Opcode::And, boolean(true)).type_def(state).is_fallible());
    assert!(!op(boolean(false), Opcode::Or, boolean(true)).type_def(state).is_fallible());
}

#[test]
fn an_infallible_operation_resolves() {
    let mut local = LocalEnv::new();
    local.insert_variable("a".to_string(), TypeDef::boolean());
    let mut external = ExternalEnv::new();
    external.insert_field("b".to_string(), TypeDef::boolean());
    let state = (&local, &external);
    let not_b = Expr::Not(Not::new(at(query("b")), Span::new(0, 1), state).unwrap());
    let program = op(
        op(Expr::Variable("a".to_string()), Opcode::And, not_b),
        Opcode::Or,
        query("b"),
    );
    assert!(!program.type_def(state).is_fallible());
    assert_eq!(program.format(), "((a && !.b) || .b)");
    for a in [false, true] {
        for b in [false, true] {
            let mut ctx = context(vec![("b", Value::Boolean(b))]);
            ctx.set_variable("a".to_string(), Value::Boolean(a));
            assert_eq!(program.resolve(&mut ctx), Ok(Value::Boolean((a && !b) || b)));
        }
    }
}

#[test]
fn operations_as_written() {
    assert_eq!(op(boolean(true), Opcode::And, boolean(false)).format(), "(true && false)");
    assert_eq!(op(query("x"), Opcode::Or, integer(-1)).format(), "(.x || -1)");
    assert_eq!(
        op(
            op(boolean(true), Opcode::Or, boolean(true)),
            Opcode::And,
            op(boolean(false), Opcode::Or, query("y"))
        )
        .format(),
        "((true || true) && (false || .y))"
    );
    assert_eq!(Opcode::And.as_str(), "&&");
    assert_eq!(Opcode::Or.as_str(), "||");
}

#[test]
fn operations_compile_to_a_branch_around_the_right_operand() {
    let local = LocalEnv::new();
    let external = ExternalEnv::new();
    let state = (&local, &external);
    let mut backend = Backend::new();
    let program = op(query("a"), Opcode::And, op(boolean(true), Opcode::Or, query("b")));
    assert_eq!(program.emit_compiled(state, &mut backend), Ok(()));
    assert_eq!(
        backend.into_code(),
        vec![
            Instruction::Field("a".to_string()),
            Instruction::Branch(
                Opcode::And,
                vec![
                    Instruction::Constant(Value::Boolean(true)),
                    Instruction::Branch(Opcode::Or, vec![Instruction::Field("b".to_string())]),
                ]
            ),
        ]
    );
}

#[test]
fn an_operation_on_a_negation_is_refused_whole() {
    let local = LocalEnv::new();
    let external = ExternalEnv::new();
    let state = (&local, &external);
    let negation = |expr: Expr| Expr::Not(Not::new(at(expr), Span::new(0, 1), state).unwrap());

    let mut backend = Backend::new();
    backend.emit(Instruction::Constant(Value::Null));
    for program in [
        op(boolean(true), Opcode::And, negation(boolean(false))),
        op(negation(boolean(true)), Opcode::Or, boolean(false)),
        op(
            boolean(true),
            Opcode::And,
            op(boolean(true), Opcode::And, negation(boolean(false))),
        ),
    ] {
        assert_eq!(
            program.emit_compiled(state, &mut backend),
            Err(CodegenError::Unsupported)
        );
        // nothing of the left operand was left behind
        assert_eq!(backend.len(), 1);
    }
}

#[test]
fn compiled_operations_agree_with_the_interpreter() {
    let local = LocalEnv::new();
    let external = ExternalEnv::new();
    let state = (&local, &external);
    let programs = vec![
        op(query("a"), Opcode::And, query("b")),
        op(query("a"), Opcode::Or, query("b")),
        op(op(query("a"), Opcode::Or, query("b")), Opcode::And, query("c")),
        op(query("a"), Opcode::Or, op(query("b"), Opcode::And, query("c"))),
        op(
            op(query("c"), Opcode::And, boolean(true)),
            Opcode::Or,
            op(Expr::Variable("v".to_string()), Opcode::And, query("a")),
        ),
    ];
    let compiled = programs
        .iter()
        .map(|program| {
            let mut backend = Backend::new();
            assert_eq!(program.emit_compiled(state, &mut backend), Ok(()));
            backend
        })
        .collect::<Vec<_>>();

    let mut seed: u64 = 0x0123_4567_89AB_CDEF;
    let mut failures = 0;
    for i in 0..10_000usize {
        let mut fields = Vec::new();
        for name in ["a", "b", "c"] {
            seed ^= seed << 13;
            seed ^= seed >> 7;
            seed ^= seed << 17;
            match seed % 8 {
                0 => fields.push((name, Value::Integer(seed as i64))),
                1 => fields.push((name, Value::Null)),
                2 => {}
                n => fields.push((name, Value::Boolean(n % 2 == 0))),
            }
        }
        let mut ctx = context(fields);
        if seed % 5 != 0 {
            ctx.set_variable("v".to_string(), Value::Boolean(seed % 3 == 0));
        }
        let program = &programs[i % programs.len()];
        let interpreted = program.resolve(&mut ctx);
        assert_eq!(compiled[i % programs.len()].run(&mut ctx), interpreted);
        if interpreted.is_err() {
            failures += 1;
        }
    }
    // both outcomes were seen
    assert!(failures > 1000 && failures < 9000);
}

#[test]
fn branches_by_hand() {
    let mut ctx = context(vec![("n", Value::Integer(1))]);
    let run = |code: Vec<Instruction>, ctx: &mut Context| {
        let mut backend = Backend::new();
        for instruction in code {
            backend.emit(instruction);
        }
        backend.run(ctx)
    };
    // a branch finds the register empty
    assert_eq!(
        run(vec![Instruction::Branch(Opcode::And, vec![])], &mut ctx),
        Err(RuntimeError::NoValue)
    );
    // the steps of the right operand load nothing
    assert_eq!(
        run(
            vec![
                Instruction::Constant(Value::Boolean(true)),
                Instruction::Branch(Opcode::And, vec![]),
            ],
            &mut ctx
        ),
        Err(RuntimeError::NoValue)
    );
    // the left operand decides: the steps of the right operand are not run
    assert_eq!(
        run(
            vec![
                Instruction::Constant(Value::Boolean(false)),
                Instruction::Branch(Opcode::And, vec![]),
            ],
            &mut ctx
        ),
        Ok(Value::Boolean(false))
    );
    assert_eq!(
        run(
            vec![
                Instruction::Field("n".to_string()),
                Instruction::Branch(Opcode::Or, vec![Instruction::Constant(Value::Boolean(true))]),
            ],
            &mut ctx
        ),
        mismatch(Shape::Integer)
    );
    assert_eq!(
        run(
            vec![
                Instruction::Constant(Value::Boolean(false)),
                Instruction::Branch(Opcode::Or, vec![Instruction::Field("n".to_string())]),
            ],
            &mut ctx
        ),
        mismatch(Shape::Integer)
    );
}

#[test]
fn operations_are_built_from_syntax_left_to_right() {
    let local = LocalEnv::new();
    let external = ExternalEnv::new();
    let state = (&local, &external);
    let urls = Urls::new("https://docs.example".to_string());
    let literal = |start: u32, end: u32, literal: Literal| {
        Box::new(Node::new(Span::new(start, end), Syntax::Literal(literal)))
    };
    let not = |at: u32, operand: Box<Node<Syntax>>| {
        let end = operand.span().end();
        Box::new(Node::new(
            Span::new(at, end),
            Syntax::Not {
                operator: Span::new(at, at + 1),
                operand,
            },
        ))
    };

    // `(!true || false)`
    let syntax = Node::new(
        Span::new(0, 16),
        Syntax::Op {
            lhs: not(1, literal(2, 6, Literal::Boolean(true))),
            opcode: Node::new(Span::new(7, 9), Opcode::Or),
            rhs: literal(10, 15, Literal::Boolean(false)),
        },
    );
    let program = compile(syntax, state, &urls).unwrap();
    assert_eq!(program.expression().format(), "(!true || false)");
    assert_eq!(program.run(LogEvent::new()), Ok(Value::Boolean(false)));

    // `(!1 && !"s")`: both negations are wrong; the left one is reported
    let syntax = Node::new(
        Span::new(0, 12),
        Syntax::Op {
            lhs: not(1, literal(2, 3, Literal::Integer(1))),
            opcode: Node::new(Span::new(4, 6), Opcode::And),
            rhs: not(7, literal(8, 11, Literal::String("s".to_string()))),
        },
    );
    let reports = compile(syntax, state, &urls).unwrap_err();
    assert_eq!(reports.len(), 1);
    assert_eq!(reports[0].code, 660);
    assert_eq!(reports[0].spans(), vec![Span::new(1, 2), Span::new(2, 3)]);

    // `(true && !"s")`
    let syntax = Node::new(
        Span::new(0, 14),
        Syntax::Op {
            lhs: literal(1, 5, Literal::Boolean(true)),
            opcode: Node::new(Span::new(6, 8), Opcode::And),
            rhs: not(9, literal(10, 13, Literal::String("s".to_string()))),
        },
    );
    let reports = compile(syntax, state, &urls).unwrap_err();
    assert_eq!(reports[0].spans(), vec![Span::new(9, 10), Span::new(10, 13)]);
    assert_eq!(
        reports[0].labels[1].message,
        "this expression resolves to string"
    );
}
