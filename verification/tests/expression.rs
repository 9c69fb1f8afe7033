use remap_lang::compiled::{Backend, CodegenError, Instruction};
use remap_lang::context::Context;
use remap_lang::diagnostic::{Diagnostic, Label, Note, Role, Urls};
use remap_lang::event::LogEvent;
use remap_lang::expression::not::{Error, ErrorVariant, Not, NON_BOOLEAN_NEGATION};
use remap_lang::expression::op::{Op, Opcode};
use remap_lang::expression::{Expr, Literal, RuntimeError};
use remap_lang::kind::{Kind, Shape};
use remap_lang::parser::Node;
use remap_lang::span::Span;
use remap_lang::state::{ExternalEnv, LocalEnv};
use remap_lang::type_def::TypeDef;
use remap_lang::value::{Value, ValueError};

fn boolean(b: bool) -> Expr {
    Expr::Literal(Literal::Boolean(b))
}

fn string(text: &str) -> Expr {
    Expr::Literal(Literal::String(text.to_string()))
}

fn query(name: &str) -> Expr {
    Expr::Query(name.to_string())
}

fn variable(name: &str) -> Expr {
    Expr::Variable(name.to_string())
}

// `!` at 0..1, the operand behind it
fn negate(expr: Expr, state: (&LocalEnv, &ExternalEnv)) -> Result<Not, Error> {
    let end = 1 + expr.format().len() as u32;
    Not::new(Node::new(Span::new(1, end), expr), Span::new(0, 1), state)
}

fn urls() -> Urls {
    Urls::new("https://docs.example".to_string())
}

fn context(fields: Vec<(&str, Value)>) -> Context {
    let mut event = LogEvent::new();
    for (name, value) in fields {
        event.insert(name.to_string(), value);
    }
    Context::new(event)
}

#[test]
fn negation_of_true_compiles_and_resolves_to_false() {
    let local = LocalEnv::new();
    let external = ExternalEnv::new();
    let not = negate(boolean(true), (&local, &external)).unwrap();
    assert_eq!(not.format(), "!true");

    let mut ctx = context(vec![]);
    assert_eq!(not.resolve(&mut ctx), Ok(Value::Boolean(false)));
    assert_eq!(Expr::Not(not).resolve(&mut ctx), Ok(Value::Boolean(false)));

    let not = negate(boolean(false), (&local, &external)).unwrap();
    assert_eq!(not.resolve(&mut ctx), Ok(Value::Boolean(true)));
}

#[test]
fn negation_of_a_string_fails_to_compile() {
    let local = LocalEnv::new();
    let external = ExternalEnv::new();
    let error = negate(string("abc"), (&local, &external)).unwrap_err();

    assert_eq!(error.code(), 660);
    assert_eq!(error.code(), NON_BOOLEAN_NEGATION);
    assert_eq!(error.message(), "non-boolean negation");
    assert_eq!(
        error.variant_of(),
        ErrorVariant::NonBoolean(Kind::exact(Shape::String))
    );

    let labels = error.labels();
    assert_eq!(
        labels,
        vec![
            Label {
                message: "negation only works on boolean values".to_string(),
                span: Span::new(0, 1),
                role: Role::Primary,
            },
            Label {
                message: "this expression resolves to string".to_string(),
                span: Span::new(1, 6),
                role: Role::Context,
            },
        ]
    );
    assert_eq!(
        labels,
        vec![
            Label::primary(
                "negation only works on boolean values".to_string(),
                Span::new(0, 1)
            ),
            Label::context(
                "this expression resolves to string".to_string(),
                Span::new(1, 6)
            ),
        ]
    );

    let notes = error.notes(&urls());
    assert_eq!(
        notes,
        vec![
            Note::CoerceValue,
            Note::SeeDocs(
                "type coercion".to_string(),
                "https://docs.example/functions/#coerce-functions".to_string()
            ),
        ]
    );
    assert_eq!(
        notes[0].text(),
        "coerce the value to the required type with a coercion function"
    );
    assert_eq!(
        notes[1].text(),
        "see documentation about type coercion at https://docs.example/functions/#coerce-functions"
    );
}

#[test]
fn negation_error_report_has_one_primary_label() {
    let local = LocalEnv::new();
    let external = ExternalEnv::new();
    let error = negate(string("abc"), (&local, &external)).unwrap_err();
    let report = error.diagnostic(&urls());

    assert_eq!(
        report,
        Diagnostic {
            code: 660,
            message: "non-boolean negation".to_string(),
            labels: error.labels(),
            notes: error.notes(&urls()),
        }
    );
    assert_eq!(
        report
            .labels
            .iter()
            .filter(|label| label.role == Role::Primary)
            .count(),
        1
    );
    assert_eq!(report.spans(), vec![Span::new(0, 1), Span::new(1, 6)]);
}

#[test]
fn negation_of_a_fallible_boolean_field_is_fallible() {
    let local = LocalEnv::new();
    let mut external = ExternalEnv::new();
    external.insert_field("x".to_string(), TypeDef::boolean().with_fallibility(true));

    let state = (&local, &external);
    let not = negate(query("x"), state).unwrap();
    let type_def = not.type_def(state);
    assert_eq!(type_def, TypeDef::boolean().with_fallibility(true));
    assert_eq!(type_def.kind(), Kind::boolean());
    assert!(type_def.is_fallible());
    assert!(!type_def.is_abortable());
    assert_eq!(Expr::Not(not).type_def(state), type_def);
}

#[test]
fn negation_of_a_field_that_is_no_boolean_at_runtime_is_an_error() {
    let local = LocalEnv::new();
    let mut external = ExternalEnv::new();
    external.insert_field("x".to_string(), TypeDef::boolean().with_fallibility(true));
    let not = negate(query("x"), (&local, &external)).unwrap();

    let mut ctx = context(vec![("x", Value::Integer(3))]);
    assert_eq!(
        not.resolve(&mut ctx),
        Err(RuntimeError::Coercion(ValueError::Expected {
            expected: Shape::Boolean,
            got: Shape::Integer,
        }))
    );
    // the field is missing: its value is null
    let mut ctx = context(vec![]);
    assert_eq!(
        not.resolve(&mut ctx),
        Err(RuntimeError::Coercion(ValueError::Expected {
            expected: Shape::Boolean,
            got: Shape::Null,
        }))
    );
    let mut ctx = context(vec![("x", Value::Boolean(false))]);
    assert_eq!(not.resolve(&mut ctx), Ok(Value::Boolean(true)));
    assert_eq!(ctx.get("x"), Some(&Value::Boolean(false)));
}

#[test]
fn a_program_with_negation_runs_interpreted_and_is_refused_compiled() {
    let local = LocalEnv::new();
    let mut external = ExternalEnv::new();
    external.insert_field("flag".to_string(), TypeDef::boolean());
    let state = (&local, &external);
    let at = |expr: Expr| Node::new(Span::new(0, 0), expr);

    // `!(.flag && !(.other || .flag))`: several operators, negation among them
    let inner = Expr::Op(Op::new(
        at(query("other")),
        Node::new(Span::new(0, 0), Opcode::Or),
        at(query("flag")),
    ));
    let both = Expr::Op(Op::new(
        at(query("flag")),
        Node::new(Span::new(0, 0), Opcode::And),
        at(Expr::Not(negate(inner, state).unwrap())),
    ));
    let program = Expr::Not(negate(both, state).unwrap());
    assert_eq!(program.format(), "!(.flag && !(.other || .flag))");

    // the second evaluator takes none of it
    let mut backend = Backend::new();
    assert_eq!(program.emit_compiled(state, &mut backend), Err(CodegenError::Unsupported));
    assert_eq!(backend.len(), 0);
    assert_eq!(backend, Backend::new());

    // what it does take evaluates as the interpreter does, event by event
    let programs = vec![
        query("flag"),
        query("other"),
        variable("v"),
        boolean(true),
        string("s"),
        Expr::Op(Op::new(
            at(query("flag")),
            Node::new(Span::new(0, 0), Opcode::And),
            at(query("other")),
        )),
    ];
    let mut seed: u64 = 0x9E37_79B9_7F4A_7C15;
    for i in 0..10_000u64 {
        seed ^= seed << 13;
        seed ^= seed >> 7;
        seed ^= seed << 17;
        let value = match seed % 4 {
            0 | 1 => Value::Boolean(seed % 8 < 4),
            2 => Value::Bytes(seed.to_le_bytes().to_vec()),
            _ => Value::Null,
        };
        let other = Value::Boolean(seed % 16 < 8);
        let mut ctx = context(vec![("flag", value.clone()), ("other", other.clone())]);
        if i % 3 == 0 {
            ctx.set_variable("v".to_string(), Value::Integer(i as i64));
        }
        let interpreted = program.resolve(&mut ctx);
        match (&value, &other) {
            (Value::Boolean(flag), Value::Boolean(other)) => {
                assert_eq!(interpreted, Ok(Value::Boolean(!(*flag && !(*other || *flag)))))
            }
            (unfit, _) => assert_eq!(
                interpreted,
                Err(RuntimeError::Coercion(ValueError::Expected {
                    expected: Shape::Boolean,
                    got: unfit.shape(),
                }))
            ),
        }
        let expr = &programs[(i % 6) as usize];
        let mut backend = Backend::new();
        assert_eq!(expr.emit_compiled(state, &mut backend), Ok(()));
        assert_eq!(backend.run(&mut ctx), expr.resolve(&mut ctx));
    }
}

#[test]
fn compiled_programs() {
    let local = LocalEnv::new();
    let external = ExternalEnv::new();
    let state = (&local, &external);
    let mut backend = Backend::new();
    let mut ctx = context(vec![("a", Value::Integer(1))]);
    assert_eq!(backend.run(&mut ctx), Err(RuntimeError::NoValue));

    assert_eq!(query("a").emit_compiled(state, &mut backend), Ok(()));
    assert_eq!(backend.len(), 1);
    assert_eq!(backend.run(&mut ctx), Ok(Value::Integer(1)));

    assert_eq!(string("x").emit_compiled(state, &mut backend), Ok(()));
    assert_eq!(backend.len(), 2);
    assert_eq!(backend.run(&mut ctx), Ok(Value::String("x".to_string())));

    backend.emit(Instruction::Variable("v".to_string()));
    assert_eq!(backend.run(&mut ctx), Ok(Value::Null));
    ctx.set_variable("v".to_string(), Value::Boolean(true));
    assert_eq!(backend.run(&mut ctx), Ok(Value::Boolean(true)));
    backend.emit(Instruction::Field("missing".to_string()));
    assert_eq!(backend.run(&mut ctx), Ok(Value::Null));
    backend.emit(Instruction::Constant(Value::Integer(9)));
    assert_eq!(backend.run(&mut ctx), Ok(Value::Integer(9)));
}

#[test]
fn negation_keeps_the_flags_of_its_operand() {
    let mut local = LocalEnv::new();
    let external = ExternalEnv::new();
    for (name, fallible, abortable) in [
        ("plain", false, false),
        ("fallible", true, false),
        ("abortable", false, true),
        ("both", true, true),
    ] {
        local.insert_variable(
            name.to_string(),
            TypeDef::boolean()
                .with_fallibility(fallible)
                .with_abortability(abortable),
        );
    }
    let state = (&local, &external);
    for (name, fallible, abortable) in [
        ("plain", false, false),
        ("fallible", true, false),
        ("abortable", false, true),
        ("both", true, true),
    ] {
        let once = Expr::Not(negate(variable(name), state).unwrap());
        let twice = Expr::Not(negate(once, state).unwrap());
        let type_def = twice.type_def(state);
        assert!(type_def.is_boolean());
        assert_eq!(type_def.is_fallible(), fallible);
        assert_eq!(type_def.is_abortable(), abortable);
    }
}

#[test]
fn the_same_invalid_source_gives_the_same_diagnostic() {
    let mut local = LocalEnv::new();
    local.insert_variable(
        "n".to_string(),
        TypeDef::new(Kind::exact(Shape::Integer).union(&Kind::exact(Shape::Null))),
    );
    let external = ExternalEnv::new();
    let state = (&local, &external);
    let first = negate(variable("n"), state).unwrap_err();
    let second = negate(variable("n"), state).unwrap_err();
    assert_eq!(first, second);
    assert_eq!(first.code(), second.code());
    assert_eq!(first.diagnostic(&urls()), second.diagnostic(&urls()));
    assert_eq!(
        first.diagnostic(&urls()).spans(),
        second.diagnostic(&urls()).spans()
    );
    assert_eq!(
        first.labels()[1].message,
        "this expression resolves to integer or null"
    );
}

#[test]
fn an_infallible_expression_resolves_for_every_conforming_context() {
    let mut local = LocalEnv::new();
    local.insert_variable("v".to_string(), TypeDef::boolean());
    let mut external = ExternalEnv::new();
    external.insert_field("f".to_string(), TypeDef::boolean());
    let state = (&local, &external);

    let exprs = vec![
        Expr::Not(negate(variable("v"), state).unwrap()),
        Expr::Not(negate(query("f"), state).unwrap()),
        Expr::Not(negate(Expr::Not(negate(query("f"), state).unwrap()), state).unwrap()),
        Expr::Not(negate(boolean(false), state).unwrap()),
    ];
    for v in [false, true] {
        for f in [false, true] {
            let mut ctx = context(vec![("f", Value::Boolean(f)), ("more", Value::Integer(1))]);
            ctx.set_variable("v".to_string(), Value::Boolean(v));
            let expected = [!v, !f, f, true];
            for (expr, expected) in exprs.iter().zip(expected) {
                assert!(!expr.type_def(state).is_fallible());
                assert_eq!(expr.resolve(&mut ctx), Ok(Value::Boolean(expected)));
            }
        }
    }
}

#[test]
fn static_types_of_leaves() {
    let mut local = LocalEnv::new();
    let mut external = ExternalEnv::new();
    let outer = TypeDef::new(Kind::exact(Shape::Integer));
    let inner = TypeDef::boolean().with_fallibility(true);
    local.insert_variable("v".to_string(), outer);
    external.insert_field("f".to_string(), outer);
    assert_eq!(local.variable("v"), Some(outer));
    assert_eq!(external.field("f"), Some(outer));
    // an inner binding hides the outer one
    local.insert_variable("v".to_string(), inner);
    external.insert_field("f".to_string(), inner);
    assert_eq!(local.variable("v"), Some(inner));
    assert_eq!(external.field("f"), Some(inner));
    assert_eq!(local.variable("w"), None);
    assert_eq!(external.field("g"), None);

    let state = (&local, &external);
    assert_eq!(variable("v").type_def(state), inner);
    assert_eq!(query("f").type_def(state), inner);
    assert_eq!(variable("w").type_def(state), TypeDef::null());
    assert_eq!(query("g").type_def(state), TypeDef::any());
    assert_eq!(boolean(true).type_def(state), TypeDef::boolean());
    assert_eq!(string("s").type_def(state), TypeDef::new(Kind::exact(Shape::String)));
    assert_eq!(
        Expr::Literal(Literal::Integer(3)).type_def(state),
        TypeDef::new(Kind::exact(Shape::Integer))
    );
    assert_eq!(Expr::Literal(Literal::Null).type_def(state), TypeDef::null());
}

#[test]
fn expressions_as_written() {
    let local = LocalEnv::new();
    let external = ExternalEnv::new();
    assert_eq!(boolean(true).format(), "true");
    assert_eq!(boolean(false).format(), "false");
    assert_eq!(Expr::Literal(Literal::Integer(-12)).format(), "-12");
    assert_eq!(Expr::Literal(Literal::Null).format(), "null");
    assert_eq!(string("abc").format(), "\"abc\"");
    assert_eq!(string("a\"b\\c").format(), "\"a\\\"b\\\\c\"");
    assert_eq!(string("").format(), "\"\"");
    assert_eq!(query("x").format(), ".x");
    assert_eq!(variable("x").format(), "x");
    let not = negate(boolean(true), (&local, &external)).unwrap();
    assert_eq!(Expr::Not(not).format(), "!true");
}

#[test]
fn resolving_leaves() {
    let mut ctx = context(vec![("a", Value::Bytes(vec![7]))]);
    ctx.set_variable("v".to_string(), Value::Integer(5));
    assert_eq!(query("a").resolve(&mut ctx), Ok(Value::Bytes(vec![7])));
    assert_eq!(query("b").resolve(&mut ctx), Ok(Value::Null));
    assert_eq!(variable("v").resolve(&mut ctx), Ok(Value::Integer(5)));
    assert_eq!(variable("w").resolve(&mut ctx), Ok(Value::Null));
    assert_eq!(string("s").resolve(&mut ctx), Ok(Value::String("s".to_string())));
    assert_eq!(Expr::Literal(Literal::Integer(4)).resolve(&mut ctx), Ok(Value::Integer(4)));
    assert_eq!(Expr::Literal(Literal::Null).resolve(&mut ctx), Ok(Value::Null));
    assert_eq!(Literal::Boolean(true).to_value(), Value::Boolean(true));
    assert_eq!(Literal::Null.shape(), Shape::Null);

    ctx.set("b".to_string(), Value::Boolean(true));
    assert_eq!(query("b").resolve(&mut ctx), Ok(Value::Boolean(true)));
    ctx.remove("b");
    assert_eq!(query("b").resolve(&mut ctx), Ok(Value::Null));
    assert_eq!(ctx.variable("v"), Some(&Value::Integer(5)));
}

#[test]
fn nodes_and_spans() {
    let span = Span::new(3, 9);
    assert_eq!(span.start(), 3);
    assert_eq!(span.end(), 9);
    let node = Node::new(span, 7u8);
    assert_eq!(node.span(), span);
    assert_eq!(*node.inner(), 7);
    assert_eq!(node.take(), (span, 7));
}
