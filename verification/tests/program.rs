use remap_lang::diagnostic::{Note, Role, Urls};
use remap_lang::event::LogEvent;
use remap_lang::expression::not::Not;
use remap_lang::expression::{Expr, Literal, RuntimeError};
use remap_lang::kind::{Kind, Shape};
use remap_lang::parser::Node;
use remap_lang::program::{compile, construct, Syntax};
use remap_lang::span::Span;
use remap_lang::state::{ExternalEnv, LocalEnv};
use remap_lang::type_def::TypeDef;
use remap_lang::value::{Value, ValueError};

fn urls() -> Urls {
    Urls::new("https://docs.example".to_string())
}

fn node(start: u32, end: u32, syntax: Syntax) -> Node<Syntax> {
    Node::new(Span::new(start, end), syntax)
}

// the syntax of `!` at `at`, before `operand`
fn not(at: u32, operand: Node<Syntax>) -> Node<Syntax> {
    let end = operand.span().end();
    node(
        at,
        end,
        Syntax::Not {
            operator: Span::new(at, at + 1),
            operand: Box::new(operand),
        },
    )
}

fn event(fields: Vec<(&str, Value)>) -> LogEvent {
    let mut event = LogEvent::new();
    for (name, value) in fields {
        event.insert(name.to_string(), value);
    }
    event
}

// `!true`
fn not_true() -> Node<Syntax> {
    not(0, node(1, 5, Syntax::Literal(Literal::Boolean(true))))
}

// `!"abc"`
fn not_abc() -> Node<Syntax> {
    not(0, node(1, 6, Syntax::Literal(Literal::String("abc".to_string()))))
}

// `!.x`
fn not_x() -> Node<Syntax> {
    not(0, node(1, 3, Syntax::Query("x".to_string())))
}

#[test]
fn source_not_true_compiles_and_runs_to_false() {
    let local = LocalEnv::new();
    let external = ExternalEnv::new();
    let state = (&local, &external);
    let program = compile(not_true(), state, &urls()).unwrap();
    assert_eq!(program.run(LogEvent::new()), Ok(Value::Boolean(false)));
    assert_eq!(program.run(event(vec![("x", Value::Null)])), Ok(Value::Boolean(false)));
    assert_eq!(program.type_def(state), TypeDef::boolean());
    assert_eq!(program.expression().format(), "!true");
}

#[test]
fn source_not_abc_fails_to_compile_with_the_code_of_negation() {
    let local = LocalEnv::new();
    let external = ExternalEnv::new();
    let reports = compile(not_abc(), (&local, &external), &urls()).unwrap_err();
    assert_eq!(reports.len(), 1);
    let report = &reports[0];
    assert_eq!(report.code, 660);
    assert_eq!(report.message, "non-boolean negation");

    assert_eq!(report.labels.len(), 2);
    assert_eq!(report.labels[0].role, Role::Primary);
    assert_eq!(report.labels[0].span, Span::new(0, 1));
    assert_eq!(
        report.labels[0].message,
        "negation only works on boolean values"
    );
    assert_eq!(report.labels[1].role, Role::Context);
    assert_eq!(report.labels[1].span, Span::new(1, 6));
    assert_eq!(
        report.labels[1].message,
        "this expression resolves to string"
    );

    assert_eq!(report.notes.len(), 2);
    assert_eq!(report.notes[0], Note::CoerceValue);
    assert_eq!(report.notes[0].doc_url(), None);
    assert_eq!(
        report.notes[1].doc_url(),
        Some("https://docs.example/functions/#coerce-functions")
    );
    assert!(report.notes[0].text().contains("coerc"));
}

#[test]
fn source_not_x_with_a_fallible_boolean_field_compiles_to_a_fallible_boolean() {
    let local = LocalEnv::new();
    let mut external = ExternalEnv::new();
    external.insert_field("x".to_string(), TypeDef::boolean().with_fallibility(true));
    let state = (&local, &external);
    let program = compile(not_x(), state, &urls()).unwrap();
    let type_def = program.type_def(state);
    assert_eq!(type_def.kind(), Kind::boolean());
    assert!(type_def.is_fallible());
    assert!(!type_def.is_abortable());
}

#[test]
fn source_not_x_on_an_event_where_x_is_no_boolean_is_a_runtime_error() {
    let local = LocalEnv::new();
    let mut external = ExternalEnv::new();
    external.insert_field("x".to_string(), TypeDef::boolean().with_fallibility(true));
    let program = compile(not_x(), (&local, &external), &urls()).unwrap();

    assert_eq!(
        program.run(event(vec![("x", Value::Bytes(b"yes".to_vec()))])),
        Err(RuntimeError::Coercion(ValueError::Expected {
            expected: Shape::Boolean,
            got: Shape::Bytes,
        }))
    );
    assert_eq!(
        program.run(event(vec![("x", Value::Boolean(true))])),
        Ok(Value::Boolean(false))
    );
}

#[test]
fn compile_reports_the_innermost_error() {
    let mut local = LocalEnv::new();
    local.insert_variable("n".to_string(), TypeDef::new(Kind::exact(Shape::Integer)));
    let external = ExternalEnv::new();
    // `!!!n`: the negation next to `n` is the one that is wrong
    let syntax = not(0, not(1, not(2, node(3, 4, Syntax::Variable("n".to_string())))));
    let reports = compile(syntax, (&local, &external), &urls()).unwrap_err();
    assert_eq!(reports.len(), 1);
    assert_eq!(reports[0].spans(), vec![Span::new(2, 3), Span::new(3, 4)]);
    assert_eq!(
        reports[0].labels[1].message,
        "this expression resolves to integer"
    );
}

#[test]
fn compile_twice_gives_the_same_reports() {
    let local = LocalEnv::new();
    let external = ExternalEnv::new();
    let state = (&local, &external);
    // a field that the schema does not know may have any shape
    let first = compile(not_x(), state, &urls()).unwrap_err();
    let second = compile(not_x(), state, &urls()).unwrap_err();
    assert_eq!(first, second);
    assert_eq!(first[0].code, second[0].code);
    assert_eq!(first[0].spans(), second[0].spans());
    assert_eq!(first[0].labels[1].message, "this expression resolves to any");
}

#[test]
fn construct_builds_what_the_syntax_says() {
    let local = LocalEnv::new();
    let external = ExternalEnv::new();
    let state = (&local, &external);
    let built = construct(not(0, not_true()), state).unwrap();
    let by_hand = Expr::Not(
        Not::new(
            Node::new(
                Span::new(1, 6),
                Expr::Not(
                    Not::new(
                        Node::new(Span::new(2, 6), Expr::Literal(Literal::Boolean(true))),
                        Span::new(1, 2),
                        state,
                    )
                    .unwrap(),
                ),
            ),
            Span::new(0, 1),
            state,
        )
        .unwrap(),
    );
    assert_eq!(built, by_hand);
    assert_eq!(built.format(), "!!true");
    for (syntax, expr) in [
        (Syntax::Literal(Literal::Null), Expr::Literal(Literal::Null)),
        (Syntax::Query("a".to_string()), Expr::Query("a".to_string())),
        (Syntax::Variable("a".to_string()), Expr::Variable("a".to_string())),
    ] {
        assert_eq!(construct(node(0, 1, syntax), state), Ok(expr));
    }
}

#[test]
fn a_program_that_is_written_and_read_back_keeps_its_type() {
    let mut local = LocalEnv::new();
    local.insert_variable("ok".to_string(), TypeDef::boolean().with_abortability(true));
    let mut external = ExternalEnv::new();
    external.insert_field("x".to_string(), TypeDef::boolean().with_fallibility(true));
    let state = (&local, &external);

    // a reader of the three written forms below
    let read = |text: &str| -> Node<Syntax> {
        let mut depth = 0;
        while text[depth..].starts_with('!') {
            depth += 1;
        }
        let rest = &text[depth..];
        let end = text.len() as u32;
        let mut syntax = if let Some(field) = rest.strip_prefix('.') {
            node(depth as u32, end, Syntax::Query(field.to_string()))
        } else if rest == "true" {
            node(depth as u32, end, Syntax::Literal(Literal::Boolean(true)))
        } else {
            node(depth as u32, end, Syntax::Variable(rest.to_string()))
        };
        for at in (0..depth).rev() {
            syntax = not(at as u32, syntax);
        }
        syntax
    };
    for text in ["!.x", "!!ok", "!!!true", "ok", ".x"] {
        let program = compile(read(text), state, &urls()).unwrap();
        let written = program.expression().format();
        assert_eq!(written, text);
        let again = compile(read(&written), state, &urls()).unwrap();
        assert_eq!(again.type_def(state), program.type_def(state));
        assert_eq!(again, program);
    }
}
