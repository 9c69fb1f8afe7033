//! Negation of a boolean expression.

use vstd::prelude::*;
use crate::compiled::{Backend, CodegenError};
use crate::context::Context;
use crate::diagnostic::{
    func_docs_url, label_views, note_views, primary_count, Diagnostic, DiagnosticView, Label,
    LabelView, Note, NoteView, Role, Urls,
};
use crate::expression::{not_type, not_value, outcome_view, Expr, RuntimeError};
use crate::kind::Kind;
use crate::parser::Node;
use crate::span::Span;
use crate::state::{ExternalEnv, LocalEnv};
use crate::type_def::TypeDef;
use crate::value::Value;

verus! {

/// The code that marks the negation of an expression that is not
/// boolean.
pub const NON_BOOLEAN_NEGATION: u32 = 660;

/// The negation `!inner`.
#[derive(Debug, PartialEq)]
pub struct Not {
    inner: Box<Expr>,
}

/// What was wrong with a negation, by kind of error.
#[derive(Clone, Copy, Debug, PartialEq, Eq, Structural)]
pub enum ErrorVariant {
    /// The operand may take the shapes of the given kind, which is not
    /// exactly `{boolean}`.
    NonBoolean(Kind),
}

/// Why a negation could not be built.
#[derive(Clone, Copy, Debug, PartialEq, Eq, Structural)]
pub struct Error {
    variant: ErrorVariant,
    not_span: Span,
    expr_span: Span,
}

impl Not {
    /// The operand.
    pub closed spec fn inner(&self) -> Expr {
        *self.inner
    }

    /// The negation of `inner`.
    pub closed spec fn of(inner: Expr) -> Not {
        Not { inner: Box::new(inner) }
    }

    /// A negation is what its operand is.
    pub broadcast proof fn lemma_of_inner(inner: Expr)
        ensures
            #[trigger] Not::of(inner).inner() == inner,
    {
    }

    /// The operand is a smaller expression than the negation.
    pub proof fn lemma_inner_is_smaller(&self)
        ensures
            decreases_to!(self => self.inner()),
    {
    }

    /// Builds the negation of the expression in `node`, where `not_span`
    /// is the span of the `!`. The operand must have exactly the kind
    /// `{boolean}` under `state`; else the error names the kind that it
    /// has, the span of the `!` and the span of the operand.
    pub fn new(node: Node<Expr>, not_span: Span, state: (&LocalEnv, &ExternalEnv)) -> (outcome:
        Result<Not, Error>)
        ensures
            match outcome {
                Ok(not) => {
                    &&& node.node.type_def_spec(state.0@, state.1@).is_boolean_spec()
                    &&& not == Not::of(node.node)
                    &&& not.inner() == node.node
                    &&& Expr::Not(not).well_typed(state.0@, state.1@) == node.node.well_typed(
                        state.0@,
                        state.1@,
                    )
                },
                Err(error) => {
                    &&& !node.node.type_def_spec(state.0@, state.1@).is_boolean_spec()
                    &&& error == Error::refusal(
                        node.node.type_def_spec(state.0@, state.1@).kind,
                        not_span,
                        node.span,
                    )
                    &&& error.variant() == ErrorVariant::NonBoolean(
                        node.node.type_def_spec(state.0@, state.1@).kind,
                    )
                    &&& error.not_span() == not_span
                    &&& error.expr_span() == node.span
                },
            },
    {
        let (expr_span, expr) = node.take();
        let type_def = expr.type_def(state);

        if !type_def.is_boolean() {
            return Err(
                Error { variant: ErrorVariant::NonBoolean(type_def.kind()), not_span, expr_span },
            );
        }
        Ok(Not { inner: Box::new(expr) })
    }

    /// Evaluates the operand, takes its value as a boolean and returns
    /// the other boolean. Fails as the operand fails, and where the
    /// operand's value turns out not to be a boolean.
    pub fn resolve(&self, ctx: &mut Context) -> (outcome: Result<Value, RuntimeError>)
        ensures
            outcome_view(outcome) == not_value(
                self.inner().resolve_spec(old(ctx).target@, old(ctx).variables@),
            ),
            final(ctx).target@ == old(ctx).target@,
            final(ctx).variables@ == old(ctx).variables@,
        decreases self,
    {
        let value = match self.inner.resolve(ctx) {
            Ok(value) => value,
            Err(error) => {
                return Err(error);
            },
        };
        match value.try_boolean() {
            Ok(b) => Ok(Value::Boolean(!b)),
            Err(error) => Err(RuntimeError::Coercion(error)),
        }
    }

    /// The static type: boolean, as fallible and as abortable as the
    /// operand.
    pub fn type_def(&self, state: (&LocalEnv, &ExternalEnv)) -> (def: TypeDef)
        ensures
            def == not_type(self.inner().type_def_spec(state.0@, state.1@)),
        decreases self,
    {
        let type_def = self.inner.type_def(state);
        let fallible = type_def.is_fallible();
        let abortable = type_def.is_abortable();

        TypeDef::boolean().with_fallibility(fallible).with_abortability(abortable)
    }

    /// Negation has no compiled form: the request is refused and the
    /// program of `backend` is left as it was.
    pub fn emit_compiled(&self, _state: (&LocalEnv, &ExternalEnv), backend: &mut Backend) -> (outcome:
        Result<(), CodegenError>)
        ensures
            outcome == Err::<(), CodegenError>(CodegenError::Unsupported),
            final(backend)@ == old(backend)@,
    {
        Err(CodegenError::Unsupported)
    }

    /// The negation as it is written: `!` before the operand.
    pub fn format(&self) -> (text: String)
        ensures
            text@ == seq!['!'] + self.inner().format_spec(),
        decreases self,
    {
        let mut text = "!".to_string();
        let operand = self.inner.format();
        text.append(operand.as_str());
        proof {
            reveal_strlit("!");
            assert("!"@ =~= seq!['!']);
        }
        text
    }
}

impl Error {
    /// The error that refuses the negation, with the `!` at `not_span`, of
    /// an operand at `expr_span` that has the kind `kind`.
    pub closed spec fn refusal(kind: Kind, not_span: Span, expr_span: Span) -> Error {
        Error { variant: ErrorVariant::NonBoolean(kind), not_span, expr_span }
    }

    /// What kind of error this is.
    pub closed spec fn variant(self) -> ErrorVariant {
        self.variant
    }

    /// The span of the `!`.
    pub closed spec fn not_span(self) -> Span {
        self.not_span
    }

    /// The span of the operand.
    pub closed spec fn expr_span(self) -> Span {
        self.expr_span
    }

    /// The kind that the operand has.
    pub open spec fn kind(self) -> Kind {
        match self.variant() {
            ErrorVariant::NonBoolean(kind) => kind,
        }
    }

    /// The labels of the report: the primary one on the `!`, and one on
    /// the operand that names the kind that it has.
    pub open spec fn labels_spec(self) -> Seq<LabelView> {
        seq![
            LabelView {
                message: "negation only works on boolean values"@,
                span: self.not_span(),
                role: Role::Primary,
            },
            LabelView {
                message: "this expression resolves to "@ + self.kind().text(),
                span: self.expr_span(),
                role: Role::Context,
            },
        ]
    }

    /// The notes of the report: to coerce the value, and where the
    /// coercion functions are documented.
    pub open spec fn notes_spec(self, urls: Seq<char>) -> Seq<NoteView> {
        seq![
            NoteView::CoerceValue,
            NoteView::SeeDocs("type coercion"@, func_docs_url(urls, "#coerce-functions"@)),
        ]
    }

    /// The report of this error.
    pub open spec fn diagnostic_spec(self, urls: Seq<char>) -> DiagnosticView {
        DiagnosticView {
            code: NON_BOOLEAN_NEGATION,
            message: "non-boolean negation"@,
            labels: self.labels_spec(),
            notes: self.notes_spec(urls),
        }
    }

    /// What kind of error this is.
    pub fn variant_of(&self) -> (variant: ErrorVariant)
        ensures
            variant == self.variant(),
    {
        self.variant
    }

    /// The code of this error.
    pub fn code(&self) -> (code: u32)
        ensures
            code == NON_BOOLEAN_NEGATION,
    {
        match &self.variant {
            ErrorVariant::NonBoolean(_) => NON_BOOLEAN_NEGATION,
        }
    }

    /// The error in a few words.
    pub fn message(&self) -> (text: String)
        ensures
            text@ == "non-boolean negation"@,
    {
        match &self.variant {
            ErrorVariant::NonBoolean(_) => "non-boolean negation".to_string(),
        }
    }

    /// The labels of the report.
    pub fn labels(&self) -> (labels: Vec<Label>)
        ensures
            label_views(labels@) == self.labels_spec(),
    {
        match &self.variant {
            ErrorVariant::NonBoolean(kind) => {
                let mut resolves = "this expression resolves to ".to_string();
                let described = kind.describe();
                resolves.append(described.as_str());
                let mut labels: Vec<Label> = Vec::new();
                labels.push(
                    Label::primary(
                        "negation only works on boolean values".to_string(),
                        self.not_span,
                    ),
                );
                labels.push(Label::context(resolves, self.expr_span));
                assert(label_views(labels@) =~= self.labels_spec());
                labels
            },
        }
    }

    /// The notes of the report, with addresses from `urls`.
    pub fn notes(&self, urls: &Urls) -> (notes: Vec<Note>)
        ensures
            note_views(notes@) == self.notes_spec(urls@),
    {
        match &self.variant {
            ErrorVariant::NonBoolean(_) => {
                let mut notes: Vec<Note> = Vec::new();
                notes.push(Note::CoerceValue);
                notes.push(
                    Note::SeeDocs(
                        "type coercion".to_string(),
                        urls.func_docs("#coerce-functions"),
                    ),
                );
                assert(note_views(notes@) =~= self.notes_spec(urls@));
                notes
            },
        }
    }

    /// The report of this error: its code, its labels, of which exactly
    /// one is primary, and its notes.
    pub fn diagnostic(&self, urls: &Urls) -> (report: Diagnostic)
        ensures
            report@ == self.diagnostic_spec(urls@),
            report@.well_formed(),
    {
        let report = Diagnostic {
            code: self.code(),
            message: self.message(),
            labels: self.labels(),
            notes: self.notes(urls),
        };
        proof {
            let labels = self.labels_spec();
            assert(labels.drop_last() =~= seq![labels[0]]);
            assert(labels.drop_last().drop_last() =~= Seq::<LabelView>::empty());
            assert(primary_count(labels.drop_last().drop_last()) == 0);
            assert(primary_count(labels.drop_last()) == 1);
            assert(primary_count(labels) == 1);
        }
        report
    }
}

} // verus!
