//! Reports of what is wrong with a program: a code, labelled spans of the
//! source, and notes on how to mend it. A diagnostic is data; it is
//! returned, never raised.

use vstd::prelude::*;
use crate::span::Span;

verus! {

/// What a label says of its span.
#[derive(Clone, Copy, Debug, PartialEq, Eq, Structural)]
pub enum Role {
    /// The span is the construct that is wrong.
    Primary,
    /// The span explains why.
    Context,
}

/// A message on a span of the source.
#[derive(Debug, PartialEq)]
pub struct Label {
    pub message: String,
    pub span: Span,
    pub role: Role,
}

/// The mathematical content of a [`Label`].
pub struct LabelView {
    pub message: Seq<char>,
    pub span: Span,
    pub role: Role,
}

impl View for Label {
    type V = LabelView;

    open spec fn view(&self) -> LabelView {
        LabelView { message: self.message@, span: self.span, role: self.role }
    }
}

impl Label {
    /// The label that marks the construct that is wrong.
    pub fn primary(message: String, span: Span) -> (label: Label)
        ensures
            label@ == (LabelView { message: message@, span, role: Role::Primary }),
    {
        Label { message, span, role: Role::Primary }
    }

    /// A label that explains the error.
    pub fn context(message: String, span: Span) -> (label: Label)
        ensures
            label@ == (LabelView { message: message@, span, role: Role::Context }),
    {
        Label { message, span, role: Role::Context }
    }
}

/// Where the documentation is found.
#[derive(Debug, PartialEq)]
pub struct Urls {
    base: String,
}

impl View for Urls {
    type V = Seq<char>;

    closed spec fn view(&self) -> Seq<char> {
        self.base@
    }
}

/// The address of a section of the documentation of the functions.
pub open spec fn func_docs_url(base: Seq<char>, fragment: Seq<char>) -> Seq<char> {
    base + "/functions/"@ + fragment
}

impl Urls {
    /// The documentation that is found under the address `base`.
    pub fn new(base: String) -> (urls: Urls)
        ensures
            urls@ == base@,
    {
        Urls { base }
    }

    /// The address of the section `fragment` of the documentation of the
    /// functions.
    pub fn func_docs(&self, fragment: &str) -> (url: String)
        ensures
            url@ == func_docs_url(self@, fragment@),
    {
        let mut url = self.base.clone();
        url.append("/functions/");
        url.append(fragment);
        url
    }
}

/// Advice that goes with a diagnostic.
#[derive(Debug, PartialEq)]
pub enum Note {
    /// Convert the value to the type that is asked for.
    CoerceValue,
    /// Read about a topic at an address.
    SeeDocs(String, String),
}

/// The mathematical content of a [`Note`].
pub enum NoteView {
    CoerceValue,
    SeeDocs(Seq<char>, Seq<char>),
}

impl View for Note {
    type V = NoteView;

    open spec fn view(&self) -> NoteView {
        match self {
            Note::CoerceValue => NoteView::CoerceValue,
            Note::SeeDocs(topic, url) => NoteView::SeeDocs(topic@, url@),
        }
    }
}

impl NoteView {
    /// The note in words.
    pub open spec fn text(self) -> Seq<char> {
        match self {
            NoteView::CoerceValue => "coerce the value to the required type with a coercion function"@,
            NoteView::SeeDocs(topic, url) => "see documentation about "@ + topic + " at "@ + url,
        }
    }
}

impl Note {
    /// The address that the note points to, if it points to one.
    pub fn doc_url(&self) -> (url: Option<&str>)
        ensures
            match url {
                Some(url) => self@ is SeeDocs && url@ == self@->SeeDocs_1,
                None => self@ is CoerceValue,
            },
    {
        match self {
            Note::CoerceValue => None,
            Note::SeeDocs(_, url) => Some(url.as_str()),
        }
    }

    /// The note in words.
    pub fn text(&self) -> (text: String)
        ensures
            text@ == self@.text(),
    {
        match self {
            Note::CoerceValue => {
                "coerce the value to the required type with a coercion function".to_string()
            },
            Note::SeeDocs(topic, url) => {
                let mut text = "see documentation about ".to_string();
                text.append(topic.as_str());
                text.append(" at ");
                text.append(url.as_str());
                text
            },
        }
    }
}

/// A report of one error in a program.
#[derive(Debug, PartialEq)]
pub struct Diagnostic {
    pub code: u32,
    pub message: String,
    pub labels: Vec<Label>,
    pub notes: Vec<Note>,
}

/// The mathematical content of a [`Diagnostic`].
pub struct DiagnosticView {
    pub code: u32,
    pub message: Seq<char>,
    pub labels: Seq<LabelView>,
    pub notes: Seq<NoteView>,
}

/// The views of a list of labels.
pub open spec fn label_views(labels: Seq<Label>) -> Seq<LabelView> {
    Seq::new(labels.len(), |i: int| labels[i]@)
}

/// The views of a list of notes.
pub open spec fn note_views(notes: Seq<Note>) -> Seq<NoteView> {
    Seq::new(notes.len(), |i: int| notes[i]@)
}

/// How many of the labels are primary.
pub open spec fn primary_count(labels: Seq<LabelView>) -> nat
    decreases labels.len(),
{
    if labels.len() == 0 {
        0
    } else if labels.last().role == Role::Primary {
        primary_count(labels.drop_last()) + 1
    } else {
        primary_count(labels.drop_last())
    }
}

impl DiagnosticView {
    /// Exactly one label marks the construct that is wrong.
    pub open spec fn well_formed(self) -> bool {
        primary_count(self.labels) == 1
    }
}

impl View for Diagnostic {
    type V = DiagnosticView;

    open spec fn view(&self) -> DiagnosticView {
        DiagnosticView {
            code: self.code,
            message: self.message@,
            labels: label_views(self.labels@),
            notes: note_views(self.notes@),
        }
    }
}

impl Diagnostic {
    /// The spans of the labels, in order.
    pub fn spans(&self) -> (spans: Vec<Span>)
        ensures
            spans@.len() == self@.labels.len(),
            forall|i: int| 0 <= i < spans@.len() ==> spans@[i] == self@.labels[i].span,
    {
        let mut spans: Vec<Span> = Vec::new();
        let mut i: usize = 0;
        while i < self.labels.len()
            invariant
                i <= self.labels@.len(),
                spans@.len() == i,
                forall|j: int| 0 <= j < i ==> spans@[j] == self.labels@[j].span,
            decreases self.labels@.len() - i,
        {
            spans.push(self.labels[i].span);
            i += 1;
        }
        spans
    }
}

} // verus!
