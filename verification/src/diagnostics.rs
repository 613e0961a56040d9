//! Diagnostics: the errors and warnings that the compiler reports.

use vstd::prelude::*;
use crate::source::Span;

verus! {

/// How serious a diagnostic is.
#[derive(Debug, Clone, Copy, PartialEq, Eq, Structural)]
pub enum Severity {
    Error,
    Warning,
}

/// A message attached to a span.
#[derive(Debug, Clone)]
pub struct Label {
    pub span: Span,
    pub text: String,
}

/// What a label says, as plain values.
pub struct LabelView {
    pub span: Span,
    pub text: Seq<char>,
}

impl View for Label {
    type V = LabelView;

    open spec fn view(&self) -> LabelView {
        LabelView { span: self.span, text: self.text@ }
    }
}

/// A report about the program: a message, the place it is mainly about,
/// and further places that explain it.
#[derive(Debug, Clone)]
pub struct Diagnostic {
    pub severity: Severity,
    pub message: String,
    pub primary: Label,
    pub others: Vec<Label>,
}

/// What a diagnostic says, as plain values.
pub struct DiagnosticView {
    pub severity: Severity,
    pub message: Seq<char>,
    pub primary: LabelView,
    pub others: Seq<LabelView>,
}

impl View for Diagnostic {
    type V = DiagnosticView;

    open spec fn view(&self) -> DiagnosticView {
        DiagnosticView {
            severity: self.severity,
            message: self.message@,
            primary: self.primary@,
            others: self.others@.map_values(|label: Label| label@),
        }
    }
}

/// The views of a list of diagnostics.
pub open spec fn diagnostics_view(diagnostics: Seq<Diagnostic>) -> Seq<DiagnosticView> {
    diagnostics.map_values(|diagnostic: Diagnostic| diagnostic@)
}

/// An error diagnostic with one label and nothing more.
pub open spec fn error_view(message: Seq<char>, span: Span, text: Seq<char>) -> DiagnosticView {
    DiagnosticView {
        severity: Severity::Error,
        message,
        primary: LabelView { span, text },
        others: Seq::empty(),
    }
}

impl Label {
    /// A label with the given span and text.
    pub fn new(span: Span, text: String) -> (label: Label)
        ensures
            label.span == span,
            label.text@ == text@,
    {
        Label { span, text }
    }
}

impl Diagnostic {
    fn new(severity: Severity, message: String, primary: Label, others: Vec<Label>) -> (diagnostic: Diagnostic)
        ensures
            diagnostic.severity == severity,
            diagnostic.message@ == message@,
            diagnostic.primary@ == primary@,
            diagnostic.others@ == others@,
    {
        Diagnostic { severity, message, primary, others }
    }

    /// An error about `span`, labelled with `text`.
    pub fn error(message: String, span: Span, text: String) -> (diagnostic: Diagnostic)
        ensures
            diagnostic@ == error_view(message@, span, text@),
    {
        let d = Self::new(Severity::Error, message, Label::new(span, text), Vec::new());
        assert(d@.others =~= Seq::<LabelView>::empty());
        d
    }

    /// An error about `span`, labelled with `text`, with further labels.
    pub fn error_with_extra_labels(
        message: String,
        span: Span,
        text: String,
        extra_labels: Vec<Label>,
    ) -> (diagnostic: Diagnostic)
        ensures
            diagnostic.severity == Severity::Error,
            diagnostic.message@ == message@,
            diagnostic.primary@ == (LabelView { span, text: text@ }),
            diagnostic.others@ == extra_labels@,
    {
        Self::new(Severity::Error, message, Label::new(span, text), extra_labels)
    }

    /// A warning about `span`, labelled with `text`.
    pub fn warning(message: String, span: Span, text: String) -> (diagnostic: Diagnostic)
        ensures
            diagnostic@ == (DiagnosticView {
                severity: Severity::Warning,
                message: message@,
                primary: LabelView { span, text: text@ },
                others: Seq::empty(),
            }),
    {
        let d = Self::new(Severity::Warning, message, Label::new(span, text), Vec::new());
        assert(d@.others =~= Seq::<LabelView>::empty());
        d
    }
}

/// An error diagnostic whose message and label are given as text.
pub fn error_str(message: &str, span: Span, text: &str) -> (diagnostic: Diagnostic)
    ensures
        diagnostic@ == error_view(message@, span, text@),
{
    Diagnostic::error(String::from_str(message), span, String::from_str(text))
}

} // verus!
