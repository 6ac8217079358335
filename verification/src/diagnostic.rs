//! How an error is shown: a diagnostic with a header message and labels that
//! point into the source.
use vstd::prelude::*;

use codespan_reporting::diagnostic::{Diagnostic, Label};

use crate::error::{Error, ErrorTypeView, ErrorView};
use crate::position::{position_text, Position};
use crate::text::{decimal, decimal_string};

verus! {

/// A label of a diagnostic: whether it is the primary one, the span it
/// points at, and its message.
pub struct LabelParts {
    pub primary: bool,
    pub start: usize,
    pub end: usize,
    pub message: String,
}

/// What a diagnostic says: its header message and its labels.
pub struct DiagnosticParts {
    pub message: String,
    pub labels: Vec<LabelParts>,
}

/// The mathematical value of a label.
pub struct LabelView {
    pub primary: bool,
    pub start: usize,
    pub end: usize,
    pub message: Seq<char>,
}

/// The mathematical value of a diagnostic.
pub struct DiagnosticView {
    pub message: Seq<char>,
    pub labels: Seq<LabelView>,
}

impl View for LabelParts {
    type V = LabelView;

    open spec fn view(&self) -> LabelView {
        LabelView {
            primary: self.primary,
            start: self.start,
            end: self.end,
            message: self.message@,
        }
    }
}

impl View for DiagnosticParts {
    type V = DiagnosticView;

    open spec fn view(&self) -> DiagnosticView {
        DiagnosticView {
            message: self.message@,
            labels: self.labels@.map_values(|l: LabelParts| l@),
        }
    }
}

/// A primary label over a span.
pub open spec fn primary_label(p: Position, message: Seq<char>) -> LabelView {
    LabelView { primary: true, start: p.start_position, end: p.end_position, message }
}

/// A secondary label over a span.
pub open spec fn secondary_label(p: Position, message: Seq<char>) -> LabelView {
    LabelView { primary: false, start: p.start_position, end: p.end_position, message }
}

/// What the diagnostic of an error says: a header that names the kind of
/// error, a primary label over the error's span that says what went wrong,
/// and, for a name in use, a secondary label where the name was used before.
pub open spec fn diagnostic_of(e: ErrorView) -> DiagnosticView {
    let p = e.position;
    match e.error_type {
        ErrorTypeView::ExpectArguments(expected, got) => DiagnosticView {
            message: "Expected arguments"@,
            labels: seq![
                primary_label(
                    p,
                    "Expect `"@ + decimal(expected as nat) + "` arguments, got `"@ + decimal(
                        got as nat,
                    ) + "` instead."@,
                ),
            ],
        },
        ErrorTypeView::ExpectToken(expected, got) => DiagnosticView {
            message: "Expected token"@,
            labels: seq![
                primary_label(p, "Expect `"@ + expected + "`, got `"@ + got + "` instead."@),
            ],
        },
        ErrorTypeView::ExpectType(expected, got) => DiagnosticView {
            message: "Expected data type"@,
            labels: seq![
                primary_label(
                    p,
                    "Expect `"@ + expected + "` data type, got `"@ + got + "` instead."@,
                ),
            ],
        },
        ErrorTypeView::Lexical(message) => DiagnosticView {
            message: "Lexical"@,
            labels: seq![primary_label(p, message)],
        },
        ErrorTypeView::NameInUse(name, last) => DiagnosticView {
            message: "The identifier is already in use"@,
            labels: seq![
                primary_label(p, "The `"@ + name + "` identifier is already in use."@),
                secondary_label(last, "The `"@ + name + "` identifier is used here."@),
            ],
        },
        ErrorTypeView::UnknownIdentifier(name) => DiagnosticView {
            message: "Unknown identifier"@,
            labels: seq![primary_label(p, "Cannot find `"@ + name + "` in this scope."@)],
        },
        ErrorTypeView::UnknownPosition(position) => DiagnosticView {
            message: "Unknown position"@,
            labels: seq![
                primary_label(
                    p,
                    "Cannot recognize the position at "@ + position_text(position) + "."@,
                ),
            ],
        },
        ErrorTypeView::UnknownToken => DiagnosticView {
            message: "Unknown token"@,
            labels: seq![primary_label(p, "Cannot recognize this token."@)],
        },
    }
}

/// Every diagnostic points first at the error with its one primary label;
/// only a name in use has a second label, a secondary one over where the name
/// was used before.
pub proof fn lemma_diagnostic_labels(e: ErrorView)
    ensures
        ({
            let labels = diagnostic_of(e).labels;
            &&& labels.len() == if e.error_type is NameInUse {
                2int
            } else {
                1int
            }
            &&& labels[0].primary
            &&& labels[0].start == e.position.start_position
            &&& labels[0].end == e.position.end_position
            &&& e.error_type matches ErrorTypeView::NameInUse(_, last) ==> {
                &&& !labels[1].primary
                &&& labels[1].start == last.start_position
                &&& labels[1].end == last.end_position
            }
        }),
{
}

/// Text made of three pieces.
fn join3(a: &str, b: &str, c: &str) -> (t: String)
    ensures
        t@ == a@ + b@ + c@,
{
    let mut t = String::from_str(a);
    t.append(b);
    t.append(c);
    t
}

/// Text made of five pieces.
fn join5(a: &str, b: &str, c: &str, d: &str, e: &str) -> (t: String)
    ensures
        t@ == a@ + b@ + c@ + d@ + e@,
{
    let mut t = join3(a, b, c);
    t.append(d);
    t.append(e);
    t
}

/// The one label of a diagnostic: a primary label over the span.
fn primary_only(p: Position, message: String) -> (labels: Vec<LabelParts>)
    ensures
        labels@.map_values(|l: LabelParts| l@) == seq![primary_label(p, message@)],
{
    let mut labels = Vec::new();
    labels.push(
        LabelParts {
            primary: true,
            start: p.start_position,
            end: p.end_position,
            message,
        },
    );
    assert(labels@.map_values(|l: LabelParts| l@) =~= seq![primary_label(p, message@)]);
    labels
}

impl Error {
    /// What the diagnostic of the error says: see `diagnostic_of`.
    pub fn diagnostic_parts(&self) -> (d: DiagnosticParts)
        ensures
            d@ == diagnostic_of(self@),
    {
        let p = self.get_position();
        match self.get_error_type() {
            crate::error::ErrorType::ExpectArguments(expected, got) => DiagnosticParts {
                message: String::from_str("Expected arguments"),
                labels: primary_only(
                    p,
                    join5(
                        "Expect `",
                        decimal_string(expected).as_str(),
                        "` arguments, got `",
                        decimal_string(got).as_str(),
                        "` instead.",
                    ),
                ),
            },
            crate::error::ErrorType::ExpectToken(expected, got) => DiagnosticParts {
                message: String::from_str("Expected token"),
                labels: primary_only(
                    p,
                    join5("Expect `", expected.as_str(), "`, got `", got.as_str(), "` instead."),
                ),
            },
            crate::error::ErrorType::ExpectType(expected, got) => DiagnosticParts {
                message: String::from_str("Expected data type"),
                labels: primary_only(
                    p,
                    join5(
                        "Expect `",
                        expected.as_str(),
                        "` data type, got `",
                        got.as_str(),
                        "` instead.",
                    ),
                ),
            },
            crate::error::ErrorType::Lexical(message) => DiagnosticParts {
                message: String::from_str("Lexical"),
                labels: primary_only(p, message),
            },
            crate::error::ErrorType::NameInUse(name, last) => {
                let mut labels = Vec::new();
                labels.push(
                    LabelParts {
                        primary: true,
                        start: p.start_position,
                        end: p.end_position,
                        message: join3("The `", name.as_str(), "` identifier is already in use."),
                    },
                );
                labels.push(
                    LabelParts {
                        primary: false,
                        start: last.start_position,
                        end: last.end_position,
                        message: join3("The `", name.as_str(), "` identifier is used here."),
                    },
                );
                let d = DiagnosticParts {
                    message: String::from_str("The identifier is already in use"),
                    labels,
                };
                assert(d@.labels =~= diagnostic_of(self@).labels);
                d
            },
            crate::error::ErrorType::UnknownIdentifier(name) => DiagnosticParts {
                message: String::from_str("Unknown identifier"),
                labels: primary_only(p, join3("Cannot find `", name.as_str(), "` in this scope.")),
            },
            crate::error::ErrorType::UnknownPosition(position) => DiagnosticParts {
                message: String::from_str("Unknown position"),
                labels: primary_only(
                    p,
                    join3("Cannot recognize the position at ", position.to_text().as_str(), "."),
                ),
            },
            crate::error::ErrorType::UnknownToken => DiagnosticParts {
                message: String::from_str("Unknown token"),
                labels: primary_only(p, String::from_str("Cannot recognize this token.")),
            },
        }
    }
}

// ---------------------------------------------------------------------------
// The diagnostic itself, as codespan_reporting builds it.

#[verifier::external_type_specification]
#[verifier::external_body]
#[verifier::reject_recursive_types(FileId)]
pub struct ExDiagnostic<FileId>(Diagnostic<FileId>);

#[verifier::external_type_specification]
#[verifier::external_body]
#[verifier::reject_recursive_types(FileId)]
pub struct ExLabel<FileId>(Label<FileId>);

/// The diagnostic that `Diagnostic::error()` followed by
/// `with_message(message)` builds.
pub uninterp spec fn codespan_error(message: Seq<char>) -> Diagnostic<()>;

/// The diagnostic that `with_labels(labels)` makes of a diagnostic.
pub uninterp spec fn codespan_with_labels(d: Diagnostic<()>, labels: Seq<Label<()>>) -> Diagnostic<()>;

/// The label that `Label::primary((), start..end)` builds.
pub uninterp spec fn codespan_primary(start: usize, end: usize) -> Label<()>;

/// The label that `Label::secondary((), start..end)` builds.
pub uninterp spec fn codespan_secondary(start: usize, end: usize) -> Label<()>;

/// The label that `with_message(message)` makes of a label.
pub uninterp spec fn codespan_label_message(l: Label<()>, message: Seq<char>) -> Label<()>;

/// Calls `Diagnostic::error()` and then `Diagnostic::with_message`: a
/// diagnostic of severity `Error`, with no code, labels or notes, whose
/// message is `message`. The source shows that the result depends on the
/// message alone; it is named `codespan_error(message)`.
#[verifier::external_body]
fn error_diagnostic(message: &str) -> (d: Diagnostic<()>)
    ensures
        d == codespan_error(message@),
{
    Diagnostic::error().with_message(message)
}

/// Calls `Diagnostic::with_labels`, which replaces the labels of the
/// diagnostic and keeps the rest. The result is named
/// `codespan_with_labels(d, labels)`.
#[verifier::external_body]
fn with_labels(d: Diagnostic<()>, labels: Vec<Label<()>>) -> (r: Diagnostic<()>)
    ensures
        r == codespan_with_labels(d, labels@),
{
    d.with_labels(labels)
}

/// Calls `Label::primary` with the unit file and the range `start..end`: a
/// primary label over that range with an empty message. The result is named
/// `codespan_primary(start, end)`.
#[verifier::external_body]
fn primary(start: usize, end: usize) -> (l: Label<()>)
    ensures
        l == codespan_primary(start, end),
{
    Label::primary((), start..end)
}

/// Calls `Label::secondary` with the unit file and the range `start..end`: a
/// secondary label over that range with an empty message. The result is
/// named `codespan_secondary(start, end)`.
#[verifier::external_body]
fn secondary(start: usize, end: usize) -> (l: Label<()>)
    ensures
        l == codespan_secondary(start, end),
{
    Label::secondary((), start..end)
}

/// Calls `Label::with_message`, which replaces the message of the label and
/// keeps the rest. The result is named `codespan_label_message(l, message)`.
#[verifier::external_body]
fn label_with_message(l: Label<()>, message: &str) -> (r: Label<()>)
    ensures
        r == codespan_label_message(l, message@),
{
    l.with_message(message)
}

/// The label that codespan_reporting builds for a label of a diagnostic.
pub open spec fn codespan_label(l: LabelView) -> Label<()> {
    codespan_label_message(
        if l.primary {
            codespan_primary(l.start, l.end)
        } else {
            codespan_secondary(l.start, l.end)
        },
        l.message,
    )
}

/// The diagnostic that codespan_reporting builds for what a diagnostic says.
pub open spec fn codespan_diagnostic(d: DiagnosticView) -> Diagnostic<()> {
    codespan_with_labels(codespan_error(d.message), d.labels.map_values(|l: LabelView| codespan_label(l)))
}

impl Error {
    /// Convert the error to a diagnostic object: an error diagnostic whose
    /// message and labels are those that `diagnostic_parts` gives.
    pub fn to_diagnostic(&self) -> (d: Diagnostic<()>)
        ensures
            d == codespan_diagnostic(diagnostic_of(self@)),
    {
        let parts = self.diagnostic_parts();
        let mut labels: Vec<Label<()>> = Vec::new();
        let n = parts.labels.len();
        for i in 0..n
            invariant
                n == parts.labels.len(),
                labels@.len() == i,
                forall|j: int| 0 <= j < i ==> #[trigger] labels@[j] == codespan_label(parts.labels@[j]@),
        {
            let part = &parts.labels[i];
            let label = if part.primary {
                primary(part.start, part.end)
            } else {
                secondary(part.start, part.end)
            };
            labels.push(label_with_message(label, part.message.as_str()));
        }
        assert(labels@ =~= parts@.labels.map_values(|l: LabelView| codespan_label(l)));
        with_labels(error_diagnostic(parts.message.as_str()), labels)
    }
}

/// The diagnostic that `to_diagnostic` builds for an error is an error
/// diagnostic whose labels are, in order: a primary label over the error's own
/// span, and, for a name in use only, a secondary label over where the name
/// was used before; each with the message that `diagnostic_of` gives it.
pub proof fn lemma_to_diagnostic_labels(e: ErrorView)
    ensures
        ({
            let d = diagnostic_of(e);
            let first = codespan_label_message(
                codespan_primary(e.position.start_position, e.position.end_position),
                d.labels[0].message,
            );
            codespan_diagnostic(d) == codespan_with_labels(
                codespan_error(d.message),
                if e.error_type is NameInUse {
                    let last = e.error_type->NameInUse_1;
                    seq![
                        first,
                        codespan_label_message(
                            codespan_secondary(last.start_position, last.end_position),
                            d.labels[1].message,
                        ),
                    ]
                } else {
                    seq![first]
                },
            )
        }),
{
    let d = diagnostic_of(e);
    let labels = d.labels.map_values(|l: LabelView| codespan_label(l));
    if e.error_type is NameInUse {
        let last = e.error_type->NameInUse_1;
        assert(labels =~= seq![
            codespan_label_message(
                codespan_primary(e.position.start_position, e.position.end_position),
                d.labels[0].message,
            ),
            codespan_label_message(
                codespan_secondary(last.start_position, last.end_position),
                d.labels[1].message,
            ),
        ]);
    } else {
        assert(labels =~= seq![
            codespan_label_message(
                codespan_primary(e.position.start_position, e.position.end_position),
                d.labels[0].message,
            ),
        ]);
    }
}

} // verus!
