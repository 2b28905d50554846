//! Diagnostics: a position in the source plus a message, produced by any
//! stage of the pipeline and collected until final emission. A recoverable
//! mistake costs one diagnostic; only a structurally unparseable item aborts
//! a whole invocation, through `ParseError`.

use vstd::prelude::*;

use crate::name::chars_of;
use crate::name::copy_name;
use crate::name::append_name;

verus! {

/// A source position: the half-open character range of the offending text.
#[derive(Clone, Copy, PartialEq, Eq, Structural, Debug)]
pub struct Span {
    pub lo: u64,
    pub hi: u64,
}

/// What a recoverable diagnostic reports.
#[derive(Debug)]
pub enum DiagKind {
    /// An annotation matched none of the supported directive grammars.
    UnsupportedAttribute,
    /// A match arm's pattern has no leading path to order by.
    UnsupportedPattern,
    /// A second directive of a kind that a field may carry only once.
    ConflictingDirective { keyword: Vec<char> },
    /// A name that breaks the declared ordering, and the name it must precede.
    OutOfOrder { name: Vec<char>, should_precede: Vec<char> },
}

/// The mathematical shape of a diagnostic kind.
pub enum DiagKindM {
    UnsupportedAttribute,
    UnsupportedPattern,
    ConflictingDirective { keyword: Seq<char> },
    OutOfOrder { name: Seq<char>, should_precede: Seq<char> },
}

impl View for DiagKind {
    type V = DiagKindM;

    open spec fn view(&self) -> DiagKindM {
        match self {
            DiagKind::UnsupportedAttribute => DiagKindM::UnsupportedAttribute,
            DiagKind::UnsupportedPattern => DiagKindM::UnsupportedPattern,
            DiagKind::ConflictingDirective { keyword } => DiagKindM::ConflictingDirective {
                keyword: keyword@,
            },
            DiagKind::OutOfOrder { name, should_precede } => DiagKindM::OutOfOrder {
                name: name@,
                should_precede: should_precede@,
            },
        }
    }
}

/// One collected diagnostic: a position and what went wrong there.
#[derive(Debug)]
pub struct Diagnostic {
    pub span: Span,
    pub kind: DiagKind,
}

/// The mathematical shape of a diagnostic.
pub struct DiagnosticM {
    pub span: Span,
    pub kind: DiagKindM,
}

impl View for Diagnostic {
    type V = DiagnosticM;

    open spec fn view(&self) -> DiagnosticM {
        DiagnosticM { span: self.span, kind: self.kind@ }
    }
}

/// The message text of a diagnostic kind.
pub open spec fn message_chars(k: DiagKindM) -> Seq<char> {
    match k {
        DiagKindM::UnsupportedAttribute => "unsupported attribute"@,
        DiagKindM::UnsupportedPattern => "unsupported pattern"@,
        DiagKindM::ConflictingDirective { keyword } => "conflicting directive: "@ + keyword,
        DiagKindM::OutOfOrder { name, should_precede } => name + " should sort before "@
            + should_precede,
    }
}

impl Diagnostic {
    /// Renders the diagnostic's message.
    pub fn message(&self) -> (r: Vec<char>)
        ensures
            r@ == message_chars(self@.kind),
    {
        match &self.kind {
            DiagKind::UnsupportedAttribute => chars_of("unsupported attribute"),
            DiagKind::UnsupportedPattern => chars_of("unsupported pattern"),
            DiagKind::ConflictingDirective { keyword } => {
                let mut r = chars_of("conflicting directive: ");
                append_name(&mut r, keyword);
                r
            },
            DiagKind::OutOfOrder { name, should_precede } => {
                let mut r = copy_name(name);
                let mid = chars_of(" should sort before ");
                append_name(&mut r, &mid);
                append_name(&mut r, should_precede);
                r
            },
        }
    }
}

/// Why an item was rejected outright: its overall shape is not one the
/// invoked transformation accepts. Fatal for the whole invocation.
#[derive(Clone, Copy, PartialEq, Eq, Structural, Debug)]
pub enum ParseReject {
    /// The transformation takes a struct with named fields.
    NamedFieldStruct,
    /// The transformation takes an enum.
    EnumItem,
}

/// The fatal error of an invocation whose input has the wrong shape.
#[derive(Clone, Copy, PartialEq, Eq, Structural, Debug)]
pub struct ParseError {
    pub span: Span,
    pub expected: ParseReject,
}

/// The message text of a fatal parse error.
pub open spec fn parse_error_chars(e: ParseReject) -> Seq<char> {
    match e {
        ParseReject::NamedFieldStruct => "expected a struct with named fields"@,
        ParseReject::EnumItem => "expected enum or match expression"@,
    }
}

impl ParseError {
    /// Renders the error's message.
    pub fn message(&self) -> (r: Vec<char>)
        ensures
            r@ == parse_error_chars(self.expected),
    {
        match self.expected {
            ParseReject::NamedFieldStruct => chars_of("expected a struct with named fields"),
            ParseReject::EnumItem => chars_of("expected enum or match expression"),
        }
    }
}

} // verus!
