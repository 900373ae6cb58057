//! Structured diagnostics. Every rejection the library produces carries the
//! violating source span (or spans, where two arguments conflict) and a
//! machine-readable reason; nothing is silently defaulted.

use vstd::prelude::*;
use crate::tokens::Span;

verus! {

/// The reason a configuration was rejected.
#[derive(Clone, Copy, PartialEq, Eq, Structural, Debug)]
pub enum DiagKind {
    /// The first argument of a dependent role did not parse as a type.
    ExpectedType,
    /// `as` was not followed by an identifier.
    ExpectedIdent,
    /// A comma was expected between the owner type and the remaining
    /// arguments.
    ExpectedComma,
    /// An argument name that the grammar does not know.
    UnknownArg,
    /// Two mutually exclusive arguments were both given; both spans are
    /// carried.
    ExclusiveArgs,
    /// `expect(...)` without its message string.
    MissingExpectMessage,
    /// An error-constructing form needs exactly an error type and an
    /// expression.
    BadArity,
    /// The error-type argument of an error-constructing form did not parse
    /// as a path.
    ExpectedErrorType,
    /// A closure was given where a plain value expression is required.
    ClosureNotAllowed,
    /// A literal was given where the grammar takes none.
    UnexpectedLiteral,
    /// Reference counting cannot be disabled for an owner-role struct.
    RcDisabled,
    /// A `new` constructor cannot be requested in a dependent-role context.
    NewNotAllowed,
    /// The first argument of the old-style dependent annotation must be the
    /// owner type.
    MissingOwnerType,
    /// A name-value pair where a call or bare path is required.
    BadExprShape,
    /// The same argument was given twice.
    DuplicateArg,
}

/// One structured diagnostic: a reason plus the offending span or spans.
#[derive(Clone, Debug)]
pub struct Diag {
    pub kind: DiagKind,
    pub spans: Vec<Span>,
}

/// The human-readable reason for each kind.
pub open spec fn spec_message(k: DiagKind) -> Seq<char> {
    match k {
        DiagKind::ExpectedType => "expected an owner type here"@,
        DiagKind::ExpectedIdent => "expected an identifier after `as`"@,
        DiagKind::ExpectedComma => "expected `,`"@,
        DiagKind::UnknownArg => "unknown argument"@,
        DiagKind::ExclusiveArgs => "these arguments are mutually exclusive"@,
        DiagKind::MissingExpectMessage => "missing message for the `expect` argument"@,
        DiagKind::BadArity => "expected exactly an error type and an expression"@,
        DiagKind::ExpectedErrorType => "the error type must be a path"@,
        DiagKind::ClosureNotAllowed => "a closure is not accepted here; use a value expression"@,
        DiagKind::UnexpectedLiteral => "unexpected literal"@,
        DiagKind::RcDisabled => "`rc` cannot be disabled for an owner-role struct"@,
        DiagKind::NewNotAllowed => "`new` argument is not allowed in child/agent context"@,
        DiagKind::MissingOwnerType => "expected an owner type as the first argument"@,
        DiagKind::BadExprShape => "a name-value pair is not accepted here"@,
        DiagKind::DuplicateArg => "this argument was already given"@,
    }
}

impl Diag {
    /// A diagnostic with one offending location.
    pub fn new(kind: DiagKind, span: Span) -> (d: Diag)
        ensures
            d.kind == kind,
            d.spans@ == seq![span],
    {
        let mut spans: Vec<Span> = Vec::new();
        spans.push(span);
        proof {
            assert(spans@ =~= seq![span]);
        }
        Diag { kind, spans }
    }

    /// A diagnostic that names two offending locations.
    pub fn two(kind: DiagKind, a: Span, b: Span) -> (d: Diag)
        ensures
            d.kind == kind,
            d.spans@ == seq![a, b],
    {
        let mut spans: Vec<Span> = Vec::new();
        spans.push(a);
        spans.push(b);
        proof {
            assert(spans@ =~= seq![a, b]);
        }
        Diag { kind, spans }
    }

    /// The human-readable reason for this diagnostic's kind.
    pub fn message(&self) -> (m: String)
        ensures
            m@ == spec_message(self.kind),
            m@.len() > 0,
    {
        let m = match self.kind {
            DiagKind::ExpectedType => "expected an owner type here",
            DiagKind::ExpectedIdent => "expected an identifier after `as`",
            DiagKind::ExpectedComma => "expected `,`",
            DiagKind::UnknownArg => "unknown argument",
            DiagKind::ExclusiveArgs => "these arguments are mutually exclusive",
            DiagKind::MissingExpectMessage => "missing message for the `expect` argument",
            DiagKind::BadArity => "expected exactly an error type and an expression",
            DiagKind::ExpectedErrorType => "the error type must be a path",
            DiagKind::ClosureNotAllowed => "a closure is not accepted here; use a value expression",
            DiagKind::UnexpectedLiteral => "unexpected literal",
            DiagKind::RcDisabled => "`rc` cannot be disabled for an owner-role struct",
            DiagKind::NewNotAllowed => "`new` argument is not allowed in child/agent context",
            DiagKind::MissingOwnerType => "expected an owner type as the first argument",
            DiagKind::BadExprShape => "a name-value pair is not accepted here",
            DiagKind::DuplicateArg => "this argument was already given",
        };
        proof {
            reveal_strlit("expected an owner type here");
            reveal_strlit("expected an identifier after `as`");
            reveal_strlit("expected `,`");
            reveal_strlit("unknown argument");
            reveal_strlit("these arguments are mutually exclusive");
            reveal_strlit("missing message for the `expect` argument");
            reveal_strlit("expected exactly an error type and an expression");
            reveal_strlit("the error type must be a path");
            reveal_strlit("a closure is not accepted here; use a value expression");
            reveal_strlit("unexpected literal");
            reveal_strlit("`rc` cannot be disabled for an owner-role struct");
            reveal_strlit("`new` argument is not allowed in child/agent context");
            reveal_strlit("expected an owner type as the first argument");
            reveal_strlit("a name-value pair is not accepted here");
            reveal_strlit("this argument was already given");
        }
        m.to_owned()
    }
}

} // verus!
