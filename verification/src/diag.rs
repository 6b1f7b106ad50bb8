//! Error and diagnostic types: fatal lexical/parse errors with their
//! location, and the validator's collected diagnostics.

use vstd::prelude::*;

verus! {

/// Why a parse was aborted.
#[derive(Clone, Copy, PartialEq, Eq, Structural, Debug)]
pub enum ParseErrorKind {
    /// A quoted string was still open at end of input.
    UnterminatedString,
    /// A backslash escape inside a quoted string was malformed.
    InvalidEscape,
    /// A `)` without a matching `(`, or a `(` left open at end of input.
    UnbalancedParen,
    /// A `$` directive other than `$ORIGIN` or `$TTL` (notably `$INCLUDE`).
    UnsupportedDirective,
    /// `$ORIGIN` or `$TTL` with a malformed argument list.
    MalformedDirective,
    /// A blank owner name before any owner has been set.
    MissingOwner,
    /// No explicit TTL and no `$TTL` default in force.
    MissingTtl,
    /// A relative name (or `@`) before any origin has been set.
    MissingOrigin,
    /// A record type the engine does not know.
    UnsupportedRecordType,
    /// A record line malformed before its rdata (owner, TTL or class).
    MalformedRecord,
    /// Rdata that does not fit the record type.
    MalformedRdata,
}

/// A fatal error, with the source line (1-based) and byte offset at
/// which it was detected.
#[derive(Clone, Copy, PartialEq, Eq, Structural, Debug)]
pub struct ParseError {
    pub kind: ParseErrorKind,
    pub line: usize,
    pub offset: usize,
}

impl DeepView for ParseError {
    type V = ParseError;

    open spec fn deep_view(&self) -> ParseError {
        *self
    }
}

/// Whether a diagnostic blocks an import or is merely advisory.
#[derive(Clone, Copy, PartialEq, Eq, Structural, Debug)]
pub enum Severity {
    Error,
    Warning,
}

/// What a validator diagnostic reports.
#[derive(Clone, Copy, PartialEq, Eq, Structural, Debug)]
pub enum DiagnosticCode {
    /// The zone does not hold exactly one SOA record.
    InvalidSoaCount,
    /// A CNAME shares its owner name with another record.
    CnameExclusivityViolation,
    /// A numeric field lies outside its permitted range.
    FieldRangeError,
    /// A referenced target name is not a syntactically valid domain name.
    InvalidDomainName,
    /// SOA refresh is not below expire (advisory only).
    SoaTimingAdvisory,
}

/// One validator finding, tied to the record (by index into the zone's
/// record sequence) that caused it.
#[derive(Clone, Copy, PartialEq, Eq, Structural, Debug)]
pub struct Diagnostic {
    pub severity: Severity,
    pub code: DiagnosticCode,
    pub record_index: usize,
}

/// The wording used for each diagnostic code.
pub open spec fn spec_code_message(c: DiagnosticCode) -> Seq<char> {
    match c {
        DiagnosticCode::InvalidSoaCount => "zone must hold exactly one SOA record"@,
        DiagnosticCode::CnameExclusivityViolation => "CNAME must be the only record at its owner name"@,
        DiagnosticCode::FieldRangeError => "numeric field out of range"@,
        DiagnosticCode::InvalidDomainName => "not a valid domain name"@,
        DiagnosticCode::SoaTimingAdvisory => "SOA refresh should be below expire"@,
    }
}

impl Diagnostic {
    /// A human-readable message for this diagnostic.
    pub fn message(&self) -> (r: &'static str)
        ensures
            r@ == spec_code_message(self.code),
    {
        match self.code {
            DiagnosticCode::InvalidSoaCount => "zone must hold exactly one SOA record",
            DiagnosticCode::CnameExclusivityViolation => "CNAME must be the only record at its owner name",
            DiagnosticCode::FieldRangeError => "numeric field out of range",
            DiagnosticCode::InvalidDomainName => "not a valid domain name",
            DiagnosticCode::SoaTimingAdvisory => "SOA refresh should be below expire",
        }
    }
}

/// The wording used for each parse error kind.
pub open spec fn spec_kind_message(k: ParseErrorKind) -> Seq<char> {
    match k {
        ParseErrorKind::UnterminatedString => "unterminated quoted string"@,
        ParseErrorKind::InvalidEscape => "invalid escape in quoted string"@,
        ParseErrorKind::UnbalancedParen => "unbalanced parentheses"@,
        ParseErrorKind::UnsupportedDirective => "unsupported directive"@,
        ParseErrorKind::MalformedDirective => "malformed directive"@,
        ParseErrorKind::MissingOwner => "blank owner name with no previous owner"@,
        ParseErrorKind::MissingTtl => "no TTL given and no $TTL default set"@,
        ParseErrorKind::MissingOrigin => "relative name with no origin set"@,
        ParseErrorKind::UnsupportedRecordType => "unsupported record type"@,
        ParseErrorKind::MalformedRecord => "malformed record line"@,
        ParseErrorKind::MalformedRdata => "malformed rdata"@,
    }
}

impl ParseError {
    /// A human-readable message for this error.
    pub fn message(&self) -> (r: &'static str)
        ensures
            r@ == spec_kind_message(self.kind),
    {
        match self.kind {
            ParseErrorKind::UnterminatedString => "unterminated quoted string",
            ParseErrorKind::InvalidEscape => "invalid escape in quoted string",
            ParseErrorKind::UnbalancedParen => "unbalanced parentheses",
            ParseErrorKind::UnsupportedDirective => "unsupported directive",
            ParseErrorKind::MalformedDirective => "malformed directive",
            ParseErrorKind::MissingOwner => "blank owner name with no previous owner",
            ParseErrorKind::MissingTtl => "no TTL given and no $TTL default set",
            ParseErrorKind::MissingOrigin => "relative name with no origin set",
            ParseErrorKind::UnsupportedRecordType => "unsupported record type",
            ParseErrorKind::MalformedRecord => "malformed record line",
            ParseErrorKind::MalformedRdata => "malformed rdata",
        }
    }
}

} // verus!
