//! What is shown of results and errors: the fixed words of the report
//! format and the messages of the errors. Turning these values into text on
//! the wire is the caller's part.

use vstd::prelude::*;
use crate::audit::{ActionKind, Status};
use crate::ledger::{LedgerError, LedgerErrorView};
use crate::parser::{ParseError, ParseErrorKind, ParseFailure};
use crate::text::{decimal, push_decimal};

verus! {

impl ActionKind {
    /// The word for the kind in a report.
    pub open spec fn word(self) -> Seq<char> {
        match self {
            ActionKind::Attack => "ATTACK"@,
            ActionKind::Check => "CHECK"@,
        }
    }

    /// The word for the kind in a report.
    pub fn label(self) -> (text: &'static str)
        ensures
            text@ == self.word(),
    {
        match self {
            ActionKind::Attack => "ATTACK",
            ActionKind::Check => "CHECK",
        }
    }
}

impl Status {
    /// The word for the status in a report.
    pub open spec fn word(self) -> Seq<char> {
        match self {
            Status::Success => "SUCCESS"@,
            Status::Failed => "FAILED"@,
            Status::Error => "ERROR"@,
        }
    }

    /// The word for the status in a report.
    pub fn label(self) -> (text: &'static str)
        ensures
            text@ == self.word(),
    {
        match self {
            Status::Success => "SUCCESS",
            Status::Failed => "FAILED",
            Status::Error => "ERROR",
        }
    }
}

impl ParseErrorKind {
    /// What went wrong, in words.
    pub open spec fn description(self) -> Seq<char> {
        match self {
            ParseErrorKind::UnknownKeyword => "unknown keyword"@,
            ParseErrorKind::ExpectedQuotedString => "expected a quoted string"@,
            ParseErrorKind::UnterminatedString => "unterminated quoted string"@,
            ParseErrorKind::TrailingCharacters => "unexpected text after the closing quote"@,
            ParseErrorKind::InvalidIdentifier => "expected an identifier"@,
            ParseErrorKind::EmptyCheck => "CHECK without an expression"@,
            ParseErrorKind::ExpectedScenario => "expected SCENARIO"@,
            ParseErrorKind::ExpectedTarget => "expected TARGET"@,
            ParseErrorKind::ExpectedScope => "expected WITH_SCOPE"@,
            ParseErrorKind::ActionOutsideStep => "ATTACK or CHECK before the first STEP"@,
            ParseErrorKind::UnexpectedDeclaration => "SCENARIO, TARGET or WITH_SCOPE after the header"@,
        }
    }

    /// What went wrong, in words.
    pub fn describe(self) -> (text: &'static str)
        ensures
            text@ == self.description(),
    {
        match self {
            ParseErrorKind::UnknownKeyword => "unknown keyword",
            ParseErrorKind::ExpectedQuotedString => "expected a quoted string",
            ParseErrorKind::UnterminatedString => "unterminated quoted string",
            ParseErrorKind::TrailingCharacters => "unexpected text after the closing quote",
            ParseErrorKind::InvalidIdentifier => "expected an identifier",
            ParseErrorKind::EmptyCheck => "CHECK without an expression",
            ParseErrorKind::ExpectedScenario => "expected SCENARIO",
            ParseErrorKind::ExpectedTarget => "expected TARGET",
            ParseErrorKind::ExpectedScope => "expected WITH_SCOPE",
            ParseErrorKind::ActionOutsideStep => "ATTACK or CHECK before the first STEP",
            ParseErrorKind::UnexpectedDeclaration => "SCENARIO, TARGET or WITH_SCOPE after the header",
        }
    }
}

impl ParseFailure {
    /// The message of a syntax error: where it is and what it is.
    pub open spec fn message(self) -> Seq<char> {
        "line "@ + decimal(self.line) + ": "@ + self.kind.description()
    }
}

impl ParseError {
    /// The message of the error: where it is and what it is.
    pub fn message(&self) -> (text: String)
        ensures
            text@ == self@.message(),
    {
        let mut text = "line ".to_owned();
        push_decimal(&mut text, self.line);
        text.append(": ");
        text.append(self.kind.describe());
        text
    }
}

impl LedgerErrorView {
    /// The message of a ledger error.
    pub open spec fn message(self) -> Seq<char> {
        match self {
            LedgerErrorView::AlreadyInitialized =>
                "ratel.yaml exists already. Certify to replace its baseline."@,
            LedgerErrorView::ConfigMissing => "No ratel.yaml found. Run init first."@,
            LedgerErrorView::ConfigCorrupt => "ratel.yaml cannot be read as a ledger."@,
            LedgerErrorView::FileMissing(path) => "File missing: '"@ + path + "'"@,
            LedgerErrorView::IntegrityViolation(path) => "ALERT: '"@ + path
                + "' modified! Audit aborted."@,
        }
    }
}

impl LedgerError {
    /// The message of the error.
    pub fn message(&self) -> (text: String)
        ensures
            text@ == self@.message(),
    {
        match self {
            LedgerError::AlreadyInitialized =>
                "ratel.yaml exists already. Certify to replace its baseline.".to_owned(),
            LedgerError::ConfigMissing => "No ratel.yaml found. Run init first.".to_owned(),
            LedgerError::ConfigCorrupt => "ratel.yaml cannot be read as a ledger.".to_owned(),
            LedgerError::FileMissing(path) => {
                let mut text = "File missing: '".to_owned();
                text.append(path.as_str());
                text.append("'");
                text
            },
            LedgerError::IntegrityViolation(path) => {
                let mut text = "ALERT: '".to_owned();
                text.append(path.as_str());
                text.append("' modified! Audit aborted.");
                text
            },
        }
    }
}

/// What is emitted in place of a report when the scenario does not parse.
#[derive(Debug, PartialEq, Eq)]
pub struct ErrorReport {
    pub status: String,
    pub error_type: String,
    pub message: String,
}

/// The error report for a syntax error.
pub fn parse_error_report(error: &ParseError) -> (report: ErrorReport)
    ensures
        report.status@ == "error"@,
        report.error_type@ == "PARSING_ERROR"@,
        report.message@ == "Syntax error in .ratel file: "@ + error@.message(),
{
    let mut message = "Syntax error in .ratel file: ".to_owned();
    let detail = error.message();
    message.append(detail.as_str());
    ErrorReport { status: "error".to_owned(), error_type: "PARSING_ERROR".to_owned(), message }
}

} // verus!
