use ratel::audit::{ActionKind, Status};
use ratel::ledger::LedgerError;
use ratel::parser::{ParseError, ParseErrorKind};
use ratel::report::parse_error_report;
use ratel::text::{chars_of, push_decimal};

#[test]
fn report_words() {
    assert_eq!(ActionKind::Attack.label(), "ATTACK");
    assert_eq!(ActionKind::Check.label(), "CHECK");
    assert_eq!(Status::Success.label(), "SUCCESS");
    assert_eq!(Status::Failed.label(), "FAILED");
    assert_eq!(Status::Error.label(), "ERROR");
}

#[test]
fn parse_error_messages() {
    let cases = [
        (ParseErrorKind::UnknownKeyword, "unknown keyword"),
        (ParseErrorKind::ExpectedQuotedString, "expected a quoted string"),
        (ParseErrorKind::UnterminatedString, "unterminated quoted string"),
        (ParseErrorKind::TrailingCharacters, "unexpected text after the closing quote"),
        (ParseErrorKind::InvalidIdentifier, "expected an identifier"),
        (ParseErrorKind::EmptyCheck, "CHECK without an expression"),
        (ParseErrorKind::ExpectedScenario, "expected SCENARIO"),
        (ParseErrorKind::ExpectedTarget, "expected TARGET"),
        (ParseErrorKind::ExpectedScope, "expected WITH_SCOPE"),
        (ParseErrorKind::ActionOutsideStep, "ATTACK or CHECK before the first STEP"),
        (ParseErrorKind::UnexpectedDeclaration, "SCENARIO, TARGET or WITH_SCOPE after the header"),
    ];
    for (kind, words) in cases {
        assert_eq!(kind.describe(), words);
        assert_eq!(ParseError { line: 12, kind }.message(), format!("line 12: {}", words));
    }
}

#[test]
fn parse_error_report_has_the_fixed_fields() {
    let report = parse_error_report(&ParseError { line: 307, kind: ParseErrorKind::EmptyCheck });
    assert_eq!(report.status, "error");
    assert_eq!(report.error_type, "PARSING_ERROR");
    assert_eq!(report.message, "Syntax error in .ratel file: line 307: CHECK without an expression");
}

#[test]
fn ledger_error_messages() {
    assert_eq!(
        LedgerError::AlreadyInitialized.message(),
        "ratel.yaml exists already. Certify to replace its baseline."
    );
    assert_eq!(LedgerError::ConfigMissing.message(), "No ratel.yaml found. Run init first.");
    assert_eq!(LedgerError::ConfigCorrupt.message(), "ratel.yaml cannot be read as a ledger.");
    assert_eq!(LedgerError::FileMissing("a/b.ratel".to_string()).message(), "File missing: 'a/b.ratel'");
    assert_eq!(
        LedgerError::IntegrityViolation("security.ratel".to_string()).message(),
        "ALERT: 'security.ratel' modified! Audit aborted."
    );
}

#[test]
fn decimal_numerals() {
    for n in [0usize, 1, 9, 10, 11, 99, 100, 101, 1234567890, usize::MAX] {
        let mut out = String::from("n=");
        push_decimal(&mut out, n);
        assert_eq!(out, format!("n={}", n));
    }
}

#[test]
fn chars_and_strings() {
    let chars = chars_of("a\u{e9}\u{1F9A1}z");
    assert_eq!(chars, vec!['a', '\u{e9}', '\u{1F9A1}', 'z']);
    assert!(chars_of("").is_empty());
}
