use ratel::audit::{ActionKind, EngineCall, EngineOutcome, Status};
use ratel::time::Timestamp;
use ratel::digest::calculate_hash;
use ratel::ledger::{save_ratel_config, LedgerError, LedgerState, ProjectType};
use ratel::parser::{ParseError, ParseErrorKind};
use ratel::pathmap::PathMap;
use ratel::report::{parse_error_report, ErrorReport};
use ratel::run::{start_full_audit, AuditError};

const T0: Timestamp = Timestamp { secs: 1_700_000_000, nanos: 0 };
const GOOD: &str = "SCENARIO \"s\"\nTARGET \"t\"\nWITH_SCOPE K\nSTEP \"a\"\nATTACK p\nCHECK c\n";
const BAD: &str = "SCENARIO \"s\nTARGET \"t\"\nWITH_SCOPE K\nSTEP \"a\"\nATTACK p\n";

fn project(content: &[u8], on_disk: &[u8]) -> (LedgerState, PathMap<Vec<u8>>) {
    let mut hashes = PathMap::new();
    hashes.insert("security.ratel".to_string(), calculate_hash(content));
    let mut files = PathMap::new();
    files.insert("security.ratel".to_string(), on_disk.to_vec());
    (LedgerState::Initialized(save_ratel_config(ProjectType::Generic, "c", hashes, T0)), files)
}

struct CountingEngine {
    calls: usize,
}

impl CountingEngine {
    fn answer(&mut self, _call: &EngineCall) -> EngineOutcome {
        self.calls += 1;
        EngineOutcome::Verdict { success: true, message: "ok".to_string() }
    }
}

fn run(state: &LedgerState, files: &PathMap<Vec<u8>>, text: Option<&str>, engine: &mut CountingEngine) -> Result<usize, AuditError> {
    let mut audit = start_full_audit(state, files, "security.ratel", text)?;
    while let Some(call) = audit.next_call() {
        let outcome = engine.answer(&call);
        audit = audit.record(outcome);
    }
    let report = audit.into_report(T0).unwrap();
    Ok(report.steps.iter().map(|s| s.results.len()).sum())
}

#[test]
fn a_verified_project_runs_its_scenario() {
    let (state, files) = project(GOOD.as_bytes(), GOOD.as_bytes());
    let mut engine = CountingEngine { calls: 0 };
    assert_eq!(run(&state, &files, Some(GOOD), &mut engine), Ok(2));
    assert_eq!(engine.calls, 2);
    let audit = start_full_audit(&state, &files, "security.ratel", Some(GOOD)).unwrap();
    assert_eq!(
        audit.next_call(),
        Some(EngineCall::Attack { kind: "attack".to_string(), payload: "p".to_string() })
    );
    let report = audit
        .record(EngineOutcome::Verdict { success: true, message: "m1".to_string() })
        .record(EngineOutcome::Verdict { success: false, message: "m2".to_string() })
        .into_report(T0)
        .unwrap();
    assert_eq!(report.steps[0].results[0].kind, ActionKind::Attack);
    assert_eq!(report.steps[0].results[1].kind, ActionKind::Check);
    assert_eq!(report.steps[0].results[1].status, Status::Failed);
}

#[test]
fn a_syntax_error_reaches_no_engine() {
    let (state, files) = project(BAD.as_bytes(), BAD.as_bytes());
    let mut engine = CountingEngine { calls: 0 };
    let err = run(&state, &files, Some(BAD), &mut engine).unwrap_err();
    assert_eq!(engine.calls, 0);
    let parse_error = ParseError { line: 1, kind: ParseErrorKind::UnterminatedString };
    assert_eq!(err, AuditError::Parse(parse_error));
    assert_eq!(
        parse_error_report(&parse_error),
        ErrorReport {
            status: "error".to_string(),
            error_type: "PARSING_ERROR".to_string(),
            message: "Syntax error in .ratel file: line 1: unterminated quoted string".to_string(),
        }
    );
}

#[test]
fn a_modified_file_reaches_neither_parser_nor_engine() {
    let mut on_disk = GOOD.as_bytes().to_vec();
    on_disk[10] ^= 1;
    let (state, files) = project(GOOD.as_bytes(), &on_disk);
    let mut engine = CountingEngine { calls: 0 };
    // The text handed in does not even parse: the integrity error comes first.
    assert_eq!(
        run(&state, &files, Some(BAD), &mut engine),
        Err(AuditError::Ledger(LedgerError::IntegrityViolation("security.ratel".to_string())))
    );
    assert_eq!(
        run(&state, &files, Some(GOOD), &mut engine),
        Err(AuditError::Ledger(LedgerError::IntegrityViolation("security.ratel".to_string())))
    );
    assert_eq!(engine.calls, 0);
}

#[test]
fn a_project_without_ledger_does_not_run() {
    let (_, files) = project(GOOD.as_bytes(), GOOD.as_bytes());
    let mut engine = CountingEngine { calls: 0 };
    assert_eq!(
        run(&LedgerState::Uninitialized, &files, Some(GOOD), &mut engine),
        Err(AuditError::Ledger(LedgerError::ConfigMissing))
    );
    assert_eq!(
        run(&LedgerState::Corrupt, &files, Some(GOOD), &mut engine),
        Err(AuditError::Ledger(LedgerError::ConfigCorrupt))
    );
    assert_eq!(engine.calls, 0);
}

#[test]
fn an_unreadable_scenario_does_not_run() {
    let (state, files) = project(GOOD.as_bytes(), GOOD.as_bytes());
    let mut engine = CountingEngine { calls: 0 };
    assert_eq!(
        run(&state, &files, None, &mut engine),
        Err(AuditError::Ledger(LedgerError::FileMissing("security.ratel".to_string())))
    );
    assert_eq!(engine.calls, 0);
}
