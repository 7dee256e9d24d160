//! What comes before an audit: nothing is asked of the engine unless the
//! tracked files verify and the scenario parses.

use vstd::prelude::*;
use crate::audit::{Audit, AuditView};
use crate::ledger::{
    check_integrity, check_spec, LedgerError, LedgerErrorView, LedgerState, LedgerStateView,
};
use crate::parser::{parse_spec, ParseError, ParseFailure, RatelParser};
use crate::pathmap::PathMap;

verus! {

/// Why an audit did not start.
#[derive(Debug, PartialEq, Eq)]
pub enum AuditError {
    /// The integrity check failed, or the scenario file cannot be read.
    Ledger(LedgerError),
    /// The scenario file is not a scenario.
    Parse(ParseError),
}

/// What an [`AuditError`] stands for.
pub enum AuditErrorView {
    Ledger(LedgerErrorView),
    Parse(ParseFailure),
}

impl View for AuditError {
    type V = AuditErrorView;

    open spec fn view(&self) -> AuditErrorView {
        match *self {
            AuditError::Ledger(e) => AuditErrorView::Ledger(e@),
            AuditError::Parse(e) => AuditErrorView::Parse(e@),
        }
    }
}

/// How an audit starts: the integrity check comes first and is final, then
/// the scenario file must be readable, then it must parse. Only then is
/// there an audit, with every action still to perform.
pub open spec fn start_spec(
    state: LedgerStateView,
    files: Seq<(Seq<char>, Seq<u8>)>,
    path: Seq<char>,
    text: Option<Seq<char>>,
) -> Result<AuditView, AuditErrorView> {
    match check_spec(state, files) {
        Err(e) => Err(AuditErrorView::Ledger(e)),
        Ok(()) => match text {
            None => Err(AuditErrorView::Ledger(LedgerErrorView::FileMissing(path))),
            Some(text) => match parse_spec(text) {
                Err(e) => Err(AuditErrorView::Parse(e)),
                Ok(scenario) => Ok(AuditView::start(scenario)),
            },
        },
    }
}

/// The view of what starting an audit gave.
pub open spec fn start_outcome(r: Result<Audit, AuditError>) -> Result<AuditView, AuditErrorView> {
    match r {
        Ok(audit) => Ok(audit@),
        Err(e) => Err(e@),
    }
}

/// The view of an optional text.
pub open spec fn text_view(text: Option<&str>) -> Option<Seq<char>> {
    match text {
        Some(text) => Some(text@),
        None => None,
    }
}

/// Starts the audit of the scenario at `path`, whose content is `text`
/// (`None` if the file cannot be read). The tracked files are verified
/// first; any failure there, an unreadable scenario file or a syntax error
/// ends the run before a single engine call exists.
pub fn start_full_audit(
    state: &LedgerState,
    files: &PathMap<Vec<u8>>,
    path: &str,
    text: Option<&str>,
) -> (r: Result<Audit, AuditError>)
    ensures
        start_outcome(r) == start_spec(state@, files@, path@, text_view(text)),
        r is Ok ==> r->Ok_0@.wf(),
{
    match check_integrity(state, files) {
        Err(e) => Err(AuditError::Ledger(e)),
        Ok(()) => match text {
            None => Err(AuditError::Ledger(LedgerError::FileMissing(path.to_owned()))),
            Some(text) => match RatelParser::parse(text) {
                Err(e) => Err(AuditError::Parse(e)),
                Ok(scenario) => Ok(Audit::new(scenario)),
            },
        },
    }
}

/// A failed integrity check is final: whatever the scenario file holds, the
/// run ends with the error of the check and no audit exists.
pub proof fn failed_check_starts_nothing(
    state: LedgerStateView,
    files: Seq<(Seq<char>, Seq<u8>)>,
    path: Seq<char>,
    text: Option<Seq<char>>,
)
    requires
        check_spec(state, files) is Err,
    ensures
        start_spec(state, files, path, text) == Err::<AuditView, AuditErrorView>(
            AuditErrorView::Ledger(check_spec(state, files)->Err_0),
        ),
{
}

/// A run starts exactly when the tracked files verify, the scenario file is
/// readable and it parses; the audit then begins at the first action of the
/// parsed scenario.
pub proof fn run_starts_iff_verified_and_parsed(
    state: LedgerStateView,
    files: Seq<(Seq<char>, Seq<u8>)>,
    path: Seq<char>,
    text: Option<Seq<char>>,
)
    ensures
        start_spec(state, files, path, text) is Ok <==> check_spec(state, files) is Ok && text is Some
            && parse_spec(text->0) is Ok,
        start_spec(state, files, path, text) is Ok ==> start_spec(state, files, path, text)->Ok_0
            == AuditView::start(parse_spec(text->0)->Ok_0),
{
}

} // verus!
