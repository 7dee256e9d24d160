use ratel::audit::{
    call_of, result_of, ActionKind, ActionResult, Audit, AuditReport, EngineCall, EngineOutcome,
    Status, UNEXPLAINED_FAILURE,
};
use ratel::time::Timestamp;
use ratel::parser::RatelParser;
use ratel::scenario::{Action, Scenario, Step};

const SAMPLE: &str = "SCENARIO \"Access audit\"\nTARGET \"http://localhost:8080\"\nWITH_SCOPE KERNEL\nSTEP \"Secure transport verification\"\n    ATTACK secure_headers\n    CHECK header \"Strict-Transport-Security\" EXISTS\n    CHECK response.status BE 200\n";

const AT: Timestamp = Timestamp { secs: 1_700_000_000, nanos: 42 };

fn verdict(success: bool, message: &str) -> EngineOutcome {
    EngineOutcome::Verdict { success, message: message.to_string() }
}

fn drive(scenario: Scenario, mut engine: impl FnMut(&EngineCall) -> EngineOutcome) -> (AuditReport, Vec<EngineCall>) {
    let mut audit = Audit::new(scenario);
    let mut calls = Vec::new();
    while let Some(call) = audit.next_call() {
        let outcome = engine(&call);
        calls.push(call);
        audit = audit.record(outcome);
    }
    assert!(audit.is_complete());
    (audit.into_report(AT).unwrap(), calls)
}

fn two_step_scenario() -> Scenario {
    Scenario {
        name: "n".to_string(),
        target: "t".to_string(),
        scope: "S".to_string(),
        steps: vec![
            Step { title: "empty first".to_string(), actions: vec![] },
            Step {
                title: "one".to_string(),
                actions: vec![
                    Action::Attack { name: "a1".to_string() },
                    Action::Check { expression: "c1".to_string() },
                ],
            },
            Step { title: "empty middle".to_string(), actions: vec![] },
            Step { title: "two".to_string(), actions: vec![Action::Check { expression: "c2".to_string() }] },
            Step { title: "empty last".to_string(), actions: vec![] },
        ],
    }
}

#[test]
fn all_success_engine_gives_three_successes_in_order() {
    let scenario = RatelParser::parse(SAMPLE).unwrap();
    let (report, calls) = drive(scenario, |_| verdict(true, "ok"));
    assert_eq!(report.name, "Access audit");
    assert_eq!(report.target, "http://localhost:8080");
    assert_eq!(report.scope, "KERNEL");
    assert_eq!(report.executed_at, AT);
    assert_eq!(report.steps.len(), 1);
    assert_eq!(report.steps[0].title, "Secure transport verification");
    let results = &report.steps[0].results;
    assert_eq!(results.len(), 3);
    assert!(results.iter().all(|r| r.status == Status::Success));
    assert_eq!(
        results.iter().map(|r| (r.kind, r.value.as_str())).collect::<Vec<_>>(),
        vec![
            (ActionKind::Attack, "secure_headers"),
            (ActionKind::Check, "header \"Strict-Transport-Security\" EXISTS"),
            (ActionKind::Check, "response.status BE 200"),
        ]
    );
    assert_eq!(
        calls,
        vec![
            EngineCall::Attack { kind: "attack".to_string(), payload: "secure_headers".to_string() },
            EngineCall::Verify { expression: "header \"Strict-Transport-Security\" EXISTS".to_string() },
            EngineCall::Verify { expression: "response.status BE 200".to_string() },
        ]
    );
}

#[test]
fn messages_and_verdicts_are_carried_through() {
    let scenario = RatelParser::parse(SAMPLE).unwrap();
    let mut n = 0;
    let (report, _) = drive(scenario, |_| {
        n += 1;
        match n {
            1 => verdict(false, "header absent"),
            2 => EngineOutcome::Failure { description: "engine unreachable".to_string() },
            _ => verdict(true, "status is 200"),
        }
    });
    assert_eq!(
        report.steps[0].results,
        vec![
            ActionResult {
                kind: ActionKind::Attack,
                value: "secure_headers".to_string(),
                status: Status::Failed,
                message: "header absent".to_string(),
            },
            ActionResult {
                kind: ActionKind::Check,
                value: "header \"Strict-Transport-Security\" EXISTS".to_string(),
                status: Status::Error,
                message: "engine unreachable".to_string(),
            },
            ActionResult {
                kind: ActionKind::Check,
                value: "response.status BE 200".to_string(),
                status: Status::Success,
                message: "status is 200".to_string(),
            },
        ]
    );
}

#[test]
fn no_outcome_stops_the_audit() {
    let (report, calls) = drive(two_step_scenario(), |_| EngineOutcome::Failure { description: "down".to_string() });
    assert_eq!(calls.len(), 3);
    let counts: Vec<usize> = report.steps.iter().map(|s| s.results.len()).collect();
    assert_eq!(counts, vec![0, 2, 0, 1, 0]);
    assert!(report.steps.iter().flat_map(|s| s.results.iter()).all(|r| r.status == Status::Error));
}

#[test]
fn steps_without_actions_appear_in_the_report() {
    let (report, calls) = drive(two_step_scenario(), |_| verdict(true, ""));
    let titles: Vec<&str> = report.steps.iter().map(|s| s.title.as_str()).collect();
    assert_eq!(titles, vec!["empty first", "one", "empty middle", "two", "empty last"]);
    assert_eq!(
        calls,
        vec![
            EngineCall::Attack { kind: "attack".to_string(), payload: "a1".to_string() },
            EngineCall::Verify { expression: "c1".to_string() },
            EngineCall::Verify { expression: "c2".to_string() },
        ]
    );
    assert_eq!(report.steps[1].results[1].value, "c1");
    assert_eq!(report.steps[3].results[0].value, "c2");
}

#[test]
fn scenario_without_steps_is_complete_at_once() {
    let scenario = Scenario { name: "n".to_string(), target: "t".to_string(), scope: "S".to_string(), steps: vec![] };
    let audit = Audit::new(scenario);
    assert!(audit.is_complete());
    assert_eq!(audit.next_call(), None);
    let report = audit.into_report(AT).unwrap();
    assert!(report.steps.is_empty());
    assert_eq!(report.name, "n");
}

#[test]
fn no_report_while_actions_remain() {
    let audit = Audit::new(two_step_scenario());
    assert!(!audit.is_complete());
    assert!(audit.into_report(AT).is_none());
    let audit = Audit::new(two_step_scenario()).record(verdict(true, "")).record(verdict(true, ""));
    assert!(!audit.is_complete());
    assert!(audit.into_report(AT).is_none());
}

#[test]
fn asking_twice_gives_the_same_call() {
    let audit = Audit::new(two_step_scenario());
    let first = audit.next_call();
    assert_eq!(first, audit.next_call());
    assert_eq!(first, Some(EngineCall::Attack { kind: "attack".to_string(), payload: "a1".to_string() }));
}

#[test]
fn outcomes_after_the_end_are_dropped() {
    let mut audit = Audit::new(two_step_scenario());
    for _ in 0..3 {
        audit = audit.record(verdict(true, "kept"));
    }
    assert!(audit.is_complete());
    let audit = audit.record(verdict(false, "late"));
    assert!(audit.is_complete());
    assert_eq!(audit.next_call(), None);
    let report = audit.into_report(AT).unwrap();
    let all: Vec<&ActionResult> = report.steps.iter().flat_map(|s| s.results.iter()).collect();
    assert_eq!(all.len(), 3);
    assert!(all.iter().all(|r| r.message == "kept" && r.status == Status::Success));
}

#[test]
fn report_carries_the_time_it_is_given() {
    let scenario = Scenario { name: "n".to_string(), target: "t".to_string(), scope: "S".to_string(), steps: vec![] };
    let at = Timestamp { secs: -86_400, nanos: 999_999_999 };
    let report = Audit::new(scenario).into_report(at).unwrap();
    assert_eq!(report.executed_at, at);
    assert_eq!(report.executed_at.secs, -86_400);
    assert_eq!(report.executed_at.nanos, 999_999_999);
}

#[test]
fn a_failure_without_description_gets_a_fixed_message() {
    let check = Action::Check { expression: "x BE 1".to_string() };
    let result = result_of(&check, EngineOutcome::Failure { description: String::new() });
    assert_eq!(result.status, Status::Error);
    assert_eq!(result.message, "the engine call failed without a description");
    assert_eq!(result.message, UNEXPLAINED_FAILURE);
    assert_eq!(result.value, "x BE 1");
}

#[test]
fn an_empty_verdict_message_stays_empty() {
    let attack = Action::Attack { name: "probe".to_string() };
    assert_eq!(result_of(&attack, verdict(true, "")).message, "");
    assert_eq!(result_of(&attack, verdict(false, "")).message, "");
}

#[test]
fn a_failing_call_in_the_middle_does_not_stop_the_audit() {
    let mut n = 0;
    let (report, calls) = drive(two_step_scenario(), |_| {
        n += 1;
        if n == 2 {
            EngineOutcome::Failure { description: String::new() }
        } else {
            verdict(true, "ok")
        }
    });
    assert_eq!(calls.len(), 3);
    let all: Vec<&ActionResult> = report.steps.iter().flat_map(|s| s.results.iter()).collect();
    assert_eq!(all.len(), 3);
    assert_eq!(
        all.iter().map(|r| r.status).collect::<Vec<_>>(),
        vec![Status::Success, Status::Error, Status::Success]
    );
    assert_eq!(all[1].value, "c1");
    assert!(!all[1].message.is_empty());
    assert_eq!(all[2].value, "c2");
}

#[test]
fn result_of_maps_each_outcome() {
    let attack = Action::Attack { name: "probe".to_string() };
    let check = Action::Check { expression: "x BE 1".to_string() };
    assert_eq!(
        result_of(&attack, verdict(true, "m")),
        ActionResult { kind: ActionKind::Attack, value: "probe".to_string(), status: Status::Success, message: "m".to_string() }
    );
    assert_eq!(
        result_of(&check, verdict(false, "no")),
        ActionResult { kind: ActionKind::Check, value: "x BE 1".to_string(), status: Status::Failed, message: "no".to_string() }
    );
    assert_eq!(
        result_of(&check, EngineOutcome::Failure { description: "timeout".to_string() }),
        ActionResult { kind: ActionKind::Check, value: "x BE 1".to_string(), status: Status::Error, message: "timeout".to_string() }
    );
}

#[test]
fn call_of_maps_each_action() {
    assert_eq!(
        call_of(&Action::Attack { name: "probe".to_string() }),
        EngineCall::Attack { kind: "attack".to_string(), payload: "probe".to_string() }
    );
    assert_eq!(
        call_of(&Action::Check { expression: "x BE 1".to_string() }),
        EngineCall::Verify { expression: "x BE 1".to_string() }
    );
}
