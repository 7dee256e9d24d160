use ratel::ledger::generate_default_scenario;
use ratel::parser::{ParseError, ParseErrorKind, RatelParser};
use ratel::scenario::{Action, Scenario, Step};

const SAMPLE: &str = "SCENARIO \"Access audit\"\nTARGET \"http://localhost:8080\"\nWITH_SCOPE KERNEL\nSTEP \"Secure transport verification\"\n    ATTACK secure_headers\n    CHECK header \"Strict-Transport-Security\" EXISTS\n    CHECK response.status BE 200\n";

fn attack(name: &str) -> Action {
    Action::Attack { name: name.to_string() }
}

fn check(expression: &str) -> Action {
    Action::Check { expression: expression.to_string() }
}

fn sample_scenario() -> Scenario {
    Scenario {
        name: "Access audit".to_string(),
        target: "http://localhost:8080".to_string(),
        scope: "KERNEL".to_string(),
        steps: vec![Step {
            title: "Secure transport verification".to_string(),
            actions: vec![
                attack("secure_headers"),
                check("header \"Strict-Transport-Security\" EXISTS"),
                check("response.status BE 200"),
            ],
        }],
    }
}

fn error_of(text: &str) -> ParseError {
    RatelParser::parse(text).unwrap_err()
}

const HEADER: &str = "SCENARIO \"s\"\nTARGET \"t\"\nWITH_SCOPE K\n";

#[test]
fn parses_the_sample_scenario() {
    let scenario = RatelParser::parse(SAMPLE).unwrap();
    assert_eq!(scenario.name, "Access audit");
    assert_eq!(scenario.target, "http://localhost:8080");
    assert_eq!(scenario.scope, "KERNEL");
    assert_eq!(scenario.steps.len(), 1);
    let step = &scenario.steps[0];
    assert_eq!(step.title, "Secure transport verification");
    assert_eq!(
        step.actions,
        vec![
            attack("secure_headers"),
            check("header \"Strict-Transport-Security\" EXISTS"),
            check("response.status BE 200"),
        ]
    );
}

#[test]
fn parsing_twice_gives_the_same_tree() {
    assert_eq!(RatelParser::parse(SAMPLE), RatelParser::parse(SAMPLE));
    assert_eq!(RatelParser::parse(SAMPLE).unwrap(), sample_scenario());
}

#[test]
fn parses_the_default_scenario() {
    let text = generate_default_scenario();
    assert_eq!(RatelParser::parse(&text).unwrap(), sample_scenario());
}

#[test]
fn default_scenario_text_is_fixed() {
    let text = generate_default_scenario();
    assert!(text.starts_with("SCENARIO \"Access audit\"\nTARGET \"http://localhost:8080\"\nWITH_SCOPE KERNEL\n\nSTEP "));
    assert!(text.ends_with("    CHECK response.status BE 200"));
    assert_eq!(text.lines().count(), 8);
}

#[test]
fn blank_lines_and_carriage_returns_are_skipped() {
    let text = "\r\n  SCENARIO \"s\"  \r\n\r\n\tTARGET \"t\"\r\nWITH_SCOPE K\r\n\r\nSTEP \"one\"\r\n  ATTACK a1 \r\n\r\n";
    let scenario = RatelParser::parse(text).unwrap();
    assert_eq!(scenario.name, "s");
    assert_eq!(scenario.target, "t");
    assert_eq!(scenario.scope, "K");
    assert_eq!(scenario.steps, vec![Step { title: "one".to_string(), actions: vec![attack("a1")] }]);
}

#[test]
fn header_alone_is_a_scenario_without_steps() {
    let scenario = RatelParser::parse(HEADER).unwrap();
    assert!(scenario.steps.is_empty());
    let no_newline = RatelParser::parse("SCENARIO \"s\"\nTARGET \"t\"\nWITH_SCOPE K").unwrap();
    assert_eq!(no_newline, scenario);
}

#[test]
fn steps_and_actions_keep_source_order() {
    let text = format!("{}STEP \"a\"\nCHECK x BE 1\nATTACK p\nSTEP \"empty\"\nSTEP \"b\"\nATTACK q\nCHECK y\n", HEADER);
    let scenario = RatelParser::parse(&text).unwrap();
    assert_eq!(
        scenario.steps,
        vec![
            Step { title: "a".to_string(), actions: vec![check("x BE 1"), attack("p")] },
            Step { title: "empty".to_string(), actions: vec![] },
            Step { title: "b".to_string(), actions: vec![attack("q"), check("y")] },
        ]
    );
}

#[test]
fn quoted_strings_lose_only_their_quotes() {
    let text = "SCENARIO \"  spaced  name \"\nTARGET \"\"\nWITH_SCOPE _k9\nSTEP \"caf\u{e9} \u{1F9A1}\"\n";
    let scenario = RatelParser::parse(text).unwrap();
    assert_eq!(scenario.name, "  spaced  name ");
    assert_eq!(scenario.target, "");
    assert_eq!(scenario.scope, "_k9");
    assert_eq!(scenario.steps[0].title, "caf\u{e9} \u{1F9A1}");
}

#[test]
fn check_keeps_its_expression_verbatim() {
    let text = format!("{}STEP \"a\"\nCHECK   body.items[0]  ==  \"a b\"   \n", HEADER);
    let scenario = RatelParser::parse(&text).unwrap();
    assert_eq!(scenario.steps[0].actions, vec![check("body.items[0]  ==  \"a b\"")]);
}

#[test]
fn unterminated_string_is_rejected() {
    let err = error_of("SCENARIO \"Access audit\nTARGET \"x\"\n");
    assert_eq!(err, ParseError { line: 1, kind: ParseErrorKind::UnterminatedString });
    let err = error_of("SCENARIO \"s\"\nTARGET \"x\n");
    assert_eq!(err, ParseError { line: 2, kind: ParseErrorKind::UnterminatedString });
    let err = error_of("SCENARIO \"");
    assert_eq!(err, ParseError { line: 1, kind: ParseErrorKind::UnterminatedString });
}

#[test]
fn missing_quote_is_rejected() {
    assert_eq!(error_of("SCENARIO name\n"), ParseError { line: 1, kind: ParseErrorKind::ExpectedQuotedString });
    assert_eq!(error_of("SCENARIO\n"), ParseError { line: 1, kind: ParseErrorKind::ExpectedQuotedString });
    let text = format!("{}STEP\n", HEADER);
    assert_eq!(error_of(&text), ParseError { line: 4, kind: ParseErrorKind::ExpectedQuotedString });
}

#[test]
fn text_after_the_closing_quote_is_rejected() {
    assert_eq!(error_of("SCENARIO \"a\" b\n"), ParseError { line: 1, kind: ParseErrorKind::TrailingCharacters });
    assert_eq!(error_of("SCENARIO \"a\"\"b\"\n"), ParseError { line: 1, kind: ParseErrorKind::TrailingCharacters });
}

#[test]
fn bad_identifiers_are_rejected() {
    assert_eq!(
        error_of("SCENARIO \"s\"\nTARGET \"t\"\nWITH_SCOPE two words\n"),
        ParseError { line: 3, kind: ParseErrorKind::InvalidIdentifier }
    );
    assert_eq!(
        error_of("SCENARIO \"s\"\nTARGET \"t\"\nWITH_SCOPE\n"),
        ParseError { line: 3, kind: ParseErrorKind::InvalidIdentifier }
    );
    assert_eq!(
        error_of("SCENARIO \"s\"\nTARGET \"t\"\nWITH_SCOPE 9k\n"),
        ParseError { line: 3, kind: ParseErrorKind::InvalidIdentifier }
    );
    let text = format!("{}STEP \"a\"\nATTACK sql-injection\n", HEADER);
    assert_eq!(error_of(&text), ParseError { line: 5, kind: ParseErrorKind::InvalidIdentifier });
}

#[test]
fn empty_check_is_rejected() {
    let text = format!("{}STEP \"a\"\nCHECK   \n", HEADER);
    assert_eq!(error_of(&text), ParseError { line: 5, kind: ParseErrorKind::EmptyCheck });
}

#[test]
fn unknown_keyword_is_rejected() {
    assert_eq!(error_of("scenario \"s\"\n"), ParseError { line: 1, kind: ParseErrorKind::UnknownKeyword });
    assert_eq!(error_of("SCENARIO\"s\"\n"), ParseError { line: 1, kind: ParseErrorKind::UnknownKeyword });
    let text = format!("{}\n\nSTEP \"a\"\nPROBE x\n", HEADER);
    assert_eq!(error_of(&text), ParseError { line: 7, kind: ParseErrorKind::UnknownKeyword });
}

#[test]
fn header_must_come_first_and_in_order() {
    assert_eq!(error_of("TARGET \"t\"\n"), ParseError { line: 1, kind: ParseErrorKind::ExpectedScenario });
    assert_eq!(
        error_of("SCENARIO \"s\"\nWITH_SCOPE K\n"),
        ParseError { line: 2, kind: ParseErrorKind::ExpectedTarget }
    );
    assert_eq!(
        error_of("SCENARIO \"s\"\nTARGET \"t\"\nSTEP \"a\"\n"),
        ParseError { line: 3, kind: ParseErrorKind::ExpectedScope }
    );
}

#[test]
fn incomplete_header_is_reported_at_the_last_line() {
    assert_eq!(error_of(""), ParseError { line: 1, kind: ParseErrorKind::ExpectedScenario });
    assert_eq!(error_of("\n\n"), ParseError { line: 3, kind: ParseErrorKind::ExpectedScenario });
    assert_eq!(error_of("SCENARIO \"s\""), ParseError { line: 1, kind: ParseErrorKind::ExpectedTarget });
    assert_eq!(
        error_of("SCENARIO \"s\"\nTARGET \"t\"\n"),
        ParseError { line: 3, kind: ParseErrorKind::ExpectedScope }
    );
}

#[test]
fn actions_need_a_step() {
    let text = format!("{}ATTACK a\n", HEADER);
    assert_eq!(error_of(&text), ParseError { line: 4, kind: ParseErrorKind::ActionOutsideStep });
    let text = format!("{}CHECK a\n", HEADER);
    assert_eq!(error_of(&text), ParseError { line: 4, kind: ParseErrorKind::ActionOutsideStep });
}

#[test]
fn header_statements_may_not_repeat() {
    let text = format!("{}SCENARIO \"again\"\n", HEADER);
    assert_eq!(error_of(&text), ParseError { line: 4, kind: ParseErrorKind::UnexpectedDeclaration });
    let text = format!("{}STEP \"a\"\nTARGET \"again\"\n", HEADER);
    assert_eq!(error_of(&text), ParseError { line: 5, kind: ParseErrorKind::UnexpectedDeclaration });
    let text = format!("{}STEP \"a\"\nWITH_SCOPE again\n", HEADER);
    assert_eq!(error_of(&text), ParseError { line: 5, kind: ParseErrorKind::UnexpectedDeclaration });
}

#[test]
fn the_first_error_wins() {
    let text = "SCENARIO \"s\"\nTARGET t\nWITH_SCOPE two words\n";
    assert_eq!(error_of(text), ParseError { line: 2, kind: ParseErrorKind::ExpectedQuotedString });
}
