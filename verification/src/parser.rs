//! The scenario language.
//!
//! A scenario is written one statement per line. Blank lines are skipped and
//! blanks around a statement are ignored:
//!
//! ```text
//! file      := scenario target scope step*
//! scenario  := "SCENARIO" quoted
//! target    := "TARGET" quoted
//! scope     := "WITH_SCOPE" identifier
//! step      := "STEP" quoted (attack | check)*
//! attack    := "ATTACK" identifier
//! check     := "CHECK" text-to-end-of-line
//! ```
//!
//! Parsing is a function of the text alone. It either yields the whole
//! syntax tree or the first offending line; nothing is applied in part.

use vstd::prelude::*;
use crate::lexis::{
    check_identifier, is_identifier, scan, scan_back, span, span_bounds, span_push_member, spells,
    trim,
    CharClass,
};
use crate::scenario::{
    actions_view, steps_view, Action, ActionView, Scenario, ScenarioView, Step, StepView,
};
use crate::text::{chars_of, string_of};

verus! {

/// Why a text is not a scenario.
#[derive(Clone, Copy, Debug, PartialEq, Eq, Structural)]
pub enum ParseErrorKind {
    /// The line begins with a word that is no keyword.
    UnknownKeyword,
    /// A quoted string was expected and the argument does not begin with a
    /// double quote.
    ExpectedQuotedString,
    /// A quoted string is opened and never closed on its line.
    UnterminatedString,
    /// Something follows the closing quote.
    TrailingCharacters,
    /// `WITH_SCOPE` or `ATTACK` is not followed by exactly one identifier.
    InvalidIdentifier,
    /// `CHECK` is followed by nothing.
    EmptyCheck,
    /// The first statement is not `SCENARIO`, or there is no statement.
    ExpectedScenario,
    /// `SCENARIO` is not followed by `TARGET`.
    ExpectedTarget,
    /// `TARGET` is not followed by `WITH_SCOPE`.
    ExpectedScope,
    /// `ATTACK` or `CHECK` stands before the first `STEP`.
    ActionOutsideStep,
    /// `SCENARIO`, `TARGET` or `WITH_SCOPE` stands after the header.
    UnexpectedDeclaration,
}

/// A syntax error and the line it was found on, counted from one. An error
/// found at the end of the input carries the number of the last line.
#[derive(Clone, Copy, Debug, PartialEq, Eq, Structural)]
pub struct ParseError {
    pub line: usize,
    pub kind: ParseErrorKind,
}

/// What a [`ParseError`] stands for.
pub struct ParseFailure {
    pub line: nat,
    pub kind: ParseErrorKind,
}

impl View for ParseError {
    type V = ParseFailure;

    open spec fn view(&self) -> ParseFailure {
        ParseFailure { line: self.line as nat, kind: self.kind }
    }
}

/// One statement of the language.
pub(crate) enum Statement {
    Scenario(String),
    Target(String),
    Scope(String),
    Step(String),
    Attack(String),
    Check(String),
}

/// What a [`Statement`] stands for.
pub enum StatementView {
    Scenario(Seq<char>),
    Target(Seq<char>),
    Scope(Seq<char>),
    Step(Seq<char>),
    Attack(Seq<char>),
    Check(Seq<char>),
}

impl View for Statement {
    type V = StatementView;

    closed spec fn view(&self) -> StatementView {
        match *self {
            Statement::Scenario(s) => StatementView::Scenario(s@),
            Statement::Target(s) => StatementView::Target(s@),
            Statement::Scope(s) => StatementView::Scope(s@),
            Statement::Step(s) => StatementView::Step(s@),
            Statement::Attack(s) => StatementView::Attack(s@),
            Statement::Check(s) => StatementView::Check(s@),
        }
    }
}

/// The content of a quoted string: `arg` must be a double quote, any
/// characters but a double quote, and a closing double quote.
pub open spec fn quoted(arg: Seq<char>) -> Result<Seq<char>, ParseErrorKind> {
    if arg.len() == 0 || arg[0] != '"' {
        Err(ParseErrorKind::ExpectedQuotedString)
    } else {
        let body = arg.skip(1);
        let close = span(body, CharClass::Quote);
        if close >= body.len() {
            Err(ParseErrorKind::UnterminatedString)
        } else if close + 1 < body.len() {
            Err(ParseErrorKind::TrailingCharacters)
        } else {
            Ok(body.take(close as int))
        }
    }
}

/// The first word of a trimmed line.
pub open spec fn keyword_of(t: Seq<char>) -> Seq<char> {
    t.take(span(t, CharClass::Blank) as int)
}

/// What follows the first word of a trimmed line, without the blanks between.
pub open spec fn argument_of(t: Seq<char>) -> Seq<char> {
    let rest = t.skip(span(t, CharClass::Blank) as int);
    rest.skip(span(rest, CharClass::Visible) as int)
}

/// The statement a line holds: `Ok(None)` for a blank line, the error for a
/// line that is no statement.
pub open spec fn statement_of(line: Seq<char>) -> Result<Option<StatementView>, ParseErrorKind> {
    let t = trim(line);
    let keyword = keyword_of(t);
    let arg = argument_of(t);
    if t.len() == 0 {
        Ok(None)
    } else if keyword == "SCENARIO"@ {
        match quoted(arg) {
            Ok(s) => Ok(Some(StatementView::Scenario(s))),
            Err(kind) => Err(kind),
        }
    } else if keyword == "TARGET"@ {
        match quoted(arg) {
            Ok(s) => Ok(Some(StatementView::Target(s))),
            Err(kind) => Err(kind),
        }
    } else if keyword == "WITH_SCOPE"@ {
        if is_identifier(arg) {
            Ok(Some(StatementView::Scope(arg)))
        } else {
            Err(ParseErrorKind::InvalidIdentifier)
        }
    } else if keyword == "STEP"@ {
        match quoted(arg) {
            Ok(s) => Ok(Some(StatementView::Step(s))),
            Err(kind) => Err(kind),
        }
    } else if keyword == "ATTACK"@ {
        if is_identifier(arg) {
            Ok(Some(StatementView::Attack(arg)))
        } else {
            Err(ParseErrorKind::InvalidIdentifier)
        }
    } else if keyword == "CHECK"@ {
        if arg.len() > 0 {
            Ok(Some(StatementView::Check(arg)))
        } else {
            Err(ParseErrorKind::EmptyCheck)
        }
    } else {
        Err(ParseErrorKind::UnknownKeyword)
    }
}

/// The lines of a text: the runs between line feeds. A text without a line
/// feed is one line; a text that ends in a line feed ends in an empty line.
pub open spec fn lines_of(s: Seq<char>) -> Seq<Seq<char>>
    decreases s.len(),
{
    let n = span(s, CharClass::LineFeed);
    if n >= s.len() {
        seq![s]
    } else {
        seq![s.take(n as int)] + lines_of(s.skip(n as int + 1))
    }
}

/// What has been read of a scenario so far.
pub struct Draft {
    pub name: Option<Seq<char>>,
    pub target: Option<Seq<char>>,
    pub scope: Option<Seq<char>>,
    pub steps: Seq<StepView>,
}

impl Draft {
    /// Nothing read yet.
    pub open spec fn empty() -> Draft {
        Draft { name: None, target: None, scope: None, steps: Seq::empty() }
    }

    /// The draft with one more step, which has no action yet.
    pub open spec fn open_step(self, title: Seq<char>) -> Draft {
        Draft {
            name: self.name,
            target: self.target,
            scope: self.scope,
            steps: self.steps.push(StepView { title, actions: Seq::empty() }),
        }
    }

    /// The draft with one more action at the end of its last step.
    pub open spec fn add_action(self, action: ActionView) -> Draft
        recommends
            self.steps.len() > 0,
    {
        let last = self.steps.last();
        Draft {
            name: self.name,
            target: self.target,
            scope: self.scope,
            steps: self.steps.drop_last().push(
                StepView { title: last.title, actions: last.actions.push(action) },
            ),
        }
    }

    /// The draft after one more statement: the header comes first and in
    /// order, then steps, each followed by its actions.
    pub open spec fn accept(self, st: StatementView) -> Result<Draft, ParseErrorKind> {
        if self.name is None {
            match st {
                StatementView::Scenario(name) => Ok(
                    Draft {
                        name: Some(name),
                        target: self.target,
                        scope: self.scope,
                        steps: self.steps,
                    },
                ),
                _ => Err(ParseErrorKind::ExpectedScenario),
            }
        } else if self.target is None {
            match st {
                StatementView::Target(url) => Ok(
                    Draft {
                        name: self.name,
                        target: Some(url),
                        scope: self.scope,
                        steps: self.steps,
                    },
                ),
                _ => Err(ParseErrorKind::ExpectedTarget),
            }
        } else if self.scope is None {
            match st {
                StatementView::Scope(value) => Ok(
                    Draft {
                        name: self.name,
                        target: self.target,
                        scope: Some(value),
                        steps: self.steps,
                    },
                ),
                _ => Err(ParseErrorKind::ExpectedScope),
            }
        } else {
            match st {
                StatementView::Step(title) => Ok(self.open_step(title)),
                StatementView::Attack(name) => if self.steps.len() == 0 {
                    Err(ParseErrorKind::ActionOutsideStep)
                } else {
                    Ok(self.add_action(ActionView::Attack { name }))
                },
                StatementView::Check(expression) => if self.steps.len() == 0 {
                    Err(ParseErrorKind::ActionOutsideStep)
                } else {
                    Ok(self.add_action(ActionView::Check { expression }))
                },
                _ => Err(ParseErrorKind::UnexpectedDeclaration),
            }
        }
    }

    /// The scenario a draft amounts to once the input has ended.
    pub open spec fn finish(self) -> Result<ScenarioView, ParseErrorKind> {
        if self.name is None {
            Err(ParseErrorKind::ExpectedScenario)
        } else if self.target is None {
            Err(ParseErrorKind::ExpectedTarget)
        } else if self.scope is None {
            Err(ParseErrorKind::ExpectedScope)
        } else {
            Ok(
                ScenarioView {
                    name: self.name->0,
                    target: self.target->0,
                    scope: self.scope->0,
                    steps: self.steps,
                },
            )
        }
    }
}

/// Reads the lines from the `k`-th on into `draft`. The first line that is no
/// statement, or that the draft does not accept, ends the reading with its
/// number.
pub open spec fn parse_lines(lines: Seq<Seq<char>>, k: nat, draft: Draft) -> Result<
    ScenarioView,
    ParseFailure,
>
    decreases lines.len() - k,
{
    if k >= lines.len() {
        match draft.finish() {
            Ok(scenario) => Ok(scenario),
            Err(kind) => Err(ParseFailure { line: lines.len(), kind }),
        }
    } else {
        match statement_of(lines[k as int]) {
            Err(kind) => Err(ParseFailure { line: k + 1, kind }),
            Ok(None) => parse_lines(lines, k + 1, draft),
            Ok(Some(st)) => match draft.accept(st) {
                Err(kind) => Err(ParseFailure { line: k + 1, kind }),
                Ok(next) => parse_lines(lines, k + 1, next),
            },
        }
    }
}

/// The scenario that `text` denotes, or the first error in it.
pub open spec fn parse_spec(text: Seq<char>) -> Result<ScenarioView, ParseFailure> {
    parse_lines(lines_of(text), 0, Draft::empty())
}

/// The view of what reading one line gave.
spec fn statement_outcome(r: Result<Option<Statement>, ParseErrorKind>) -> Result<
    Option<StatementView>,
    ParseErrorKind,
> {
    match r {
        Ok(Some(st)) => Ok(Some(st@)),
        Ok(None) => Ok(None),
        Err(kind) => Err(kind),
    }
}

/// The view of what parsing gave.
pub open spec fn parse_outcome(r: Result<Scenario, ParseError>) -> Result<
    ScenarioView,
    ParseFailure,
> {
    match r {
        Ok(scenario) => Ok(scenario@),
        Err(e) => Err(e@),
    }
}

fn read_quoted(buf: &[char], from: usize, to: usize) -> (r: Result<String, ParseErrorKind>)
    requires
        from <= to <= buf@.len(),
    ensures
        match r {
            Ok(s) => quoted(buf@.subrange(from as int, to as int)) == Ok::<
                Seq<char>,
                ParseErrorKind,
            >(s@),
            Err(kind) => quoted(buf@.subrange(from as int, to as int)) == Err::<
                Seq<char>,
                ParseErrorKind,
            >(kind),
        },
{
    let ghost arg = buf@.subrange(from as int, to as int);
    if from == to {
        return Err(ParseErrorKind::ExpectedQuotedString);
    }
    assert(arg[0] == buf@[from as int]);
    if buf[from] != '"' {
        return Err(ParseErrorKind::ExpectedQuotedString);
    }
    let close = scan(buf, from + 1, to, CharClass::Quote);
    assert(arg.skip(1) =~= buf@.subrange(from + 1, to as int));
    if close >= to {
        Err(ParseErrorKind::UnterminatedString)
    } else if close + 1 < to {
        Err(ParseErrorKind::TrailingCharacters)
    } else {
        let s = string_of(buf, from + 1, close);
        assert(arg.skip(1).take(close - (from + 1)) =~= buf@.subrange(from + 1, close as int));
        Ok(s)
    }
}

fn read_statement(buf: &[char], from: usize, to: usize) -> (r: Result<
    Option<Statement>,
    ParseErrorKind,
>)
    requires
        from <= to <= buf@.len(),
    ensures
        statement_outcome(r) == statement_of(buf@.subrange(from as int, to as int)),
{
    let ghost line = buf@.subrange(from as int, to as int);
    let a = scan(buf, from, to, CharClass::Visible);
    assert(line.skip(a - from) =~= buf@.subrange(a as int, to as int));
    let b = scan_back(buf, a, to);
    let ghost t = buf@.subrange(a as int, b as int);
    assert(trim(line) =~= t);
    if a == b {
        return Ok(None);
    }
    let w = scan(buf, a, b, CharClass::Blank);
    let g = scan(buf, w, b, CharClass::Visible);
    assert(keyword_of(t) =~= buf@.subrange(a as int, w as int));
    assert(t.skip(w - a) =~= buf@.subrange(w as int, b as int));
    assert(argument_of(t) =~= buf@.subrange(g as int, b as int));
    if spells(buf, a, w, "SCENARIO") {
        match read_quoted(buf, g, b) {
            Ok(s) => Ok(Some(Statement::Scenario(s))),
            Err(kind) => Err(kind),
        }
    } else if spells(buf, a, w, "TARGET") {
        match read_quoted(buf, g, b) {
            Ok(s) => Ok(Some(Statement::Target(s))),
            Err(kind) => Err(kind),
        }
    } else if spells(buf, a, w, "WITH_SCOPE") {
        if check_identifier(buf, g, b) {
            Ok(Some(Statement::Scope(string_of(buf, g, b))))
        } else {
            Err(ParseErrorKind::InvalidIdentifier)
        }
    } else if spells(buf, a, w, "STEP") {
        match read_quoted(buf, g, b) {
            Ok(s) => Ok(Some(Statement::Step(s))),
            Err(kind) => Err(kind),
        }
    } else if spells(buf, a, w, "ATTACK") {
        if check_identifier(buf, g, b) {
            Ok(Some(Statement::Attack(string_of(buf, g, b))))
        } else {
            Err(ParseErrorKind::InvalidIdentifier)
        }
    } else if spells(buf, a, w, "CHECK") {
        if g < b {
            Ok(Some(Statement::Check(string_of(buf, g, b))))
        } else {
            Err(ParseErrorKind::EmptyCheck)
        }
    } else {
        Err(ParseErrorKind::UnknownKeyword)
    }
}

/// The executable counterpart of a [`Draft`].
struct Builder {
    name: Option<String>,
    target: Option<String>,
    scope: Option<String>,
    steps: Vec<Step>,
}

spec fn text_view(s: Option<String>) -> Option<Seq<char>> {
    match s {
        Some(s) => Some(s@),
        None => None,
    }
}

impl View for Builder {
    type V = Draft;

    closed spec fn view(&self) -> Draft {
        Draft {
            name: text_view(self.name),
            target: text_view(self.target),
            scope: text_view(self.scope),
            steps: steps_view(self.steps@),
        }
    }
}

impl Builder {
    fn new() -> (b: Builder)
        ensures
            b@ == Draft::empty(),
    {
        let b = Builder { name: None, target: None, scope: None, steps: Vec::new() };
        assert(steps_view(b.steps@) =~= Seq::empty());
        b
    }

    fn add_action(self, action: Action) -> (b: Builder)
        requires
            self@.steps.len() > 0,
        ensures
            b@ == self@.add_action(action@),
    {
        let Builder { name, target, scope, mut steps } = self;
        let ghost before = steps@;
        let mut last = steps.pop().unwrap();
        let ghost old_actions = last.actions@;
        last.actions.push(action);
        assert(actions_view(last.actions@) =~= actions_view(old_actions).push(action@));
        steps.push(last);
        assert(steps_view(steps@) =~= steps_view(before).drop_last().push(
            StepView {
                title: before.last().title@,
                actions: actions_view(before.last().actions@).push(action@),
            },
        ));
        Builder { name, target, scope, steps }
    }

    fn accept(self, st: Statement) -> (r: Result<Builder, ParseErrorKind>)
        ensures
            match r {
                Ok(b) => self@.accept(st@) == Ok::<Draft, ParseErrorKind>(b@),
                Err(kind) => self@.accept(st@) == Err::<Draft, ParseErrorKind>(kind),
            },
    {
        if self.name.is_none() {
            match st {
                Statement::Scenario(s) => Ok(
                    Builder {
                        name: Some(s),
                        target: self.target,
                        scope: self.scope,
                        steps: self.steps,
                    },
                ),
                _ => Err(ParseErrorKind::ExpectedScenario),
            }
        } else if self.target.is_none() {
            match st {
                Statement::Target(s) => Ok(
                    Builder {
                        name: self.name,
                        target: Some(s),
                        scope: self.scope,
                        steps: self.steps,
                    },
                ),
                _ => Err(ParseErrorKind::ExpectedTarget),
            }
        } else if self.scope.is_none() {
            match st {
                Statement::Scope(s) => Ok(
                    Builder {
                        name: self.name,
                        target: self.target,
                        scope: Some(s),
                        steps: self.steps,
                    },
                ),
                _ => Err(ParseErrorKind::ExpectedScope),
            }
        } else {
            match st {
                Statement::Step(title) => {
                    let Builder { name, target, scope, mut steps } = self;
                    let ghost before = steps@;
                    let step = Step { title, actions: Vec::new() };
                    assert(actions_view(step.actions@) =~= Seq::empty());
                    steps.push(step);
                    assert(steps_view(steps@) =~= steps_view(before).push(step@));
                    Ok(Builder { name, target, scope, steps })
                },
                Statement::Attack(name) => {
                    if self.steps.len() == 0 {
                        Err(ParseErrorKind::ActionOutsideStep)
                    } else {
                        Ok(self.add_action(Action::Attack { name }))
                    }
                },
                Statement::Check(expression) => {
                    if self.steps.len() == 0 {
                        Err(ParseErrorKind::ActionOutsideStep)
                    } else {
                        Ok(self.add_action(Action::Check { expression }))
                    }
                },
                _ => Err(ParseErrorKind::UnexpectedDeclaration),
            }
        }
    }

    fn finish(self) -> (r: Result<Scenario, ParseErrorKind>)
        ensures
            match r {
                Ok(scenario) => self@.finish() == Ok::<ScenarioView, ParseErrorKind>(scenario@),
                Err(kind) => self@.finish() == Err::<ScenarioView, ParseErrorKind>(kind),
            },
    {
        let Builder { name, target, scope, steps } = self;
        match name {
            None => Err(ParseErrorKind::ExpectedScenario),
            Some(name) => match target {
                None => Err(ParseErrorKind::ExpectedTarget),
                Some(target) => match scope {
                    None => Err(ParseErrorKind::ExpectedScope),
                    Some(scope) => Ok(Scenario { name, target, scope, steps }),
                },
            },
        }
    }
}

/// The parser of the scenario language.
pub struct RatelParser;

impl RatelParser {
    /// Parses a scenario. The result is the scenario that the text denotes,
    /// or the first error in it with its line; every text has one or the
    /// other.
    pub fn parse(text: &str) -> (r: Result<Scenario, ParseError>)
        ensures
            parse_outcome(r) == parse_spec(text@),
    {
        let mut buf = chars_of(text);
        // Every line now ends in a line feed, the last one included.
        buf.push('\n');
        let ghost lines = lines_of(text@);
        let total = buf.len();
        let len = total - 1;
        let mut builder = Builder::new();
        let mut pos: usize = 0;
        let mut k: usize = 0;
        assert(lines.skip(0) =~= lines);
        assert(text@.skip(0) =~= text@);
        while pos <= len
            invariant
                buf@ == text@.push('\n'),
                total == buf@.len() == len + 1,
                len == text@.len(),
                lines == lines_of(text@),
                k <= pos <= len + 1,
                k <= lines.len(),
                pos <= len ==> lines.skip(k as int) == lines_of(text@.skip(pos as int)),
                pos == len + 1 ==> k == lines.len(),
                parse_spec(text@) == parse_lines(lines, k as nat, builder@),
            decreases len + 1 - pos,
        {
            let ghost rest = text@.skip(pos as int);
            let end = scan(buf.as_slice(), pos, total, CharClass::LineFeed);
            proof {
                assert(buf@.subrange(pos as int, len + 1) =~= rest.push('\n'));
                span_push_member(rest, '\n', CharClass::LineFeed);
                span_bounds(rest, CharClass::LineFeed);
                assert(buf@.subrange(pos as int, end as int) =~= rest.take(end - pos));
                assert(lines_of(rest)[0] == rest.take(end - pos));
                assert(lines.skip(k as int)[0] == lines[k as int]);
                if end < len {
                    assert(rest.skip(end - pos + 1) =~= text@.skip(end + 1));
                    assert(lines.skip(k + 1) =~= lines.skip(k as int).skip(1));
                    assert(lines_of(rest).skip(1) =~= lines_of(text@.skip(end + 1)));
                } else {
                    assert(lines_of(rest).len() == 1);
                    assert(lines.skip(k as int).len() == lines.len() - k);
                }
            }
            match read_statement(buf.as_slice(), pos, end) {
                Err(kind) => {
                    return Err(ParseError { line: k + 1, kind });
                },
                Ok(None) => {},
                Ok(Some(st)) => match builder.accept(st) {
                    Err(kind) => {
                        return Err(ParseError { line: k + 1, kind });
                    },
                    Ok(next) => {
                        builder = next;
                    },
                },
            }
            pos = end + 1;
            k = k + 1;
        }
        match builder.finish() {
            Ok(scenario) => Ok(scenario),
            Err(kind) => Err(ParseError { line: k, kind }),
        }
    }
}

} // verus!
