//! The written form of a scenario, and the proof that the parser reads it
//! back: every scenario that can be written at all has a text, and that text
//! denotes the scenario.

use vstd::prelude::*;
use crate::lexis::{
    is_blank, is_identifier, span, span_bounds, span_stops_at, trim, trim_leaves_no_blank_ends,
    trimmed_len, trimmed_len_bounds, CharClass,
};
use crate::parser::{
    argument_of, keyword_of, lines_of, parse_lines, parse_spec, quoted, statement_of, Draft,
    ParseErrorKind, ParseFailure, StatementView,
};
use crate::scenario::{ActionView, ScenarioView, StepView};

verus! {

/// Whether `s` can stand between double quotes: it holds neither a double
/// quote nor a line feed.
pub open spec fn is_plain(s: Seq<char>) -> bool {
    forall|i: int| 0 <= i < s.len() ==> (#[trigger] s[i]) != '"' && s[i] != '\n'
}

/// Whether `s` can follow `CHECK`: it is not empty, stays on one line, and
/// neither begins nor ends with a blank.
pub open spec fn is_expression(s: Seq<char>) -> bool {
    &&& s.len() > 0
    &&& !is_blank(s[0])
    &&& !is_blank(s.last())
    &&& forall|i: int| 0 <= i < s.len() ==> (#[trigger] s[i]) != '\n'
}

impl StatementView {
    /// The keyword a statement begins with.
    pub open spec fn keyword(self) -> Seq<char> {
        match self {
            StatementView::Scenario(_) => "SCENARIO"@,
            StatementView::Target(_) => "TARGET"@,
            StatementView::Scope(_) => "WITH_SCOPE"@,
            StatementView::Step(_) => "STEP"@,
            StatementView::Attack(_) => "ATTACK"@,
            StatementView::Check(_) => "CHECK"@,
        }
    }

    /// What follows the keyword.
    pub open spec fn argument(self) -> Seq<char> {
        match self {
            StatementView::Scenario(s) => seq!['"'] + s + seq!['"'],
            StatementView::Target(s) => seq!['"'] + s + seq!['"'],
            StatementView::Scope(s) => s,
            StatementView::Step(s) => seq!['"'] + s + seq!['"'],
            StatementView::Attack(s) => s,
            StatementView::Check(s) => s,
        }
    }

    /// Whether the statement can be written on a line.
    pub open spec fn expressible(self) -> bool {
        match self {
            StatementView::Scenario(s) => is_plain(s),
            StatementView::Target(s) => is_plain(s),
            StatementView::Scope(s) => is_identifier(s),
            StatementView::Step(s) => is_plain(s),
            StatementView::Attack(s) => is_identifier(s),
            StatementView::Check(s) => is_expression(s),
        }
    }

    /// The line that holds the statement: the keyword, a space, the argument.
    pub open spec fn line(self) -> Seq<char> {
        self.keyword() + seq![' '] + self.argument()
    }
}

/// The statement that an action is written as.
pub open spec fn action_statement(action: ActionView) -> StatementView {
    match action {
        ActionView::Attack { name } => StatementView::Attack(name),
        ActionView::Check { expression } => StatementView::Check(expression),
    }
}

/// The statements that a run of actions is written as.
pub open spec fn action_statements(actions: Seq<ActionView>) -> Seq<StatementView> {
    Seq::new(actions.len(), |i: int| action_statement(actions[i]))
}

/// The statements that a run of steps is written as: for each step its
/// `STEP` statement and then its actions.
pub open spec fn body_statements(steps: Seq<StepView>) -> Seq<StatementView>
    decreases steps.len(),
{
    if steps.len() == 0 {
        Seq::empty()
    } else {
        seq![StatementView::Step(steps[0].title)] + action_statements(steps[0].actions)
            + body_statements(steps.drop_first())
    }
}

/// The statements that a scenario is written as.
pub open spec fn statements(scenario: ScenarioView) -> Seq<StatementView> {
    seq![
        StatementView::Scenario(scenario.name),
        StatementView::Target(scenario.target),
        StatementView::Scope(scenario.scope),
    ] + body_statements(scenario.steps)
}

/// The lines joined by line feeds.
pub open spec fn join_lines(lines: Seq<Seq<char>>) -> Seq<char>
    decreases lines.len(),
{
    if lines.len() == 0 {
        Seq::empty()
    } else if lines.len() == 1 {
        lines[0]
    } else {
        lines[0] + seq!['\n'] + join_lines(lines.drop_first())
    }
}

/// The lines that statements are written as.
pub open spec fn statement_lines(stmts: Seq<StatementView>) -> Seq<Seq<char>> {
    Seq::new(stmts.len(), |i: int| stmts[i].line())
}

/// The text of a scenario: one statement per line, no blank lines, no line
/// feed at the end.
pub open spec fn written(scenario: ScenarioView) -> Seq<char> {
    join_lines(statement_lines(statements(scenario)))
}

/// Whether an action can be written.
pub open spec fn action_expressible(action: ActionView) -> bool {
    match action {
        ActionView::Attack { name } => is_identifier(name),
        ActionView::Check { expression } => is_expression(expression),
    }
}

/// Whether a step can be written.
pub open spec fn step_expressible(step: StepView) -> bool {
    &&& is_plain(step.title)
    &&& forall|j: int| 0 <= j < step.actions.len() ==> action_expressible(#[trigger] step.actions[j])
}

/// Whether a scenario can be written: its name, target and titles can stand
/// in quotes, its scope and attacks are identifiers, and its checks are
/// one-line expressions without blanks around them.
pub open spec fn expressible(scenario: ScenarioView) -> bool {
    &&& is_plain(scenario.name)
    &&& is_plain(scenario.target)
    &&& is_identifier(scenario.scope)
    &&& forall|i: int| 0 <= i < scenario.steps.len() ==> step_expressible(#[trigger] scenario.steps[i])
}

/// Whether each statement of a run can be written.
pub open spec fn all_expressible(stmts: Seq<StatementView>) -> bool {
    forall|i: int| 0 <= i < stmts.len() ==> (#[trigger] stmts[i]).expressible()
}

/// Accepts a run of statements, one after the other.
pub open spec fn accept_all(draft: Draft, stmts: Seq<StatementView>) -> Result<Draft, ParseErrorKind>
    decreases stmts.len(),
{
    if stmts.len() == 0 {
        Ok(draft)
    } else {
        match draft.accept(stmts[0]) {
            Ok(next) => accept_all(next, stmts.drop_first()),
            Err(kind) => Err(kind),
        }
    }
}

proof fn keywords_known()
    ensures
        "SCENARIO"@.len() == 8 && "SCENARIO"@[0] == 'S',
        "TARGET"@.len() == 6 && "TARGET"@[0] == 'T',
        "WITH_SCOPE"@.len() == 10 && "WITH_SCOPE"@[0] == 'W',
        "STEP"@.len() == 4 && "STEP"@[0] == 'S',
        "ATTACK"@.len() == 6 && "ATTACK"@[0] == 'A',
        "CHECK"@.len() == 5 && "CHECK"@[0] == 'C',
        forall|i: int| 0 <= i < 8 ==> !is_blank(#[trigger] "SCENARIO"@[i]) && "SCENARIO"@[i] != '\n',
        forall|i: int| 0 <= i < 6 ==> !is_blank(#[trigger] "TARGET"@[i]) && "TARGET"@[i] != '\n',
        forall|i: int|
            0 <= i < 10 ==> !is_blank(#[trigger] "WITH_SCOPE"@[i]) && "WITH_SCOPE"@[i] != '\n',
        forall|i: int| 0 <= i < 4 ==> !is_blank(#[trigger] "STEP"@[i]) && "STEP"@[i] != '\n',
        forall|i: int| 0 <= i < 6 ==> !is_blank(#[trigger] "ATTACK"@[i]) && "ATTACK"@[i] != '\n',
        forall|i: int| 0 <= i < 5 ==> !is_blank(#[trigger] "CHECK"@[i]) && "CHECK"@[i] != '\n',
{
    reveal_strlit("SCENARIO");
    reveal_strlit("TARGET");
    reveal_strlit("WITH_SCOPE");
    reveal_strlit("STEP");
    reveal_strlit("ATTACK");
    reveal_strlit("CHECK");
    assert forall|i: int| 0 <= i < 8 implies !is_blank(#[trigger] "SCENARIO"@[i]) && "SCENARIO"@[i]
        != '\n' by {
        assert(i == 0 || i == 1 || i == 2 || i == 3 || i == 4 || i == 5 || i == 6 || i == 7);
    }
    assert forall|i: int| 0 <= i < 6 implies !is_blank(#[trigger] "TARGET"@[i]) && "TARGET"@[i]
        != '\n' by {
        assert(i == 0 || i == 1 || i == 2 || i == 3 || i == 4 || i == 5);
    }
    assert forall|i: int| 0 <= i < 10 implies !is_blank(#[trigger] "WITH_SCOPE"@[i])
        && "WITH_SCOPE"@[i] != '\n' by {
        assert(i == 0 || i == 1 || i == 2 || i == 3 || i == 4 || i == 5 || i == 6 || i == 7 || i == 8
            || i == 9);
    }
    assert forall|i: int| 0 <= i < 4 implies !is_blank(#[trigger] "STEP"@[i]) && "STEP"@[i]
        != '\n' by {
        assert(i == 0 || i == 1 || i == 2 || i == 3);
    }
    assert forall|i: int| 0 <= i < 6 implies !is_blank(#[trigger] "ATTACK"@[i]) && "ATTACK"@[i]
        != '\n' by {
        assert(i == 0 || i == 1 || i == 2 || i == 3 || i == 4 || i == 5);
    }
    assert forall|i: int| 0 <= i < 5 implies !is_blank(#[trigger] "CHECK"@[i]) && "CHECK"@[i]
        != '\n' by {
        assert(i == 0 || i == 1 || i == 2 || i == 3 || i == 4);
    }
}

/// A line made of a word, a space and an argument splits back into the two.
proof fn line_splits(word: Seq<char>, arg: Seq<char>)
    requires
        word.len() > 0,
        forall|i: int| 0 <= i < word.len() ==> !is_blank(#[trigger] word[i]),
        arg.len() > 0,
        !is_blank(arg[0]),
        !is_blank(arg.last()),
    ensures
        trim(word + seq![' '] + arg) == word + seq![' '] + arg,
        keyword_of(word + seq![' '] + arg) == word,
        argument_of(word + seq![' '] + arg) == arg,
{
    let line = word + seq![' '] + arg;
    let n = word.len() as int;
    assert(line.len() == n + 1 + arg.len());
    assert(line[0] == word[0]);
    assert(line.last() == arg.last());
    assert(span(line, CharClass::Visible) == 0);
    assert(line.skip(0) =~= line);
    assert(trimmed_len(line) == line.len());
    assert(line.take(line.len() as int) =~= line);
    assert(trim(line) == line);
    assert forall|i: int| 0 <= i < n implies !CharClass::Blank.has(#[trigger] line[i]) by {
        assert(line[i] == word[i]);
    }
    assert(line[n] == ' ');
    span_stops_at(line, CharClass::Blank, n);
    assert(line.take(n) =~= word);
    let rest = line.skip(n);
    assert(rest[0] == ' ');
    assert(rest[1] == arg[0]);
    span_stops_at(rest, CharClass::Visible, 1);
    assert(rest.skip(1) =~= arg);
}

/// A plain text between double quotes reads back as itself.
proof fn quoted_reads_back(s: Seq<char>)
    requires
        is_plain(s),
    ensures
        quoted(seq!['"'] + s + seq!['"']) == Ok::<Seq<char>, ParseErrorKind>(s),
{
    let arg = seq!['"'] + s + seq!['"'];
    assert(arg[0] == '"');
    let body = arg.skip(1);
    assert(body =~= s + seq!['"']);
    assert forall|i: int| 0 <= i < s.len() implies !CharClass::Quote.has(#[trigger] body[i]) by {
        assert(body[i] == s[i]);
    }
    assert(body[s.len() as int] == '"');
    span_stops_at(body, CharClass::Quote, s.len() as int);
    assert(body.take(s.len() as int) =~= s);
}

/// The line of a statement that can be written holds no line feed and reads
/// back as the statement.
pub proof fn line_reads_back(st: StatementView)
    requires
        st.expressible(),
    ensures
        statement_of(st.line()) == Ok::<Option<StatementView>, ParseErrorKind>(Some(st)),
        forall|i: int| 0 <= i < st.line().len() ==> (#[trigger] st.line()[i]) != '\n',
{
    keywords_known();
    let word = st.keyword();
    let arg = st.argument();
    let line = st.line();
    match st {
        StatementView::Scenario(s) => {
            quoted_reads_back(s);
            assert(arg[0] == '"' && arg.last() == '"');
        },
        StatementView::Target(s) => {
            quoted_reads_back(s);
            assert(arg[0] == '"' && arg.last() == '"');
        },
        StatementView::Step(s) => {
            quoted_reads_back(s);
            assert(arg[0] == '"' && arg.last() == '"');
        },
        StatementView::Scope(s) => {},
        StatementView::Attack(s) => {},
        StatementView::Check(s) => {},
    }
    assert forall|i: int| 0 <= i < arg.len() implies (#[trigger] arg[i]) != '\n' by {
        match st {
            StatementView::Scenario(s) => {
                if 0 < i <= s.len() {
                    assert(arg[i] == s[i - 1]);
                }
            },
            StatementView::Target(s) => {
                if 0 < i <= s.len() {
                    assert(arg[i] == s[i - 1]);
                }
            },
            StatementView::Step(s) => {
                if 0 < i <= s.len() {
                    assert(arg[i] == s[i - 1]);
                }
            },
            StatementView::Scope(s) => {},
            StatementView::Attack(s) => {},
            StatementView::Check(s) => {},
        }
    }
    line_splits(word, arg);
    assert forall|i: int| 0 <= i < line.len() implies (#[trigger] line[i]) != '\n' by {
        if i < word.len() {
            assert(line[i] == word[i]);
        } else if i == word.len() {
            assert(line[i] == ' ');
        } else {
            assert(line[i] == arg[i - word.len() - 1]);
        }
    }
}

/// Joining lines that hold no line feed and splitting the text again gives
/// the lines back.
pub proof fn lines_of_joined(lines: Seq<Seq<char>>)
    requires
        lines.len() > 0,
        forall|k: int, i: int|
            0 <= k < lines.len() && 0 <= i < lines[k].len() ==> (#[trigger] lines[k][i]) != '\n',
    ensures
        lines_of(join_lines(lines)) == lines,
    decreases lines.len(),
{
    let text = join_lines(lines);
    let first = lines[0];
    if lines.len() == 1 {
        span_stops_at(text, CharClass::LineFeed, text.len() as int);
        assert(lines_of(text) =~= lines);
    } else {
        let rest = lines.drop_first();
        assert forall|k: int, i: int| 0 <= k < rest.len() && 0 <= i < rest[k].len() implies (
        #[trigger] rest[k][i]) != '\n' by {
            assert(rest[k] == lines[k + 1]);
        }
        lines_of_joined(rest);
        let n = first.len() as int;
        assert(text == first + seq!['\n'] + join_lines(rest));
        assert forall|i: int| 0 <= i < n implies !CharClass::LineFeed.has(#[trigger] text[i]) by {
            assert(text[i] == first[i]);
        }
        assert(text[n] == '\n');
        span_stops_at(text, CharClass::LineFeed, n);
        assert(text.take(n) =~= first);
        assert(text.skip(n + 1) =~= join_lines(rest));
        assert(lines_of(text) =~= seq![first] + lines_of(join_lines(rest)));
        assert(seq![first] + rest =~= lines);
    }
}

/// Accepting two runs in turn is accepting their concatenation.
proof fn accept_all_concat(draft: Draft, a: Seq<StatementView>, b: Seq<StatementView>)
    ensures
        accept_all(draft, a + b) == match accept_all(draft, a) {
            Ok(mid) => accept_all(mid, b),
            Err(kind) => Err(kind),
        },
    decreases a.len(),
{
    if a.len() == 0 {
        assert(a + b =~= b);
    } else {
        assert((a + b)[0] == a[0]);
        assert((a + b).drop_first() =~= a.drop_first() + b);
        match draft.accept(a[0]) {
            Ok(next) => {
                accept_all_concat(next, a.drop_first(), b);
            },
            Err(kind) => {},
        }
    }
}

/// Whether the header of a draft is complete.
spec fn header_done(draft: Draft) -> bool {
    draft.name is Some && draft.target is Some && draft.scope is Some
}

/// The draft with other steps.
spec fn with_steps(draft: Draft, steps: Seq<StepView>) -> Draft {
    Draft { name: draft.name, target: draft.target, scope: draft.scope, steps }
}

/// Accepting the statements of some actions appends the actions to the last
/// step.
proof fn accept_actions(draft: Draft, actions: Seq<ActionView>)
    requires
        header_done(draft),
        draft.steps.len() > 0,
    ensures
        accept_all(draft, action_statements(actions)) == Ok::<Draft, ParseErrorKind>(
            with_steps(
                draft,
                draft.steps.drop_last().push(
                    StepView {
                        title: draft.steps.last().title,
                        actions: draft.steps.last().actions + actions,
                    },
                ),
            ),
        ),
    decreases actions.len(),
{
    let stmts = action_statements(actions);
    let last = draft.steps.last();
    if actions.len() == 0 {
        assert(last.actions + actions =~= last.actions);
        assert(draft.steps.drop_last().push(last) =~= draft.steps);
    } else {
        let next = draft.add_action(actions[0]);
        assert(stmts[0] == action_statement(actions[0]));
        assert(draft.accept(stmts[0]) == Ok::<Draft, ParseErrorKind>(next));
        assert(stmts.drop_first() =~= action_statements(actions.drop_first()));
        accept_actions(next, actions.drop_first());
        assert(next.steps.drop_last() =~= draft.steps.drop_last());
        assert(last.actions.push(actions[0]) + actions.drop_first() =~= last.actions + actions);
    }
}

/// Accepting the statements of some steps appends the steps.
proof fn accept_body(draft: Draft, steps: Seq<StepView>)
    requires
        header_done(draft),
    ensures
        accept_all(draft, body_statements(steps)) == Ok::<Draft, ParseErrorKind>(
            with_steps(draft, draft.steps + steps),
        ),
    decreases steps.len(),
{
    if steps.len() == 0 {
        assert(draft.steps + steps =~= draft.steps);
    } else {
        let step = steps[0];
        let head = seq![StatementView::Step(step.title)];
        let opened = draft.open_step(step.title);
        let filled = with_steps(draft, draft.steps.push(step));
        assert(head[0] == StatementView::Step(step.title));
        assert(head.len() == 1);
        assert(head.drop_first().len() == 0);
        assert(draft.accept(head[0]) == Ok::<Draft, ParseErrorKind>(opened));
        assert(accept_all(opened, head.drop_first()) == Ok::<Draft, ParseErrorKind>(opened));
        assert(accept_all(draft, head) == Ok::<Draft, ParseErrorKind>(opened));
        accept_actions(opened, step.actions);
        assert(Seq::<ActionView>::empty() + step.actions =~= step.actions);
        assert(opened.steps.drop_last() =~= draft.steps);
        assert(accept_all(opened, action_statements(step.actions)) == Ok::<Draft, ParseErrorKind>(
            filled,
        ));
        accept_all_concat(draft, head, action_statements(step.actions));
        accept_body(filled, steps.drop_first());
        accept_all_concat(
            draft,
            head + action_statements(step.actions),
            body_statements(steps.drop_first()),
        );
        assert(draft.steps.push(step) + steps.drop_first() =~= draft.steps + steps);
    }
}

/// Accepting the statements of a scenario gives the draft of the scenario.
proof fn accept_scenario(scenario: ScenarioView)
    ensures
        accept_all(Draft::empty(), statements(scenario)) == Ok::<Draft, ParseErrorKind>(
            Draft {
                name: Some(scenario.name),
                target: Some(scenario.target),
                scope: Some(scenario.scope),
                steps: scenario.steps,
            },
        ),
{
    let header = seq![
        StatementView::Scenario(scenario.name),
        StatementView::Target(scenario.target),
        StatementView::Scope(scenario.scope),
    ];
    let d1 = Draft {
        name: Some(scenario.name),
        target: None,
        scope: None,
        steps: Seq::empty(),
    };
    let d2 = Draft {
        name: Some(scenario.name),
        target: Some(scenario.target),
        scope: None,
        steps: Seq::empty(),
    };
    let d3 = Draft {
        name: Some(scenario.name),
        target: Some(scenario.target),
        scope: Some(scenario.scope),
        steps: Seq::empty(),
    };
    let tail1 = header.drop_first();
    let tail2 = tail1.drop_first();
    assert(header[0] == StatementView::Scenario(scenario.name));
    assert(tail1[0] == StatementView::Target(scenario.target));
    assert(tail2[0] == StatementView::Scope(scenario.scope));
    assert(tail2.drop_first().len() == 0);
    assert(accept_all(d3, tail2.drop_first()) == Ok::<Draft, ParseErrorKind>(d3));
    assert(accept_all(d2, tail2) == Ok::<Draft, ParseErrorKind>(d3));
    assert(accept_all(d1, tail1) == Ok::<Draft, ParseErrorKind>(d3));
    assert(accept_all(Draft::empty(), header) == Ok::<Draft, ParseErrorKind>(d3));
    accept_body(d3, scenario.steps);
    accept_all_concat(Draft::empty(), header, body_statements(scenario.steps));
    assert(d3.steps + scenario.steps =~= scenario.steps);
}

/// Reading lines that hold the statements `stmts` is accepting the
/// statements and finishing the draft.
proof fn parse_lines_accepts(lines: Seq<Seq<char>>, stmts: Seq<StatementView>, k: nat, draft: Draft)
    requires
        lines.len() == stmts.len(),
        k <= lines.len(),
        forall|i: int|
            0 <= i < lines.len() ==> statement_of(#[trigger] lines[i]) == Ok::<
                Option<StatementView>,
                ParseErrorKind,
            >(Some(stmts[i])),
        accept_all(draft, stmts.skip(k as int)) is Ok,
        accept_all(draft, stmts.skip(k as int))->Ok_0.finish() is Ok,
    ensures
        parse_lines(lines, k, draft) == Ok::<ScenarioView, ParseFailure>(
            accept_all(draft, stmts.skip(k as int))->Ok_0.finish()->Ok_0,
        ),
    decreases lines.len() - k,
{
    let rest = stmts.skip(k as int);
    if k < lines.len() {
        assert(rest[0] == stmts[k as int]);
        assert(rest.drop_first() =~= stmts.skip(k as int + 1));
        let next = draft.accept(stmts[k as int])->Ok_0;
        parse_lines_accepts(lines, stmts, k + 1, next);
    }
}

/// The statements of a scenario that can be written can each be written.
proof fn statements_expressible(scenario: ScenarioView)
    requires
        expressible(scenario),
    ensures
        all_expressible(statements(scenario)),
{
    body_expressible(scenario.steps);
    let header = seq![
        StatementView::Scenario(scenario.name),
        StatementView::Target(scenario.target),
        StatementView::Scope(scenario.scope),
    ];
    let body = body_statements(scenario.steps);
    assert forall|i: int| 0 <= i < statements(scenario).len() implies (#[trigger] statements(
        scenario,
    )[i]).expressible() by {
        if i < 3 {
            assert(statements(scenario)[i] == header[i]);
        } else {
            assert(statements(scenario)[i] == body[i - 3]);
        }
    }
}

proof fn body_expressible(steps: Seq<StepView>)
    requires
        forall|i: int| 0 <= i < steps.len() ==> step_expressible(#[trigger] steps[i]),
    ensures
        all_expressible(body_statements(steps)),
    decreases steps.len(),
{
    if steps.len() > 0 {
        let step = steps[0];
        let rest = steps.drop_first();
        assert(step_expressible(step));
        assert forall|i: int| 0 <= i < rest.len() implies step_expressible(#[trigger] rest[i]) by {
            assert(rest[i] == steps[i + 1]);
        }
        body_expressible(rest);
        let head = seq![StatementView::Step(step.title)];
        let acts = action_statements(step.actions);
        let tail = body_statements(rest);
        let all = body_statements(steps);
        assert(all == head + acts + tail);
        assert forall|i: int| 0 <= i < all.len() implies (#[trigger] all[i]).expressible() by {
            if i == 0 {
                assert(all[i] == head[0]);
            } else if i < 1 + acts.len() {
                assert(all[i] == acts[i - 1]);
                assert(action_expressible(step.actions[i - 1]));
            } else {
                assert(all[i] == tail[i - 1 - acts.len()]);
            }
        }
    }
}

/// Every scenario that can be written parses back from its text: the
/// language can say each of them, and the parser reads what was said.
pub proof fn written_scenario_parses_back(scenario: ScenarioView)
    requires
        expressible(scenario),
    ensures
        parse_spec(written(scenario)) == Ok::<ScenarioView, ParseFailure>(scenario),
{
    let stmts = statements(scenario);
    let lines = statement_lines(stmts);
    statements_expressible(scenario);
    assert forall|i: int| 0 <= i < lines.len() implies statement_of(#[trigger] lines[i]) == Ok::<
        Option<StatementView>,
        ParseErrorKind,
    >(Some(stmts[i])) by {
        line_reads_back(stmts[i]);
    }
    assert forall|k: int, i: int| 0 <= k < lines.len() && 0 <= i < lines[k].len() implies (
    #[trigger] lines[k][i]) != '\n' by {
        line_reads_back(stmts[k]);
    }
    lines_of_joined(lines);
    accept_scenario(scenario);
    assert(stmts.skip(0) =~= stmts);
    parse_lines_accepts(lines, stmts, 0, Draft::empty());
}

/// No line of a text holds a line feed.
pub proof fn lines_hold_no_line_feed(text: Seq<char>)
    ensures
        lines_of(text).len() > 0,
        forall|k: int, i: int|
            0 <= k < lines_of(text).len() && 0 <= i < lines_of(text)[k].len() ==> (
            #[trigger] lines_of(text)[k][i]) != '\n',
    decreases text.len(),
{
    let n = span(text, CharClass::LineFeed) as int;
    span_bounds(text, CharClass::LineFeed);
    if n < text.len() {
        let first = text.take(n);
        let rest = lines_of(text.skip(n + 1));
        lines_hold_no_line_feed(text.skip(n + 1));
        assert(lines_of(text) == seq![first] + rest);
        assert forall|k: int, i: int|
            0 <= k < lines_of(text).len() && 0 <= i < lines_of(text)[k].len() implies (
        #[trigger] lines_of(text)[k][i]) != '\n' by {
            if k == 0 {
                assert(lines_of(text)[0] == first);
                assert(first[i] == text[i]);
            } else {
                assert(lines_of(text)[k] == rest[k - 1]);
            }
        }
    }
}

/// A statement read from a line without line feed can be written.
pub proof fn read_statement_is_expressible(line: Seq<char>)
    requires
        forall|i: int| 0 <= i < line.len() ==> (#[trigger] line[i]) != '\n',
        statement_of(line) is Ok,
        statement_of(line)->Ok_0 is Some,
    ensures
        statement_of(line)->Ok_0->0.expressible(),
{
    let lead = span(line, CharClass::Visible) as int;
    span_bounds(line, CharClass::Visible);
    let tail = line.skip(lead);
    trimmed_len_bounds(tail);
    let t = trim(line);
    trim_leaves_no_blank_ends(line);
    assert forall|i: int| 0 <= i < t.len() implies (#[trigger] t[i]) != '\n' by {
        assert(t[i] == line[lead + i]);
    }
    let w = span(t, CharClass::Blank) as int;
    span_bounds(t, CharClass::Blank);
    let rest = t.skip(w);
    let g = span(rest, CharClass::Visible) as int;
    span_bounds(rest, CharClass::Visible);
    let arg = argument_of(t);
    assert(arg == rest.skip(g));
    assert forall|i: int| 0 <= i < arg.len() implies (#[trigger] arg[i]) != '\n' by {
        assert(arg[i] == t[w + g + i]);
    }
    let st = statement_of(line)->Ok_0->0;
    match st {
        StatementView::Scenario(s) => {
            quoted_is_plain(arg);
        },
        StatementView::Target(s) => {
            quoted_is_plain(arg);
        },
        StatementView::Step(s) => {
            quoted_is_plain(arg);
        },
        StatementView::Scope(s) => {},
        StatementView::Attack(s) => {},
        StatementView::Check(s) => {
            assert(s == arg);
            assert(arg[0] == rest[g]);
            assert(arg.last() == t.last());
        },
    }
}

/// The content of a quoted string holds no double quote, and no line feed
/// unless the string does.
proof fn quoted_is_plain(arg: Seq<char>)
    requires
        forall|i: int| 0 <= i < arg.len() ==> (#[trigger] arg[i]) != '\n',
        quoted(arg) is Ok,
    ensures
        is_plain(quoted(arg)->Ok_0),
{
    let body = arg.skip(1);
    let close = span(body, CharClass::Quote) as int;
    span_bounds(body, CharClass::Quote);
    let s = body.take(close);
    assert forall|i: int| 0 <= i < s.len() implies (#[trigger] s[i]) != '"' && s[i] != '\n' by {
        assert(s[i] == body[i]);
        assert(body[i] == arg[i + 1]);
        assert(!CharClass::Quote.has(body[i]));
    }
}

/// Whether what a draft holds can be written.
pub open spec fn draft_expressible(draft: Draft) -> bool {
    &&& draft.name is Some ==> is_plain(draft.name->0)
    &&& draft.target is Some ==> is_plain(draft.target->0)
    &&& draft.scope is Some ==> is_identifier(draft.scope->0)
    &&& forall|i: int| 0 <= i < draft.steps.len() ==> step_expressible(#[trigger] draft.steps[i])
}

proof fn accept_keeps_expressible(draft: Draft, st: StatementView)
    requires
        draft_expressible(draft),
        st.expressible(),
        draft.accept(st) is Ok,
    ensures
        draft_expressible(draft.accept(st)->Ok_0),
{
    let next = draft.accept(st)->Ok_0;
    if draft.name is Some && draft.target is Some && draft.scope is Some {
        match st {
            StatementView::Step(title) => {
                assert forall|i: int| 0 <= i < next.steps.len() implies step_expressible(
                    #[trigger] next.steps[i],
                ) by {
                    if i < draft.steps.len() {
                        assert(next.steps[i] == draft.steps[i]);
                    }
                }
            },
            StatementView::Attack(name) => {
                action_keeps_expressible(draft, ActionView::Attack { name });
            },
            StatementView::Check(expression) => {
                action_keeps_expressible(draft, ActionView::Check { expression });
            },
            _ => {},
        }
    }
}

proof fn action_keeps_expressible(draft: Draft, action: ActionView)
    requires
        draft_expressible(draft),
        action_expressible(action),
        draft.steps.len() > 0,
    ensures
        draft_expressible(draft.add_action(action)),
{
    let next = draft.add_action(action);
    let last = draft.steps.last();
    assert(step_expressible(last));
    assert forall|i: int| 0 <= i < next.steps.len() implies step_expressible(
        #[trigger] next.steps[i],
    ) by {
        if i < draft.steps.len() - 1 {
            assert(next.steps[i] == draft.steps[i]);
        } else {
            let actions = next.steps[i].actions;
            assert forall|j: int| 0 <= j < actions.len() implies action_expressible(
                #[trigger] actions[j],
            ) by {
                if j < last.actions.len() {
                    assert(actions[j] == last.actions[j]);
                }
            }
        }
    }
}

proof fn parse_lines_expressible(lines: Seq<Seq<char>>, k: nat, draft: Draft)
    requires
        forall|n: int, i: int|
            0 <= n < lines.len() && 0 <= i < lines[n].len() ==> (#[trigger] lines[n][i]) != '\n',
        draft_expressible(draft),
        parse_lines(lines, k, draft) is Ok,
    ensures
        expressible(parse_lines(lines, k, draft)->Ok_0),
    decreases lines.len() - k,
{
    if k < lines.len() {
        let line = lines[k as int];
        match statement_of(line) {
            Ok(Some(st)) => {
                read_statement_is_expressible(line);
                accept_keeps_expressible(draft, st);
                parse_lines_expressible(lines, k + 1, draft.accept(st)->Ok_0);
            },
            Ok(None) => {
                parse_lines_expressible(lines, k + 1, draft);
            },
            Err(kind) => {},
        }
    }
}

/// Whatever the parser accepts can be written: quoted texts hold no quote,
/// scopes and attacks are identifiers, checks are one-line expressions with
/// no blank at either end.
pub proof fn parsed_scenario_is_expressible(text: Seq<char>)
    requires
        parse_spec(text) is Ok,
    ensures
        expressible(parse_spec(text)->Ok_0),
{
    lines_hold_no_line_feed(text);
    parse_lines_expressible(lines_of(text), 0, Draft::empty());
}

/// Parsing normalises: the written form of what was parsed parses to the
/// same scenario.
pub proof fn parsing_is_idempotent(text: Seq<char>)
    requires
        parse_spec(text) is Ok,
    ensures
        parse_spec(written(parse_spec(text)->Ok_0)) == parse_spec(text),
{
    parsed_scenario_is_expressible(text);
    written_scenario_parses_back(parse_spec(text)->Ok_0);
}

} // verus!
