//! The bookkeeping of an audit run.
//!
//! The engine that launches attacks and evaluates checks lives outside this
//! library. An [`Audit`] decides what to ask of it next and files what it
//! answered: the caller performs each [`EngineCall`] and hands back the
//! [`EngineOutcome`]. Calls are issued strictly in source order, one per
//! action, and no outcome makes the audit skip an action.

use vstd::prelude::*;
use crate::time::Timestamp;
use crate::scenario::{Action, ActionView, Scenario, ScenarioView, StepView};

verus! {

/// A request to the execution engine.
#[derive(Debug, PartialEq, Eq)]
pub enum EngineCall {
    /// Launch the attack `payload`; `kind` is always `attack`.
    Attack { kind: String, payload: String },
    /// Evaluate the check expression.
    Verify { expression: String },
}

/// What an [`EngineCall`] stands for.
pub enum EngineCallView {
    Attack { kind: Seq<char>, payload: Seq<char> },
    Verify { expression: Seq<char> },
}

impl View for EngineCall {
    type V = EngineCallView;

    open spec fn view(&self) -> EngineCallView {
        match *self {
            EngineCall::Attack { kind, payload } => EngineCallView::Attack {
                kind: kind@,
                payload: payload@,
            },
            EngineCall::Verify { expression } => EngineCallView::Verify { expression: expression@ },
        }
    }
}

/// How a call to the engine ended.
#[derive(Debug, PartialEq, Eq)]
pub enum EngineOutcome {
    /// The engine answered with its verdict.
    Verdict { success: bool, message: String },
    /// The call itself failed; `description` says how.
    Failure { description: String },
}

/// What an [`EngineOutcome`] stands for.
pub enum EngineOutcomeView {
    Verdict { success: bool, message: Seq<char> },
    Failure { description: Seq<char> },
}

impl View for EngineOutcome {
    type V = EngineOutcomeView;

    open spec fn view(&self) -> EngineOutcomeView {
        match *self {
            EngineOutcome::Verdict { success, message } => EngineOutcomeView::Verdict {
                success,
                message: message@,
            },
            EngineOutcome::Failure { description } => EngineOutcomeView::Failure {
                description: description@,
            },
        }
    }
}

/// Which kind of action a result belongs to.
#[derive(Clone, Copy, Debug, PartialEq, Eq, Structural)]
pub enum ActionKind {
    Attack,
    Check,
}

/// How an action ended.
#[derive(Clone, Copy, Debug, PartialEq, Eq, Structural)]
pub enum Status {
    /// The engine reported success.
    Success,
    /// The engine reported failure.
    Failed,
    /// The engine could not be asked.
    Error,
}

/// The record of one executed action.
#[derive(Debug, PartialEq, Eq)]
pub struct ActionResult {
    pub kind: ActionKind,
    /// The attack's name or the check's expression.
    pub value: String,
    pub status: Status,
    pub message: String,
}

/// What an [`ActionResult`] stands for.
pub struct ActionResultView {
    pub kind: ActionKind,
    pub value: Seq<char>,
    pub status: Status,
    pub message: Seq<char>,
}

impl View for ActionResult {
    type V = ActionResultView;

    open spec fn view(&self) -> ActionResultView {
        ActionResultView {
            kind: self.kind,
            value: self.value@,
            status: self.status,
            message: self.message@,
        }
    }
}

/// The views of a sequence of results, in order.
pub open spec fn results_view(results: Seq<ActionResult>) -> Seq<ActionResultView> {
    Seq::new(results.len(), |i: int| results[i]@)
}

/// The records of one step's actions, in source order.
#[derive(Debug, PartialEq, Eq)]
pub struct StepResult {
    pub title: String,
    pub results: Vec<ActionResult>,
}

/// What a [`StepResult`] stands for.
pub struct StepResultView {
    pub title: Seq<char>,
    pub results: Seq<ActionResultView>,
}

impl View for StepResult {
    type V = StepResultView;

    open spec fn view(&self) -> StepResultView {
        StepResultView { title: self.title@, results: results_view(self.results@) }
    }
}

/// The views of a sequence of step results, in order.
pub open spec fn step_results_view(steps: Seq<StepResult>) -> Seq<StepResultView> {
    Seq::new(steps.len(), |i: int| steps[i]@)
}

/// The outcome of a whole audit.
#[derive(Debug, PartialEq, Eq)]
pub struct AuditReport {
    pub name: String,
    pub target: String,
    pub scope: String,
    pub steps: Vec<StepResult>,
    pub executed_at: Timestamp,
}

/// What an [`AuditReport`] stands for.
pub struct AuditReportView {
    pub name: Seq<char>,
    pub target: Seq<char>,
    pub scope: Seq<char>,
    pub steps: Seq<StepResultView>,
    pub executed_at: Timestamp,
}

impl View for AuditReport {
    type V = AuditReportView;

    open spec fn view(&self) -> AuditReportView {
        AuditReportView {
            name: self.name@,
            target: self.target@,
            scope: self.scope@,
            steps: step_results_view(self.steps@),
            executed_at: self.executed_at,
        }
    }
}

/// The kind of result an action gives.
pub open spec fn kind_of(action: ActionView) -> ActionKind {
    match action {
        ActionView::Attack { .. } => ActionKind::Attack,
        ActionView::Check { .. } => ActionKind::Check,
    }
}

/// The text an action hands to the engine: the attack's name or the check's
/// raw expression.
pub open spec fn value_of(action: ActionView) -> Seq<char> {
    match action {
        ActionView::Attack { name } => name,
        ActionView::Check { expression } => expression,
    }
}

/// The engine call that performs an action.
pub open spec fn call_for(action: ActionView) -> EngineCallView {
    match action {
        ActionView::Attack { name } => EngineCallView::Attack { kind: "attack"@, payload: name },
        ActionView::Check { expression } => EngineCallView::Verify { expression },
    }
}

/// The status an outcome amounts to.
pub open spec fn status_of(outcome: EngineOutcomeView) -> Status {
    match outcome {
        EngineOutcomeView::Verdict { success, .. } => if success {
            Status::Success
        } else {
            Status::Failed
        },
        EngineOutcomeView::Failure { .. } => Status::Error,
    }
}

/// What is recorded of a failed call when nothing says how it failed.
pub const UNEXPLAINED_FAILURE: &'static str = "the engine call failed without a description";

/// The message recorded for a failed call: the description of the failure,
/// or a fixed text where the description is empty.
pub open spec fn failure_message(description: Seq<char>) -> Seq<char> {
    if description.len() == 0 {
        UNEXPLAINED_FAILURE@
    } else {
        description
    }
}

/// The message recorded for an outcome: a verdict's message unchanged, a
/// failure's description or, where that is empty, a fixed text.
pub open spec fn message_of(outcome: EngineOutcomeView) -> Seq<char> {
    match outcome {
        EngineOutcomeView::Verdict { message, .. } => message,
        EngineOutcomeView::Failure { description } => failure_message(description),
    }
}

/// The record of `action` once the engine has answered `outcome`.
pub open spec fn result_for(action: ActionView, outcome: EngineOutcomeView) -> ActionResultView {
    ActionResultView {
        kind: kind_of(action),
        value: value_of(action),
        status: status_of(outcome),
        message: message_of(outcome),
    }
}

/// Whether `result` is a record of `action`.
pub open spec fn answers(result: ActionResultView, action: ActionView) -> bool {
    result.kind == kind_of(action) && result.value == value_of(action)
}

/// Whether `results` are records of the first actions of `actions`, one
/// each, in order.
pub open spec fn answers_prefix(results: Seq<ActionResultView>, actions: Seq<ActionView>) -> bool {
    &&& results.len() <= actions.len()
    &&& forall|j: int| 0 <= j < results.len() ==> answers(#[trigger] results[j], actions[j])
}

/// Whether `done` is the complete record of `step`.
pub open spec fn step_answers(done: StepResultView, step: StepView) -> bool {
    &&& done.title == step.title
    &&& done.results.len() == step.actions.len()
    &&& answers_prefix(done.results, step.actions)
}

/// The state of an audit: the scenario, the steps that are finished and the
/// results so far of the step that is under way.
pub struct AuditView {
    pub scenario: ScenarioView,
    pub done: Seq<StepResultView>,
    pub current: Seq<ActionResultView>,
}

impl AuditView {
    /// Whether the records match the scenario as far as they go.
    pub open spec fn coherent(self) -> bool {
        let steps = self.scenario.steps;
        &&& self.done.len() <= steps.len()
        &&& forall|i: int|
            0 <= i < self.done.len() ==> step_answers(#[trigger] self.done[i], steps[i])
        &&& if self.done.len() < steps.len() {
            answers_prefix(self.current, steps[self.done.len() as int].actions)
        } else {
            self.current.len() == 0
        }
    }

    /// Whether the step under way still lacks a result.
    pub open spec fn settled(self) -> bool {
        let steps = self.scenario.steps;
        self.done.len() < steps.len() ==> self.current.len() < steps[self.done.len() as
            int].actions.len()
    }

    /// The states an audit can be in.
    pub open spec fn wf(self) -> bool {
        self.coherent() && self.settled()
    }

    /// Closes the step under way if all its actions have a result, and after
    /// it every step that has no action at all.
    pub open spec fn settle(self) -> AuditView
        decreases self.scenario.steps.len() - self.done.len(),
    {
        let steps = self.scenario.steps;
        if self.done.len() < steps.len() && self.current.len() >= steps[self.done.len() as
            int].actions.len() {
            AuditView {
                scenario: self.scenario,
                done: self.done.push(
                    StepResultView {
                        title: steps[self.done.len() as int].title,
                        results: self.current,
                    },
                ),
                current: Seq::empty(),
            }.settle()
        } else {
            self
        }
    }

    /// The state before anything was asked of the engine.
    pub open spec fn start(scenario: ScenarioView) -> AuditView {
        AuditView { scenario, done: Seq::empty(), current: Seq::empty() }.settle()
    }

    /// Whether every action has its result.
    pub open spec fn is_complete(self) -> bool {
        self.done.len() >= self.scenario.steps.len()
    }

    /// The action to perform next: the first one in source order without a
    /// result.
    pub open spec fn pending(self) -> Option<ActionView> {
        if self.is_complete() {
            None
        } else {
            Some(self.scenario.steps[self.done.len() as int].actions[self.current.len() as int])
        }
    }

    /// The call to make next.
    pub open spec fn pending_call(self) -> Option<EngineCallView> {
        match self.pending() {
            Some(action) => Some(call_for(action)),
            None => None,
        }
    }

    /// The state with the result of the pending action filed, before any
    /// step is closed.
    pub open spec fn filed(self, outcome: EngineOutcomeView) -> AuditView
        recommends
            self.pending() is Some,
    {
        AuditView {
            scenario: self.scenario,
            done: self.done,
            current: self.current.push(result_for(self.pending()->0, outcome)),
        }
    }

    /// The state after `outcome` was handed back for the pending action. A
    /// complete audit stays as it is.
    pub open spec fn recorded(self, outcome: EngineOutcomeView) -> AuditView {
        if self.pending() is Some {
            self.filed(outcome).settle()
        } else {
            self
        }
    }

    /// The report of a complete audit.
    pub open spec fn report(self, executed_at: Timestamp) -> Option<AuditReportView> {
        if self.is_complete() {
            Some(
                AuditReportView {
                    name: self.scenario.name,
                    target: self.scenario.target,
                    scope: self.scenario.scope,
                    steps: self.done,
                    executed_at,
                },
            )
        } else {
            None
        }
    }

    /// The number of actions that still lack a result.
    pub open spec fn remaining(self) -> int {
        actions_from(self.scenario.steps, self.done.len() as int) - self.current.len()
    }
}

/// The number of actions in the steps from the `i`-th on.
pub open spec fn actions_from(steps: Seq<StepView>, i: int) -> int
    decreases steps.len() - i,
{
    if 0 <= i < steps.len() {
        steps[i].actions.len() + actions_from(steps, i + 1)
    } else {
        0
    }
}

/// The number of actions in a scenario.
pub open spec fn action_count(scenario: ScenarioView) -> int {
    actions_from(scenario.steps, 0)
}

/// Settling closes steps until the step under way lacks a result, and
/// keeps the records in step with the scenario.
pub proof fn settle_is_wf(a: AuditView)
    requires
        a.coherent(),
    ensures
        a.settle().wf(),
        a.settle().scenario == a.scenario,
        a.settle().remaining() == a.remaining(),
    decreases a.scenario.steps.len() - a.done.len(),
{
    let steps = a.scenario.steps;
    if a.done.len() < steps.len() && a.current.len() >= steps[a.done.len() as int].actions.len() {
        let closed = StepResultView { title: steps[a.done.len() as int].title, results: a.current };
        let next = AuditView {
            scenario: a.scenario,
            done: a.done.push(closed),
            current: Seq::empty(),
        };
        assert(step_answers(closed, steps[a.done.len() as int]));
        assert forall|i: int| 0 <= i < next.done.len() implies step_answers(
            #[trigger] next.done[i],
            steps[i],
        ) by {
            if i < a.done.len() {
                assert(next.done[i] == a.done[i]);
            }
        }
        assert(next.coherent());
        settle_is_wf(next);
    }
}

/// An audit starts in a valid state, with every action of the scenario
/// still to perform.
pub proof fn start_is_wf(scenario: ScenarioView)
    ensures
        AuditView::start(scenario).wf(),
        AuditView::start(scenario).scenario == scenario,
        AuditView::start(scenario).remaining() == action_count(scenario),
{
    let a = AuditView { scenario, done: Seq::empty(), current: Seq::empty() };
    settle_is_wf(a);
}

/// Filing a result for the pending action keeps the records in step with
/// the scenario.
proof fn filed_is_coherent(a: AuditView, outcome: EngineOutcomeView)
    requires
        a.wf(),
        a.pending() is Some,
    ensures
        a.filed(outcome).coherent(),
        a.filed(outcome).remaining() == a.remaining() - 1,
{
    let next = a.filed(outcome);
    let actions = a.scenario.steps[a.done.len() as int].actions;
    assert forall|j: int| 0 <= j < next.current.len() implies answers(
        #[trigger] next.current[j],
        actions[j],
    ) by {
        if j < a.current.len() {
            assert(next.current[j] == a.current[j]);
        }
    }
}

/// Handing back an outcome keeps the audit valid and the scenario fixed. If
/// an action was pending, exactly one action fewer remains; otherwise
/// nothing changes.
pub proof fn recorded_is_wf(a: AuditView, outcome: EngineOutcomeView)
    requires
        a.wf(),
    ensures
        a.recorded(outcome).wf(),
        a.recorded(outcome).scenario == a.scenario,
        a.pending() is Some ==> a.recorded(outcome).remaining() == a.remaining() - 1,
        a.pending() is None ==> a.recorded(outcome) == a,
{
    if a.pending() is Some {
        filed_is_coherent(a, outcome);
        settle_is_wf(a.filed(outcome));
    }
}

/// A valid audit is complete exactly when no action remains, and never has a
/// negative number of them left.
pub proof fn complete_iff_none_remaining(a: AuditView)
    requires
        a.wf(),
    ensures
        a.remaining() >= 0,
        a.is_complete() <==> a.remaining() == 0,
{
    actions_from_nonnegative(a.scenario.steps, a.done.len() as int + 1);
}

proof fn actions_from_nonnegative(steps: Seq<StepView>, i: int)
    ensures
        actions_from(steps, i) >= 0,
    decreases steps.len() - i,
{
    if 0 <= i < steps.len() {
        actions_from_nonnegative(steps, i + 1);
    }
}

/// The report of a complete audit mirrors the scenario: one step result per
/// step, under the step's title, holding one result per action, in source
/// order, each of the action's kind and with the text that was handed to the
/// engine.
pub proof fn report_mirrors_scenario(a: AuditView, executed_at: Timestamp)
    requires
        a.wf(),
        a.is_complete(),
    ensures
        a.report(executed_at) is Some,
        a.report(executed_at)->0.name == a.scenario.name,
        a.report(executed_at)->0.target == a.scenario.target,
        a.report(executed_at)->0.scope == a.scenario.scope,
        a.report(executed_at)->0.steps.len() == a.scenario.steps.len(),
        forall|i: int|
            0 <= i < a.scenario.steps.len() ==> step_answers(
                #[trigger] a.report(executed_at)->0.steps[i],
                a.scenario.steps[i],
            ),
{
}

impl AuditView {
    /// The state after the outcomes were handed back one after the other.
    pub open spec fn recorded_all(self, outcomes: Seq<EngineOutcomeView>) -> AuditView
        decreases outcomes.len(),
    {
        if outcomes.len() == 0 {
            self
        } else {
            self.recorded(outcomes[0]).recorded_all(outcomes.drop_first())
        }
    }

    /// Whether every result on record satisfies `p`.
    pub open spec fn every_result(self, p: spec_fn(ActionResultView) -> bool) -> bool {
        &&& forall|i: int, j: int|
            0 <= i < self.done.len() && 0 <= j < self.done[i].results.len() ==> p(
                #[trigger] self.done[i].results[j],
            )
        &&& forall|j: int| 0 <= j < self.current.len() ==> p(#[trigger] self.current[j])
    }
}

/// An audit is complete after exactly as many outcomes as actions remained:
/// each outcome answers one action, none is skipped and none is asked twice.
pub proof fn completes_after_every_action(a: AuditView, outcomes: Seq<EngineOutcomeView>)
    requires
        a.wf(),
    ensures
        a.recorded_all(outcomes).wf(),
        a.recorded_all(outcomes).scenario == a.scenario,
        a.recorded_all(outcomes).is_complete() <==> outcomes.len() >= a.remaining(),
        outcomes.len() <= a.remaining() ==> a.recorded_all(outcomes).remaining() == a.remaining()
            - outcomes.len(),
    decreases outcomes.len(),
{
    complete_iff_none_remaining(a);
    if outcomes.len() > 0 {
        let next = a.recorded(outcomes[0]);
        recorded_is_wf(a, outcomes[0]);
        complete_iff_none_remaining(next);
        completes_after_every_action(next, outcomes.drop_first());
    }
}

proof fn settle_keeps_every_result(a: AuditView, p: spec_fn(ActionResultView) -> bool)
    requires
        a.every_result(p),
    ensures
        a.settle().every_result(p),
    decreases a.scenario.steps.len() - a.done.len(),
{
    let steps = a.scenario.steps;
    if a.done.len() < steps.len() && a.current.len() >= steps[a.done.len() as int].actions.len() {
        let closed = StepResultView { title: steps[a.done.len() as int].title, results: a.current };
        let next = AuditView {
            scenario: a.scenario,
            done: a.done.push(closed),
            current: Seq::empty(),
        };
        assert forall|i: int, j: int|
            0 <= i < next.done.len() && 0 <= j < next.done[i].results.len() implies p(
            #[trigger] next.done[i].results[j],
        ) by {
            if i < a.done.len() {
                assert(next.done[i] == a.done[i]);
            } else {
                assert(next.done[i].results[j] == a.current[j]);
            }
        }
        settle_keeps_every_result(next, p);
    }
}

/// What holds of every result on record still holds after an outcome is
/// handed back, if it holds of the result that the outcome gives.
pub proof fn recorded_keeps_every_result(
    a: AuditView,
    outcome: EngineOutcomeView,
    p: spec_fn(ActionResultView) -> bool,
)
    requires
        a.every_result(p),
        a.pending() is Some ==> p(result_for(a.pending()->0, outcome)),
    ensures
        a.recorded(outcome).every_result(p),
{
    if a.pending() is Some {
        let next = a.filed(outcome);
        assert forall|j: int| 0 <= j < next.current.len() implies p(#[trigger] next.current[j]) by {
            if j < a.current.len() {
                assert(next.current[j] == a.current[j]);
            }
        }
        settle_keeps_every_result(next, p);
    }
}

/// If the engine reports success for every call, every result of the audit
/// has the status `Success`.
pub proof fn all_successes_give_all_success(scenario: ScenarioView, outcomes: Seq<EngineOutcomeView>)
    requires
        forall|k: int|
            0 <= k < outcomes.len() ==> (#[trigger] outcomes[k]) matches EngineOutcomeView::Verdict {
                success: true,
                ..
            },
    ensures
        AuditView::start(scenario).recorded_all(outcomes).every_result(
            |r: ActionResultView| r.status == Status::Success,
        ),
{
    let p = |r: ActionResultView| r.status == Status::Success;
    let first = AuditView { scenario, done: Seq::empty(), current: Seq::empty() };
    settle_keeps_every_result(first, p);
    successes_keep_success(AuditView::start(scenario), outcomes);
}

proof fn successes_keep_success(a: AuditView, outcomes: Seq<EngineOutcomeView>)
    requires
        a.every_result(|r: ActionResultView| r.status == Status::Success),
        forall|k: int|
            0 <= k < outcomes.len() ==> (#[trigger] outcomes[k]) matches EngineOutcomeView::Verdict {
                success: true,
                ..
            },
    ensures
        a.recorded_all(outcomes).every_result(|r: ActionResultView| r.status == Status::Success),
    decreases outcomes.len(),
{
    let p = |r: ActionResultView| r.status == Status::Success;
    if outcomes.len() > 0 {
        let rest = outcomes.drop_first();
        assert(outcomes[0] matches EngineOutcomeView::Verdict { success: true, .. });
        recorded_keeps_every_result(a, outcomes[0], p);
        assert forall|k: int| 0 <= k < rest.len() implies (
        #[trigger] rest[k]) matches EngineOutcomeView::Verdict { success: true, .. } by {
            assert(rest[k] == outcomes[k + 1]);
        }
        successes_keep_success(a.recorded(outcomes[0]), rest);
    }
}

/// A failed engine call is recorded with the status `Error` and a message
/// that is not empty.
pub proof fn failure_is_recorded_with_a_message(action: ActionView, description: Seq<char>)
    ensures
        result_for(action, EngineOutcomeView::Failure { description }).status == Status::Error,
        result_for(action, EngineOutcomeView::Failure { description }).message.len() > 0,
        description.len() > 0 ==> result_for(
            action,
            EngineOutcomeView::Failure { description },
        ).message == description,
{
    reveal_strlit("the engine call failed without a description");
}

/// Whether a result with the status `Error` has a message that is not empty.
pub open spec fn error_is_explained(result: ActionResultView) -> bool {
    result.status == Status::Error ==> result.message.len() > 0
}

/// Whatever the engine answers, every result with the status `Error` has a
/// message that is not empty.
pub proof fn errors_are_explained(scenario: ScenarioView, outcomes: Seq<EngineOutcomeView>)
    ensures
        AuditView::start(scenario).recorded_all(outcomes).every_result(
            |r: ActionResultView| error_is_explained(r),
        ),
{
    let p = |r: ActionResultView| error_is_explained(r);
    let first = AuditView { scenario, done: Seq::empty(), current: Seq::empty() };
    settle_keeps_every_result(first, p);
    explained_errors_stay(AuditView::start(scenario), outcomes);
}

proof fn explained_errors_stay(a: AuditView, outcomes: Seq<EngineOutcomeView>)
    requires
        a.every_result(|r: ActionResultView| error_is_explained(r)),
    ensures
        a.recorded_all(outcomes).every_result(|r: ActionResultView| error_is_explained(r)),
    decreases outcomes.len(),
{
    let p = |r: ActionResultView| error_is_explained(r);
    if outcomes.len() > 0 {
        if a.pending() is Some {
            match outcomes[0] {
                EngineOutcomeView::Failure { description } => {
                    failure_is_recorded_with_a_message(a.pending()->0, description);
                },
                EngineOutcomeView::Verdict { .. } => {},
            }
        }
        recorded_keeps_every_result(a, outcomes[0], p);
        explained_errors_stay(a.recorded(outcomes[0]), outcomes.drop_first());
    }
}

/// The executable counterpart of [`result_for`].
pub fn result_of(action: &Action, outcome: EngineOutcome) -> (result: ActionResult)
    ensures
        result@ == result_for(action@, outcome@),
{
    let (kind, value) = match action {
        Action::Attack { name } => (ActionKind::Attack, name.clone()),
        Action::Check { expression } => (ActionKind::Check, expression.clone()),
    };
    match outcome {
        EngineOutcome::Verdict { success, message } => ActionResult {
            kind,
            value,
            status: if success {
                Status::Success
            } else {
                Status::Failed
            },
            message,
        },
        EngineOutcome::Failure { description } => ActionResult {
            kind,
            value,
            status: Status::Error,
            message: if description.as_str().is_empty() {
                UNEXPLAINED_FAILURE.to_owned()
            } else {
                description
            },
        },
    }
}

/// The executable counterpart of [`call_for`].
pub fn call_of(action: &Action) -> (call: EngineCall)
    ensures
        call@ == call_for(action@),
{
    match action {
        Action::Attack { name } => EngineCall::Attack {
            kind: "attack".to_owned(),
            payload: name.clone(),
        },
        Action::Check { expression } => EngineCall::Verify { expression: expression.clone() },
    }
}

/// An audit under way. It is created for a scenario, hands out the engine
/// calls one at a time and files the outcomes; once complete it yields the
/// report.
pub struct Audit {
    scenario: Scenario,
    done: Vec<StepResult>,
    current: Vec<ActionResult>,
}

/// The view of an optional engine call.
pub open spec fn call_view(call: Option<EngineCall>) -> Option<EngineCallView> {
    match call {
        Some(call) => Some(call@),
        None => None,
    }
}

/// The view of an optional report.
pub open spec fn report_view(report: Option<AuditReport>) -> Option<AuditReportView> {
    match report {
        Some(report) => Some(report@),
        None => None,
    }
}

impl View for Audit {
    type V = AuditView;

    closed spec fn view(&self) -> AuditView {
        AuditView {
            scenario: self.scenario@,
            done: step_results_view(self.done@),
            current: results_view(self.current@),
        }
    }
}

impl Audit {
    #[verifier::type_invariant]
    spec fn valid(&self) -> bool {
        self@.wf()
    }

    fn settle(scenario: Scenario, done: Vec<StepResult>, current: Vec<ActionResult>) -> (a: Audit)
        requires
            (AuditView {
                scenario: scenario@,
                done: step_results_view(done@),
                current: results_view(current@),
            }).coherent(),
        ensures
            a@ == (AuditView {
                scenario: scenario@,
                done: step_results_view(done@),
                current: results_view(current@),
            }).settle(),
            a@.wf(),
    {
        let ghost initial = AuditView {
            scenario: scenario@,
            done: step_results_view(done@),
            current: results_view(current@),
        };
        let mut done = done;
        let mut current = current;
        while done.len() < scenario.steps.len() && current.len() >= scenario.steps[done.len()].actions.len()
            invariant
                (AuditView {
                    scenario: scenario@,
                    done: step_results_view(done@),
                    current: results_view(current@),
                }).coherent(),
                (AuditView {
                    scenario: scenario@,
                    done: step_results_view(done@),
                    current: results_view(current@),
                }).settle() == initial.settle(),
            decreases scenario.steps.len() - done.len(),
        {
            let ghost before = AuditView {
                scenario: scenario@,
                done: step_results_view(done@),
                current: results_view(current@),
            };
            let ghost old_done = done@;
            let title = scenario.steps[done.len()].title.clone();
            let mut results: Vec<ActionResult> = Vec::new();
            core::mem::swap(&mut results, &mut current);
            let closed = StepResult { title, results };
            done.push(closed);
            proof {
                let step = before.scenario.steps[old_done.len() as int];
                let next = AuditView {
                    scenario: scenario@,
                    done: step_results_view(done@),
                    current: results_view(current@),
                };
                assert(step == scenario.steps@[old_done.len() as int]@);
                assert(next.current =~= Seq::empty());
                assert(next.done =~= before.done.push(
                    StepResultView { title: step.title, results: before.current },
                ));
                assert(step_answers(closed@, step));
                assert forall|i: int| 0 <= i < next.done.len() implies step_answers(
                    #[trigger] next.done[i],
                    next.scenario.steps[i],
                ) by {
                    if i < before.done.len() {
                        assert(next.done[i] == before.done[i]);
                    }
                }
            }
        }
        proof {
            settle_is_wf(initial);
        }
        Audit { scenario, done, current }
    }

    /// Begins the audit of `scenario`. Nothing has been asked of the engine
    /// yet.
    pub fn new(scenario: Scenario) -> (a: Audit)
        ensures
            a@ == AuditView::start(scenario@),
            a@.wf(),
    {
        let done: Vec<StepResult> = Vec::new();
        let current: Vec<ActionResult> = Vec::new();
        assert(step_results_view(done@) =~= Seq::empty());
        assert(results_view(current@) =~= Seq::empty());
        Audit::settle(scenario, done, current)
    }

    /// Whether every action has its result.
    pub fn is_complete(&self) -> (b: bool)
        ensures
            b == self@.is_complete(),
    {
        self.done.len() >= self.scenario.steps.len()
    }

    /// The call to make next: the one for the first action in source order
    /// that has no result yet, `None` once the audit is complete.
    pub fn next_call(&self) -> (call: Option<EngineCall>)
        ensures
            call_view(call) == self@.pending_call(),
            self@.wf(),
    {
        proof {
            use_type_invariant(self);
        }
        if self.done.len() < self.scenario.steps.len() {
            let step = &self.scenario.steps[self.done.len()];
            Some(call_of(&step.actions[self.current.len()]))
        } else {
            None
        }
    }

    /// Files the outcome of the pending call: exactly one result is appended
    /// for the pending action, whatever the outcome says, and the audit moves
    /// on to the next action. On a complete audit the outcome is dropped.
    pub fn record(self, outcome: EngineOutcome) -> (next: Audit)
        ensures
            next@ == self@.recorded(outcome@),
            next@.wf(),
    {
        proof {
            use_type_invariant(&self);
        }
        let ghost before = self@;
        let Audit { scenario, done, mut current } = self;
        if done.len() < scenario.steps.len() {
            let ghost old_current = current@;
            let result = result_of(&scenario.steps[done.len()].actions[current.len()], outcome);
            current.push(result);
            proof {
                let step = scenario.steps@[done@.len() as int];
                assert(before.pending() == Some(step.actions@[old_current.len() as int]@));
                assert(results_view(current@) =~= before.filed(outcome@).current);
                filed_is_coherent(before, outcome@);
            }
            Audit::settle(scenario, done, current)
        } else {
            Audit { scenario, done, current }
        }
    }

    /// The report of a complete audit, dated `executed_at`; `None` while
    /// actions remain.
    pub fn into_report(self, executed_at: Timestamp) -> (report: Option<AuditReport>)
        ensures
            report_view(report) == self@.report(executed_at),
            self@.wf(),
    {
        proof {
            use_type_invariant(&self);
        }
        let Audit { scenario, done, current } = self;
        if done.len() >= scenario.steps.len() {
            let Scenario { name, target, scope, steps } = scenario;
            Some(AuditReport { name, target, scope, steps: done, executed_at })
        } else {
            None
        }
    }
}

} // verus!
