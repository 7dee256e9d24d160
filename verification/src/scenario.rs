//! The syntax tree of a scenario: a header and an ordered list of steps, each
//! an ordered list of actions.

use vstd::prelude::*;

verus! {

/// One thing a step asks of the execution engine.
#[derive(Debug, PartialEq, Eq)]
pub enum Action {
    /// A named probe to launch against the target.
    Attack { name: String },
    /// An assertion, kept as the raw expression text.
    Check { expression: String },
}

/// A titled group of actions. Their order is significant: a check may rely on
/// the effects of an attack before it.
#[derive(Debug, PartialEq, Eq)]
pub struct Step {
    pub title: String,
    pub actions: Vec<Action>,
}

/// A whole scenario: exactly one name, target and scope, then the steps in
/// source order.
#[derive(Debug, PartialEq, Eq)]
pub struct Scenario {
    pub name: String,
    pub target: String,
    pub scope: String,
    pub steps: Vec<Step>,
}

/// What an [`Action`] stands for.
pub enum ActionView {
    Attack { name: Seq<char> },
    Check { expression: Seq<char> },
}

/// What a [`Step`] stands for.
pub struct StepView {
    pub title: Seq<char>,
    pub actions: Seq<ActionView>,
}

/// What a [`Scenario`] stands for.
pub struct ScenarioView {
    pub name: Seq<char>,
    pub target: Seq<char>,
    pub scope: Seq<char>,
    pub steps: Seq<StepView>,
}

impl View for Action {
    type V = ActionView;

    open spec fn view(&self) -> ActionView {
        match *self {
            Action::Attack { name } => ActionView::Attack { name: name@ },
            Action::Check { expression } => ActionView::Check { expression: expression@ },
        }
    }
}

/// The views of a sequence of actions, in order.
pub open spec fn actions_view(actions: Seq<Action>) -> Seq<ActionView> {
    Seq::new(actions.len(), |i: int| actions[i]@)
}

impl View for Step {
    type V = StepView;

    open spec fn view(&self) -> StepView {
        StepView { title: self.title@, actions: actions_view(self.actions@) }
    }
}

/// The views of a sequence of steps, in order.
pub open spec fn steps_view(steps: Seq<Step>) -> Seq<StepView> {
    Seq::new(steps.len(), |i: int| steps[i]@)
}

impl View for Scenario {
    type V = ScenarioView;

    open spec fn view(&self) -> ScenarioView {
        ScenarioView {
            name: self.name@,
            target: self.target@,
            scope: self.scope@,
            steps: steps_view(self.steps@),
        }
    }
}

} // verus!
