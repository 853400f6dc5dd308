//! What is to be done with the terminal, step by step.

use vstd::prelude::*;

use crate::escape::Escape;
use crate::output::{text_of, text_of_concat, text_of_one, Output, Transcript};

verus! {

/// Something to be done with the terminal.
#[derive(Debug, PartialEq, Eq)]
pub enum Action {
    /// Hand input over as it comes, key by key.
    EnterRawMode,
    /// Back to the mode that the terminal was opened in.
    ResetMode,
    /// Write the text.
    Write(String),
    /// Send on what was written.
    Flush,
}

/// The mathematical form of an [`Action`]; what is written is given piece by piece.
pub enum Step {
    EnterRawMode,
    ResetMode,
    Write(Seq<Output>),
    Flush,
}

impl Action {
    /// Whether the action performs the step.
    pub open spec fn performs(self, step: Step) -> bool {
        match step {
            Step::EnterRawMode => self is EnterRawMode,
            Step::ResetMode => self is ResetMode,
            Step::Write(pieces) => self matches Action::Write(text) && text@ == text_of(pieces),
            Step::Flush => self is Flush,
        }
    }
}

/// What comes of an action that fails.
#[derive(Debug, Clone, Copy, PartialEq, Eq, Structural)]
pub enum OnFailure {
    /// The failure is reported, and the actions after it are not done.
    Stop,
    /// The failure is passed over, and the actions after it are done.
    Continue,
}

/// Actions to be done in order.
#[derive(Debug, PartialEq, Eq)]
pub struct Plan {
    pub actions: Vec<Action>,
    pub on_failure: OnFailure,
}

impl Plan {
    /// Whether the plan is made of these steps, one action each.
    pub open spec fn performs(self, steps: Seq<Step>) -> bool {
        &&& self.actions@.len() == steps.len()
        &&& forall|i: int|
            #![trigger self.actions@[i]]
            #![trigger steps[i]]
            0 <= i < steps.len() ==> self.actions@[i].performs(steps[i])
    }

    /// A plan without actions, which stops at the first failure.
    pub fn new() -> (plan: Plan)
        ensures
            plan.performs(seq![]),
            plan.on_failure == OnFailure::Stop,
    {
        Plan { actions: Vec::new(), on_failure: OnFailure::Stop }
    }

    /// Adds the actions of another plan. What comes of a failure stays as it is.
    pub fn append(&mut self, rest: Plan)
        ensures
            final(self).actions@ == old(self).actions@ + rest.actions@,
            final(self).on_failure == old(self).on_failure,
            forall|steps: Seq<Step>, more: Seq<Step>|
                old(self).performs(steps) && rest.performs(more) ==> #[trigger] final(self).performs(
                    #[trigger] (steps + more),
                ),
    {
        let mut rest = rest;
        self.actions.append(&mut rest.actions);
    }
}

/// The steps that write the pieces.
pub open spec fn write_steps(pieces: Seq<Output>) -> Seq<Step> {
    seq![Step::Write(pieces)]
}

/// The steps that write the pieces and send them on.
pub open spec fn write_and_flush_steps(pieces: Seq<Output>) -> Seq<Step> {
    seq![Step::Write(pieces), Step::Flush]
}

/// A plan that writes the pieces.
pub fn write_plan(out: Transcript) -> (plan: Plan)
    requires
        out.well_formed(),
    ensures
        plan.performs(write_steps(out@)),
        plan.on_failure == OnFailure::Stop,
{
    Plan { actions: vec![Action::Write(out.into_text())], on_failure: OnFailure::Stop }
}

/// A plan that writes the pieces and sends them on.
pub fn write_and_flush_plan(out: Transcript) -> (plan: Plan)
    requires
        out.well_formed(),
    ensures
        plan.performs(write_and_flush_steps(out@)),
        plan.on_failure == OnFailure::Stop,
{
    Plan { actions: vec![Action::Write(out.into_text()), Action::Flush], on_failure: OnFailure::Stop }
}

/// Everything that the steps write, in order.
pub open spec fn written(steps: Seq<Step>) -> Seq<Output>
    decreases steps.len(),
{
    if steps.len() == 0 {
        seq![]
    } else {
        let before = written(steps.drop_last());
        match steps.last() {
            Step::Write(pieces) => before + pieces,
            _ => before,
        }
    }
}

/// Two runs of steps write what the first writes, then what the second writes.
pub proof fn written_concat(first: Seq<Step>, second: Seq<Step>)
    ensures
        written(first + second) == written(first) + written(second),
    decreases second.len(),
{
    if second.len() == 0 {
        assert(first + second == first);
        assert(written(first) + Seq::<Output>::empty() == written(first));
    } else {
        written_concat(first, second.drop_last());
        assert((first + second).drop_last() == first + second.drop_last());
        if let Step::Write(pieces) = second.last() {
            assert(written(first) + written(second.drop_last()) + pieces == written(first) + (written(
                second.drop_last(),
            ) + pieces));
        }
    }
}

/// All the text that actions write, in order.
pub open spec fn action_text(actions: Seq<Action>) -> Seq<char>
    decreases actions.len(),
{
    if actions.len() == 0 {
        seq![]
    } else {
        let before = action_text(actions.drop_last());
        match actions.last() {
            Action::Write(text) => before + text@,
            _ => before,
        }
    }
}

/// A plan made of some steps writes the text of all that the steps write, and enters raw
/// mode, resets the mode and flushes exactly where they do.
pub proof fn plans_write_what_is_stated(plan: Plan, steps: Seq<Step>)
    requires
        plan.performs(steps),
    ensures
        action_text(plan.actions@) == text_of(written(steps)),
        plan.actions@.len() == steps.len(),
        forall|i: int|
            #![trigger plan.actions@[i]]
            0 <= i < steps.len() ==> {
                &&& (plan.actions@[i] is EnterRawMode <==> steps[i] is EnterRawMode)
                &&& (plan.actions@[i] is ResetMode <==> steps[i] is ResetMode)
                &&& (plan.actions@[i] is Flush <==> steps[i] is Flush)
                &&& (plan.actions@[i] is Write <==> steps[i] is Write)
            },
{
    assert forall|i: int| 0 <= i < steps.len() implies (#[trigger] plan.actions@[i]).performs(
        steps[i],
    ) by {}
    actions_write_what_is_stated(plan.actions@, steps);
}

/// Actions that perform some steps, one each, write the text of all that the steps write.
proof fn actions_write_what_is_stated(actions: Seq<Action>, steps: Seq<Step>)
    requires
        actions.len() == steps.len(),
        forall|i: int| 0 <= i < steps.len() ==> (#[trigger] actions[i]).performs(steps[i]),
    ensures
        action_text(actions) == text_of(written(steps)),
    decreases steps.len(),
{
    text_of_one(Seq::empty(), Escape::EraseDisplay);
    if steps.len() > 0 {
        let last = steps.len() - 1;
        let fewer = actions.drop_last();
        let earlier = steps.drop_last();
        assert forall|i: int| 0 <= i < earlier.len() implies (#[trigger] fewer[i]).performs(
            earlier[i],
        ) by {
            assert(fewer[i] == actions[i]);
        }
        actions_write_what_is_stated(fewer, earlier);
        assert(actions[last].performs(steps[last]));
        if let Step::Write(pieces) = steps.last() {
            text_of_concat(written(earlier), pieces);
        }
    }
}

} // verus!
