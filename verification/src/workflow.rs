//! The decisions shared by the commands that move between branches and restack stacks.
use vstd::prelude::*;

use crate::branch::RestoreBranchOutcome;
use crate::error::CommandStatus;
use crate::render::{lemma_strs_push, RestackPreview};
use crate::store::{BranchReparentedEvent, DigEvent, NodeId, ParentRef};
use crate::text::str_eq;

verus! {

/// What came of making sure a branch is checked out.
#[derive(Debug, Clone, PartialEq, Eq)]
pub struct CheckoutBranchOutcome {
    pub status: CommandStatus,
    pub switched_from: Option<String>,
}

/// Whether a switch is needed to have `target_branch` checked out.
pub fn needs_checkout(current_branch: Option<&str>, target_branch: &str) -> (r: bool)
    ensures
        r == !(current_branch is Some && current_branch->Some_0@ == target_branch@),
{
    match current_branch {
        Some(c) => !str_eq(c, target_branch),
        None => true,
    }
}

/// The outcome when the target was already checked out.
pub fn already_checked_out() -> (o: CheckoutBranchOutcome)
    ensures
        o.status.is_success(),
        o.switched_from is None,
{
    CheckoutBranchOutcome { status: CommandStatus::success_status(), switched_from: None }
}

/// The outcome of a switch: it records the branch left only when the switch succeeded.
pub fn switched_outcome(current_branch: Option<String>, status: CommandStatus) -> (o: CheckoutBranchOutcome)
    ensures
        o.status == status,
        o.switched_from == if status.is_success() {
            current_branch
        } else {
            None
        },
{
    let switched_from = if status.success() {
        current_branch
    } else {
        None
    };
    CheckoutBranchOutcome { status, switched_from }
}

/// The outcome of switching back to the original branch.
pub fn restored_outcome(original_branch: &str, status: CommandStatus) -> (o: RestoreBranchOutcome)
    ensures
        o.status == status,
        o.restored_branch@ == original_branch@,
{
    RestoreBranchOutcome { status, restored_branch: crate::text::to_owned_string(original_branch) }
}

// ---------------------------------------------------------------------------
// Restacking, one action after another.
/// One rebase of a restack: a branch moved onto a new base, possibly under a new parent.
#[derive(Debug, Clone, PartialEq, Eq)]
pub struct RestackAction {
    pub branch_name: String,
    pub new_base_branch_name: String,
    pub new_parent: Option<ParentRef>,
}

impl RestackAction {
    /// A field-by-field copy.
    pub fn duplicate(&self) -> (r: RestackAction)
        ensures
            r == *self,
    {
        RestackAction {
            branch_name: self.branch_name.clone(),
            new_base_branch_name: self.new_base_branch_name.clone(),
            new_parent: self.new_parent,
        }
    }
}

/// How the tracked parent of a branch changed during a restack.
#[derive(Debug, Clone, PartialEq, Eq)]
pub struct RestackParentChange {
    pub branch_id: NodeId,
    pub branch_name: String,
    pub old_parent: ParentRef,
    pub new_parent: ParentRef,
    pub old_base_ref: String,
    pub new_base_ref: String,
}

/// What one restack action did.
#[derive(Debug, Clone, PartialEq, Eq)]
pub struct RestackActionOutcome {
    pub status: CommandStatus,
    pub stderr: String,
    pub branch_name: String,
    pub onto_branch: String,
    pub parent_change: Option<RestackParentChange>,
}

#[derive(Debug, Clone, PartialEq, Eq)]
pub struct RestackExecutionOutcome {
    pub status: CommandStatus,
    pub restacked_branches: Vec<RestackPreview>,
    pub failure_output: Option<String>,
}

/// The event that records a parent change made by a restack.
pub fn reparented_event(change: RestackParentChange, occurred_at: u64) -> (e: DigEvent)
    ensures
        e == DigEvent::BranchReparented(
            BranchReparentedEvent {
                occurred_at_unix_secs: occurred_at,
                branch_id: change.branch_id,
                branch_name: change.branch_name,
                old_parent: change.old_parent,
                new_parent: change.new_parent,
                old_base_ref: change.old_base_ref,
                new_base_ref: change.new_base_ref,
            },
        ),
{
    DigEvent::BranchReparented(
        BranchReparentedEvent {
            occurred_at_unix_secs: occurred_at,
            branch_id: change.branch_id,
            branch_name: change.branch_name,
            old_parent: change.old_parent,
            new_parent: change.new_parent,
            old_base_ref: change.old_base_ref,
            new_base_ref: change.new_base_ref,
        },
    )
}

/// What a restack reports while it runs.
#[derive(Debug, Clone, PartialEq, Eq)]
pub enum RestackExecutionEvent {
    Started(RestackAction),
    Progress { action: RestackAction, current_commit: usize, total_commits: usize },
    Completed(RestackAction),
}

/// One thing to do, in order, after a step of a restack: report an event, or record in the store
/// that a branch changed parent.
#[derive(Debug, Clone, PartialEq, Eq)]
pub enum RestackEffect {
    Report(RestackExecutionEvent),
    RecordReparent(RestackParentChange),
}

/// The outside work a restack does next.
#[derive(Debug, Clone, PartialEq, Eq)]
pub enum RestackCommand {
    /// Apply the action at this index (rebase the branch, and move it in the store if it changes parent).
    Apply(usize),
    /// The restack is over.
    Finish(RestackExecutionOutcome),
}

#[derive(Debug, Clone, PartialEq, Eq)]
pub struct RestackStep {
    pub effects: Vec<RestackEffect>,
    pub command: RestackCommand,
}

/// A restack under way: the branches restacked so far, the last status, and the next action.
#[derive(Debug, Clone, PartialEq, Eq)]
pub struct RestackRun {
    pub restacked_branches: Vec<RestackPreview>,
    pub last_status: CommandStatus,
    pub next_action: usize,
}

/// The preview that records a successful action.
pub open spec fn preview_of(action: RestackAction, outcome: RestackActionOutcome) -> (Seq<char>, Seq<char>, bool) {
    (outcome.branch_name@, outcome.onto_branch@, action.new_parent is Some)
}

pub open spec fn preview_v(p: RestackPreview) -> (Seq<char>, Seq<char>, bool) {
    (p.branch_name@, p.onto_branch@, p.parent_changed)
}

pub open spec fn previews_v(s: Seq<RestackPreview>) -> Seq<(Seq<char>, Seq<char>, bool)> {
    Seq::new(s.len(), |i: int| preview_v(s[i]))
}

/// `effects` and `command` announce the action at `i` when there is one, and else end the restack
/// with `status` and the branches restacked so far.
pub open spec fn announces(
    effects: Seq<RestackEffect>,
    command: RestackCommand,
    actions: Seq<RestackAction>,
    i: int,
    status: CommandStatus,
    restacked: Seq<RestackPreview>,
) -> bool {
    if i < actions.len() {
        &&& effects == seq![RestackEffect::Report(RestackExecutionEvent::Started(actions[i]))]
        &&& command == RestackCommand::Apply(i as usize)
    } else {
        &&& effects.len() == 0
        &&& command is Finish
        &&& command->Finish_0.status == status
        &&& previews_v(command->Finish_0.restacked_branches@) == previews_v(restacked)
        &&& command->Finish_0.failure_output is None
    }
}

/// One step of a restack, from `old` to `new`, on the outcome of the action at `old.next_action`.
pub open spec fn restack_step_spec(
    old: RestackRun,
    actions: Seq<RestackAction>,
    outcome: RestackActionOutcome,
    new: RestackRun,
    step: RestackStep,
) -> bool {
    &&& (!outcome.status.is_success() ==> new == old && step.effects@.len() == 0
                && step.command is Finish && step.command->Finish_0.status == outcome.status && previews_v(
                step.command->Finish_0.restacked_branches@,
            ) == previews_v(old.restacked_branches@) && step.command->Finish_0.failure_output
                == Some(outcome.stderr))
    &&& (outcome.status.is_success() ==> {
                let action = actions[old.next_action as int];
                let done = seq![RestackEffect::Report(RestackExecutionEvent::Completed(action))] + match outcome.parent_change {
                    Some(c) => seq![RestackEffect::RecordReparent(c)],
                    None => Seq::<RestackEffect>::empty(),
                };
                &&& new.next_action == old.next_action + 1
                &&& new.last_status == outcome.status
                &&& previews_v(new.restacked_branches@) == previews_v(old.restacked_branches@).push(
                    preview_of(action, outcome),
                )
                &&& step.effects@.len() >= done.len()
                &&& step.effects@.take(done.len() as int) == done
                &&& announces(
                    step.effects@.skip(done.len() as int),
                    step.command,
                    actions,
                    new.next_action as int,
                    new.last_status,
                    new.restacked_branches@,
                )
            })
}

/// A restack applies its actions in order and stops at the first failure: each step either ends the
/// restack (after a failed action, or after the last one) or moves on to exactly the next action;
/// a completed action is reported before its parent change is recorded and before the next action
/// is announced.
pub proof fn law_restack_runs_in_order(
    old: RestackRun,
    actions: Seq<RestackAction>,
    outcome: RestackActionOutcome,
    new: RestackRun,
    step: RestackStep,
)
    requires
        old.next_action < actions.len(),
        restack_step_spec(old, actions, outcome, new, step),
    ensures
        step.command is Apply ==> outcome.status.is_success() && new.next_action == old.next_action + 1
            && step.command->Apply_0 == new.next_action && new.next_action < actions.len(),
        step.command is Finish ==> !outcome.status.is_success() || new.next_action == actions.len(),
        outcome.status.is_success() ==> step.effects@[0] == RestackEffect::Report(
            RestackExecutionEvent::Completed(actions[old.next_action as int]),
        ),
        outcome.status.is_success() && outcome.parent_change is Some ==> step.effects@[1]
            == RestackEffect::RecordReparent(outcome.parent_change->Some_0),
{
    if outcome.status.is_success() {
        let action = actions[old.next_action as int];
        let done = seq![RestackEffect::Report(RestackExecutionEvent::Completed(action))] + match outcome.parent_change {
            Some(c) => seq![RestackEffect::RecordReparent(c)],
            None => Seq::<RestackEffect>::empty(),
        };
        assert(step.effects@[0] == step.effects@.take(done.len() as int)[0]);
        if outcome.parent_change is Some {
            assert(step.effects@[1] == step.effects@.take(done.len() as int)[1]);
        }
    }
}

fn copy_previews(v: &Vec<RestackPreview>) -> (r: Vec<RestackPreview>)
    ensures
        previews_v(r@) == previews_v(v@),
{
    let mut copy: Vec<RestackPreview> = Vec::new();
    let mut i: usize = 0;
    while i < v.len()
        invariant
            i <= v@.len(),
            copy@.len() == i,
            forall|k: int| 0 <= k < i ==> #[trigger] preview_v(copy@[k]) == preview_v(v@[k]),
        decreases v@.len() - i,
    {
        let p = &v[i];
        copy.push(
            RestackPreview {
                branch_name: p.branch_name.clone(),
                onto_branch: p.onto_branch.clone(),
                parent_changed: p.parent_changed,
            },
        );
        i = i + 1;
    }
    assert(previews_v(copy@) =~= previews_v(v@));
    copy
}

impl RestackRun {
    /// A restack before its first action, starting from a successful status.
    pub fn start(initial_status: CommandStatus) -> (r: RestackRun)
        requires
            initial_status.is_success(),
        ensures
            r.restacked_branches@.len() == 0,
            r.last_status == initial_status,
            r.next_action == 0,
    {
        RestackRun { restacked_branches: Vec::new(), last_status: initial_status, next_action: 0 }
    }

    fn announce(&self, actions: &Vec<RestackAction>) -> (step: RestackStep)
        ensures
            announces(step.effects@, step.command, actions@, self.next_action as int, self.last_status, self.restacked_branches@),
    {
        if self.next_action < actions.len() {
            let mut effects: Vec<RestackEffect> = Vec::new();
            effects.push(RestackEffect::Report(RestackExecutionEvent::Started(actions[self.next_action].duplicate())));
            assert(effects@ =~= seq![
                RestackEffect::Report(RestackExecutionEvent::Started(actions@[self.next_action as int])),
            ]);
            RestackStep { effects, command: RestackCommand::Apply(self.next_action) }
        } else {
            RestackStep {
                effects: Vec::new(),
                command: RestackCommand::Finish(
                    RestackExecutionOutcome {
                        status: self.last_status,
                        restacked_branches: copy_previews(&self.restacked_branches),
                        failure_output: None,
                    },
                ),
            }
        }
    }

    /// The first step of a restack: it announces the first action, or ends at once when there is none.
    pub fn begin(&self, actions: &Vec<RestackAction>) -> (step: RestackStep)
        requires
            self.next_action == 0,
        ensures
            announces(step.effects@, step.command, actions@, 0, self.last_status, self.restacked_branches@),
    {
        self.announce(actions)
    }

    /// Records what the action at `next_action` did. A failed action ends the restack with its status
    /// and error output, and the branches restacked before it. A successful one is reported
    /// completed, its parent change recorded, and added to the restacked branches; then the next
    /// action is announced, or the restack ends with this action's status.
    pub fn step(&mut self, actions: &Vec<RestackAction>, outcome: RestackActionOutcome) -> (step: RestackStep)
        requires
            old(self).next_action < actions@.len(),
        ensures
            restack_step_spec(*old(self), actions@, outcome, *final(self), step),
    {
        if !outcome.status.success() {
            return RestackStep {
                effects: Vec::new(),
                command: RestackCommand::Finish(
                    RestackExecutionOutcome {
                        status: outcome.status,
                        restacked_branches: copy_previews(&self.restacked_branches),
                        failure_output: Some(outcome.stderr),
                    },
                ),
            };
        }
        let ghost old_run = *self;
        let action = actions[self.next_action].duplicate();
        let ghost before = self.restacked_branches@;
        self.restacked_branches.push(
            RestackPreview {
                branch_name: outcome.branch_name.clone(),
                onto_branch: outcome.onto_branch.clone(),
                parent_changed: action.new_parent.is_some(),
            },
        );
        assert(previews_v(self.restacked_branches@) =~= previews_v(before).push(preview_of(action, outcome)));
        self.last_status = outcome.status;
        assert(actions.len() <= usize::MAX);
        self.next_action = self.next_action + 1;
        let mut effects: Vec<RestackEffect> = Vec::new();
        effects.push(RestackEffect::Report(RestackExecutionEvent::Completed(action)));
        match outcome.parent_change {
            Some(c) => effects.push(RestackEffect::RecordReparent(c)),
            None => {},
        }
        let ghost done = effects@;
        assert(done =~= seq![RestackEffect::Report(RestackExecutionEvent::Completed(action))] + match outcome.parent_change {
            Some(c) => seq![RestackEffect::RecordReparent(c)],
            None => Seq::<RestackEffect>::empty(),
        });
        let next = self.announce(actions);
        let mut rest = next.effects;
        effects.append(&mut rest);
        let step = RestackStep { effects, command: next.command };
        proof {
            assert(step.effects@.take(done.len() as int) =~= done);
            assert(step.effects@.skip(done.len() as int) =~= next.effects@);
        }
        step
    }
}

} // verus!
