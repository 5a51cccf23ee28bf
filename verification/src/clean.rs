//! `dig clean`: deleting merged or vanished tracked branches one by one, restacking what sat on them.
use vstd::prelude::*;

use crate::branch::RestoreBranchOutcome;
use crate::error::{message3, CommandStatus, DigError, ErrorKind};
use crate::render::{lemma_strs_push, strs_v, RestackPreview};
use crate::store::{
    first_active, named, spec_parent_branch_name, with_id, BranchArchiveReason, BranchNode, DigEvent, DigState,
    NodeId,
};
use crate::text::str_eq;
use crate::workflow::{preview_v, previews_v, CheckoutBranchOutcome};

verus! {

#[derive(Debug, Clone, PartialEq, Eq)]
pub struct CleanApplyOutcome {
    pub status: CommandStatus,
    pub switched_to_trunk_from: Option<String>,
    pub restored_original_branch: Option<String>,
    pub deleted_branches: Vec<String>,
    pub restacked_branches: Vec<RestackPreview>,
    pub failure_output: Option<String>,
    pub paused: bool,
}

/// The steps a clean reports while it runs.
#[derive(Debug, Clone, PartialEq, Eq)]
pub enum CleanEvent {
    SwitchingToTrunk { from_branch: String, to_branch: String },
    SwitchedToTrunk { from_branch: String, to_branch: String },
    RebaseStarted { branch_name: String, onto_branch: String },
    RebaseProgress {
        branch_name: String,
        onto_branch: String,
        current_commit: usize,
        total_commits: usize,
    },
    RebaseCompleted { branch_name: String, onto_branch: String },
    DeleteStarted { branch_name: String },
    DeleteCompleted { branch_name: String },
}

/// What the restack below one candidate came to; a paused restack waits for conflicts to be resolved.
#[derive(Debug, Clone, PartialEq, Eq)]
pub struct CandidateRestack {
    pub status: CommandStatus,
    pub restacked_branches: Vec<RestackPreview>,
    pub failure_output: Option<String>,
    pub paused: bool,
}

/// A successful clean that changed nothing.
pub open spec fn cleaned_nothing(o: CleanApplyOutcome) -> bool {
    &&& o.status.is_success()
    &&& o.switched_to_trunk_from is None
    &&& o.restored_original_branch is None
    &&& o.deleted_branches@.len() == 0
    &&& o.restacked_branches@.len() == 0
    &&& o.failure_output is None
    &&& !o.paused
}

/// The outcome of a clean that had nothing to do.
pub fn nothing_to_clean() -> (o: CleanApplyOutcome)
    ensures
        cleaned_nothing(o),
{
    CleanApplyOutcome {
        status: CommandStatus::success_status(),
        switched_to_trunk_from: None,
        restored_original_branch: None,
        deleted_branches: Vec::new(),
        restacked_branches: Vec::new(),
        failure_output: None,
        paused: false,
    }
}

/// Whether a clean has to leave the current branch first: one of its candidates is checked out,
/// and it is not trunk.
pub fn needs_trunk_switch(targets_current_branch: bool, current_branch: &str, trunk_branch: &str) -> (r: bool)
    ensures
        r == (targets_current_branch && current_branch@ != trunk_branch@),
{
    targets_current_branch && !str_eq(current_branch, trunk_branch)
}

/// The outcome of a clean that could not switch to trunk, with the failed switch's status.
pub open spec fn switch_failed(o: CleanApplyOutcome, status: CommandStatus) -> bool {
    &&& o.status == status
    &&& o.switched_to_trunk_from is None
    &&& o.restored_original_branch is None
    &&& o.deleted_branches@.len() == 0
    &&& o.restacked_branches@.len() == 0
    &&& o.failure_output is None
    &&& !o.paused
}

/// The outcome of a clean that could not switch to trunk.
pub fn trunk_switch_failed(status: CommandStatus) -> (o: CleanApplyOutcome)
    ensures
        switch_failed(o, status),
{
    CleanApplyOutcome {
        status,
        switched_to_trunk_from: None,
        restored_original_branch: None,
        deleted_branches: Vec::new(),
        restacked_branches: Vec::new(),
        failure_output: None,
        paused: false,
    }
}

/// The tracked node a clean candidate names, and the branch it is integrated into: its tracked parent,
/// or trunk. Gives back the node's id, its branch name and the parent branch's name.
pub fn clean_candidate(state: &DigState, trunk_branch: &str, branch_name: &str) -> (r: Result<
    (NodeId, String, String),
    DigError,
>)
    ensures
        match first_active(state.nodes@, named(branch_name@)) {
            None => r is Err && r->Err_0.kind == ErrorKind::NotFound && r->Err_0.message@
                == "tracked branch '"@ + branch_name@ + "' was not found"@,
            Some(i) => {
                let node = state.nodes@[i];
                match spec_parent_branch_name(state.nodes@, node, trunk_branch@) {
                    None => r is Err && r->Err_0.kind == ErrorKind::Other && r->Err_0.message@
                        == "tracked parent for '"@ + node.branch_name@ + "' is missing from dig"@,
                    Some(parent) => r is Ok && r->Ok_0.0 == node.id && r->Ok_0.1@ == node.branch_name@
                        && r->Ok_0.2@ == parent,
                }
            },
        },
{
    let node = match state.find_branch_by_name(branch_name) {
        None => {
            return Err(
                DigError::new(ErrorKind::NotFound, message3("tracked branch '", branch_name, "' was not found")),
            );
        },
        Some(n) => n,
    };
    match state.parent_branch_name(node, trunk_branch) {
        None => Err(
            DigError::new(
                ErrorKind::Other,
                message3("tracked parent for '", node.branch_name.as_str(), "' is missing from dig"),
            ),
        ),
        Some(parent) => Ok((node.id, node.branch_name.clone(), parent)),
    }
}

/// `e` records that the branch `name` (id `id`) was archived at `at` as integrated into `parent`.
pub open spec fn integrated_event(e: DigEvent, at: u64, id: NodeId, name: Seq<char>, parent: Seq<char>) -> bool {
    match e {
        DigEvent::BranchArchived(a) => a.occurred_at_unix_secs == at && a.branch_id == id && a.branch_name@ == name
            && match a.reason {
            BranchArchiveReason::IntegratedIntoParent { parent_branch } => parent_branch@ == parent,
            _ => false,
        },
        _ => false,
    }
}

/// Archives a deleted clean candidate as integrated into its parent, and gives back the event that
/// records it; the candidate is looked up as `clean_candidate` does.
pub fn archive_integrated(state: &mut DigState, trunk_branch: &str, branch_name: &str, occurred_at: u64) -> (r:
    Result<DigEvent, DigError>)
    ensures
        match first_active(old(state).nodes@, named(branch_name@)) {
            None => *final(state) == *old(state) && r is Err && r->Err_0.kind == ErrorKind::NotFound
                && r->Err_0.message@ == "tracked branch '"@ + branch_name@ + "' was not found"@,
            Some(i) => {
                let node = old(state).nodes@[i];
                match spec_parent_branch_name(old(state).nodes@, node, trunk_branch@) {
                    None => *final(state) == *old(state) && r is Err && r->Err_0.kind == ErrorKind::Other
                        && r->Err_0.message@ == "tracked parent for '"@ + node.branch_name@
                        + "' is missing from dig"@,
                    Some(parent) => {
                        let j = first_active(old(state).nodes@, with_id(node.id)).unwrap();
                        &&& first_active(old(state).nodes@, with_id(node.id)) is Some
                        &&& final(state).version == old(state).version
                        &&& final(state).nodes@ == old(state).nodes@.update(
                            j,
                            BranchNode { archived: true, ..old(state).nodes@[j] },
                        )
                        &&& r is Ok
                        &&& integrated_event(r->Ok_0, occurred_at, node.id, node.branch_name@, parent)
                    },
                }
            },
        },
{
    let (id, name, parent) = clean_candidate(state, trunk_branch, branch_name)?;
    proof {
        crate::store::lemma_first_active(state.nodes@, named(branch_name@));
        let i = first_active(state.nodes@, named(branch_name@)).unwrap();
        crate::store::lemma_first_active(state.nodes@, with_id(id));
        assert(with_id(id)(state.nodes@[i]));
    }
    state.record_archived(id, name, BranchArchiveReason::IntegratedIntoParent { parent_branch: parent }, occurred_at)
}

/// The branches a clean has deleted and restacked so far.
#[derive(Debug, Clone, PartialEq, Eq)]
pub struct CleanProgress {
    pub deleted_branches: Vec<String>,
    pub restacked_branches: Vec<RestackPreview>,
}

fn copy_strings(v: &Vec<String>) -> (r: Vec<String>)
    ensures
        r@ == v@,
{
    let mut r: Vec<String> = Vec::new();
    let mut i: usize = 0;
    while i < v.len()
        invariant
            i <= v@.len(),
            r@ == v@.take(i as int),
        decreases v@.len() - i,
    {
        r.push(v[i].clone());
        i = i + 1;
        assert(r@ =~= v@.take(i as int));
    }
    assert(v@.take(v@.len() as int) =~= v@);
    r
}

fn copy_previews(v: &Vec<RestackPreview>) -> (r: Vec<RestackPreview>)
    ensures
        previews_v(r@) == previews_v(v@),
{
    let mut r: Vec<RestackPreview> = Vec::new();
    let mut i: usize = 0;
    while i < v.len()
        invariant
            i <= v@.len(),
            r@.len() == i,
            forall|k: int| 0 <= k < i ==> #[trigger] preview_v(r@[k]) == preview_v(v@[k]),
        decreases v@.len() - i,
    {
        let p = &v[i];
        r.push(
            RestackPreview {
                branch_name: p.branch_name.clone(),
                onto_branch: p.onto_branch.clone(),
                parent_changed: p.parent_changed,
            },
        );
        i = i + 1;
    }
    assert(previews_v(r@) =~= previews_v(v@));
    r
}

/// `outcome` reports the progress so far, with the given status, failure output and pause flag.
pub open spec fn reports(
    o: CleanApplyOutcome,
    p: CleanProgress,
    status: CommandStatus,
    switched_to_trunk_from: Option<String>,
    failure_output: Option<String>,
    paused: bool,
) -> bool {
    &&& o.status == status
    &&& o.switched_to_trunk_from == switched_to_trunk_from
    &&& o.restored_original_branch is None
    &&& o.deleted_branches@ == p.deleted_branches@
    &&& previews_v(o.restacked_branches@) == previews_v(p.restacked_branches@)
    &&& o.failure_output == failure_output
    &&& o.paused == paused
}

/// `o` ends a clean whose candidates are all done: trunk was made current (`checkout`), then the
/// original branch restored if that was needed (`restore`).
pub open spec fn finishes(
    o: CleanApplyOutcome,
    p: CleanProgress,
    switched_to_trunk_from: Option<String>,
    original_branch: Seq<char>,
    trunk_branch: Seq<char>,
    last_status: CommandStatus,
    checkout: CheckoutBranchOutcome,
    restore: Option<RestoreBranchOutcome>,
) -> bool {
    &&& o.switched_to_trunk_from == switched_to_trunk_from
    &&& o.deleted_branches@ == p.deleted_branches@
    &&& previews_v(o.restacked_branches@) == previews_v(p.restacked_branches@)
    &&& o.failure_output is None
    &&& !o.paused
    &&& (checkout.switched_from is Some && !checkout.status.is_success() ==> o.status == checkout.status
        && o.restored_original_branch is None)
    &&& (!(checkout.switched_from is Some && !checkout.status.is_success()) ==> match restore {
        Some(r) => if r.status.is_success() {
            o.status == r.status && o.restored_original_branch == Some(r.restored_branch)
        } else {
            o.status == r.status && o.restored_original_branch is None
        },
        None => o.status == (if checkout.switched_from is Some {
            checkout.status
        } else {
            last_status
        }) && o.restored_original_branch is Some == (original_branch == trunk_branch
            && checkout.switched_from is Some) && (o.restored_original_branch is Some
            ==> o.restored_original_branch->Some_0@ == original_branch),
    })
}

impl CleanProgress {
    pub fn start() -> (p: CleanProgress)
        ensures
            p.deleted_branches@.len() == 0,
            p.restacked_branches@.len() == 0,
    {
        CleanProgress { deleted_branches: Vec::new(), restacked_branches: Vec::new() }
    }

    fn report(
        &self,
        status: CommandStatus,
        switched_to_trunk_from: Option<String>,
        failure_output: Option<String>,
        paused: bool,
    ) -> (o: CleanApplyOutcome)
        ensures
            reports(o, *self, status, switched_to_trunk_from, failure_output, paused),
    {
        CleanApplyOutcome {
            status,
            switched_to_trunk_from,
            restored_original_branch: None,
            deleted_branches: copy_strings(&self.deleted_branches),
            restacked_branches: copy_previews(&self.restacked_branches),
            failure_output,
            paused,
        }
    }

    /// Records the restack below a candidate; a paused restack stops the clean.
    pub fn after_candidate_restack(&mut self, switched_to_trunk_from: Option<String>, restack: CandidateRestack) -> (stop:
        Option<CleanApplyOutcome>)
        ensures
            final(self).deleted_branches == old(self).deleted_branches,
            previews_v(final(self).restacked_branches@) == previews_v(old(self).restacked_branches@)
                + previews_v(restack.restacked_branches@),
            restack.paused ==> stop is Some && reports(
                stop->Some_0,
                *final(self),
                restack.status,
                switched_to_trunk_from,
                restack.failure_output,
                true,
            ),
            !restack.paused ==> stop is None,
    {
        let ghost before = self.restacked_branches@;
        let mut i: usize = 0;
        while i < restack.restacked_branches.len()
            invariant
                i <= restack.restacked_branches@.len(),
                self.deleted_branches == old(self).deleted_branches,
                previews_v(self.restacked_branches@) == previews_v(before) + previews_v(
                    restack.restacked_branches@.take(i as int),
                ),
            decreases restack.restacked_branches@.len() - i,
        {
            let p = &restack.restacked_branches[i];
            let ghost mid = self.restacked_branches@;
            self.restacked_branches.push(
                RestackPreview {
                    branch_name: p.branch_name.clone(),
                    onto_branch: p.onto_branch.clone(),
                    parent_changed: p.parent_changed,
                },
            );
            proof {
                assert(previews_v(self.restacked_branches@) =~= previews_v(mid).push(preview_v(*p)));
                assert(previews_v(restack.restacked_branches@.take(i as int + 1)) =~= previews_v(
                    restack.restacked_branches@.take(i as int),
                ).push(preview_v(*p)));
            }
            i = i + 1;
        }
        assert(restack.restacked_branches@.take(restack.restacked_branches@.len() as int)
            =~= restack.restacked_branches@);
        if restack.paused {
            return Some(self.report(restack.status, switched_to_trunk_from, restack.failure_output, true));
        }
        None
    }

    /// Records the deletion of a candidate; a failed deletion stops the clean.
    pub fn after_candidate_delete(
        &mut self,
        switched_to_trunk_from: Option<String>,
        branch_name: String,
        status: CommandStatus,
    ) -> (stop: Option<CleanApplyOutcome>)
        ensures
            final(self).restacked_branches == old(self).restacked_branches,
            status.is_success() ==> stop is None && final(self).deleted_branches@ == old(
                self,
            ).deleted_branches@.push(branch_name),
            !status.is_success() ==> *final(self) == *old(self) && stop is Some && reports(
                stop->Some_0,
                *old(self),
                status,
                switched_to_trunk_from,
                None,
                false,
            ),
    {
        if !status.success() {
            return Some(self.report(status, switched_to_trunk_from, None, false));
        }
        self.deleted_branches.push(branch_name);
        None
    }

    /// The outcome once every candidate is done: trunk is checked out again, then the original branch
    /// if it still exists. `checkout` is what making sure trunk is checked out came to; `restore` what
    /// switching back to the original branch came to, if that was needed.
    pub fn finish(
        &self,
        switched_to_trunk_from: Option<String>,
        original_branch: &str,
        trunk_branch: &str,
        last_status: CommandStatus,
        checkout: CheckoutBranchOutcome,
        restore: Option<RestoreBranchOutcome>,
    ) -> (o: CleanApplyOutcome)
        ensures
            finishes(o, *self, switched_to_trunk_from, original_branch@, trunk_branch@, last_status, checkout, restore),
    {
        let mut status = last_status;
        if checkout.switched_from.is_some() {
            if !checkout.status.success() {
                return CleanApplyOutcome {
                    status: checkout.status,
                    switched_to_trunk_from,
                    restored_original_branch: None,
                    deleted_branches: copy_strings(&self.deleted_branches),
                    restacked_branches: copy_previews(&self.restacked_branches),
                    failure_output: None,
                    paused: false,
                };
            }
            status = checkout.status;
        }
        let mut restored_original_branch: Option<String> = None;
        match restore {
            Some(r) => {
                if !r.status.success() {
                    return CleanApplyOutcome {
                        status: r.status,
                        switched_to_trunk_from,
                        restored_original_branch: None,
                        deleted_branches: copy_strings(&self.deleted_branches),
                        restacked_branches: copy_previews(&self.restacked_branches),
                        failure_output: None,
                        paused: false,
                    };
                }
                restored_original_branch = Some(r.restored_branch);
                status = r.status;
            },
            None => {
                if str_eq(original_branch, trunk_branch) && checkout.switched_from.is_some() {
                    restored_original_branch = Some(crate::text::to_owned_string(original_branch));
                }
            },
        }
        CleanApplyOutcome {
            status,
            switched_to_trunk_from,
            restored_original_branch,
            deleted_branches: copy_strings(&self.deleted_branches),
            restacked_branches: copy_previews(&self.restacked_branches),
            failure_output: None,
            paused: false,
        }
    }
}

// ---------------------------------------------------------------------------
// Running a clean, step by step.
/// Where a running clean stands.
#[derive(Debug, Clone, PartialEq, Eq)]
pub enum CleanState {
    /// Waiting for the repository to be checked and the current branch read.
    Ready,
    /// Switching from `from_branch` to trunk.
    SwitchingToTrunk { from_branch: String },
    /// Restacking what sits on the candidate at `index`.
    Restacking { index: usize },
    /// Deleting the candidate at `index`.
    Deleting { index: usize },
    /// Making sure trunk is checked out after the last candidate.
    ReturningToTrunk,
    /// Switching back to the original branch, if needed; `checkout` is what the return to trunk came to.
    Restoring { checkout: CheckoutBranchOutcome },
    Finished,
}

/// What the outside work of the last command gave back.
#[derive(Debug, Clone, PartialEq, Eq)]
pub enum CleanInput {
    Begin { current_branch: String },
    CheckedOut(CheckoutBranchOutcome),
    Restacked(CandidateRestack),
    Deleted { status: CommandStatus },
    Restored(Option<RestoreBranchOutcome>),
}

/// The outside work to do next.
#[derive(Debug, Clone, PartialEq, Eq)]
pub enum CleanCommand {
    /// Check that the repository is ready and read the current branch.
    Prepare,
    /// Check trunk out.
    SwitchToTrunk,
    /// Restack what sits on `branch_name` onto its parent (with `remaining` recorded for a resume);
    /// `continue_paused` asks to continue the restack that paused instead of starting one.
    Restack { branch_name: String, remaining: Vec<String>, continue_paused: bool },
    /// Delete `branch_name` in git and, when git deleted it, archive it as integrated into its parent
    /// (`archive_integrated`); `announce` asks to report `DeleteStarted` and, after archiving, `DeleteCompleted`.
    Delete { branch_name: String, announce: bool },
    /// Check trunk out if it is not the current branch.
    ReturnToTrunk,
    /// Switch back to the original branch if it still exists and is not current.
    RestoreOriginal,
    /// The clean is over.
    Finish(CleanApplyOutcome),
}

#[derive(Debug, Clone, PartialEq, Eq)]
pub struct CleanStep {
    pub events: Vec<CleanEvent>,
    pub command: CleanCommand,
}

/// A clean under way.
pub struct CleanRun {
    pub trunk_branch: String,
    pub original_branch: String,
    /// The branches to delete, in order.
    pub candidates: Vec<String>,
    pub targets_current_branch: bool,
    /// Whether steps report events (a resumed clean reports none).
    pub reporting: bool,
    /// Whether the first candidate's restack was paused and is being continued; its deletion is then
    /// counted whatever git answered.
    pub resumed: bool,
    pub switched_to_trunk_from: Option<String>,
    pub progress: CleanProgress,
    pub last_status: CommandStatus,
    pub state: CleanState,
    /// The branches deleted before this run started (by the run that paused).
    pub earlier_deleted: Ghost<Seq<Seq<char>>>,
}

/// Which inputs each state waits for.
pub open spec fn clean_input_expected(state: CleanState, input: CleanInput) -> bool {
    match state {
        CleanState::Ready => input is Begin,
        CleanState::SwitchingToTrunk { .. } => input is CheckedOut,
        CleanState::Restacking { .. } => input is Restacked,
        CleanState::Deleting { .. } => input is Deleted,
        CleanState::ReturningToTrunk => input is CheckedOut,
        CleanState::Restoring { .. } => input is Restored,
        CleanState::Finished => false,
    }
}

/// How many candidates a run in this state has deleted.
pub open spec fn candidates_done(run: CleanRun) -> int {
    match run.state {
        CleanState::Restacking { index } => index as int,
        CleanState::Deleting { index } => index as int,
        CleanState::ReturningToTrunk => run.candidates@.len() as int,
        CleanState::Restoring { .. } => run.candidates@.len() as int,
        _ => 0,
    }
}

/// What holds of a clean between steps: the branches deleted are the earlier ones, then the
/// candidates done so far, in order.
pub open spec fn clean_inv(run: CleanRun) -> bool {
    &&& run.candidates@.len() <= usize::MAX
    &&& (run.state is Ready || run.state is SwitchingToTrunk) ==> run.candidates@.len() > 0
    &&& (run.state matches CleanState::Restacking { index } ==> index < run.candidates@.len())
    &&& (run.state matches CleanState::Deleting { index } ==> index < run.candidates@.len())
    &&& run.state !is Finished ==> strs_v(run.progress.deleted_branches@) == run.earlier_deleted@ + strs_v(
        run.candidates@,
    ).take(candidates_done(run))
}

/// `step` restacks the candidate at `i`.
pub open spec fn restacks(step: CleanStep, run: CleanRun, i: int, continue_paused: bool) -> bool {
    &&& step.command matches CleanCommand::Restack { branch_name, remaining, continue_paused: c } && branch_name@
        == run.candidates@[i]@ && strs_v(remaining@) == strs_v(run.candidates@).skip(i + 1) && c
        == continue_paused
    &&& run.state == CleanState::Restacking { index: i as usize }
}

/// `step` ends the clean with `o`.
pub open spec fn ends_with(step: CleanStep, o: CleanApplyOutcome) -> bool {
    step.command == CleanCommand::Finish(o)
}

impl CleanRun {
    /// A clean of `candidates`, in order; nothing to do when there are none.
    pub fn new(trunk_branch: String, candidates: Vec<String>, targets_current_branch: bool) -> (r: (
        CleanRun,
        CleanStep,
    ))
        ensures
            clean_inv(r.0),
            r.0.trunk_branch == trunk_branch,
            r.0.candidates == candidates,
            r.0.reporting,
            !r.0.resumed,
            r.0.earlier_deleted@.len() == 0,
            r.1.events@.len() == 0,
            candidates@.len() == 0 ==> r.0.state == CleanState::Finished && r.1.command is Finish
                && cleaned_nothing(r.1.command->Finish_0),
            candidates@.len() > 0 ==> r.0.state == CleanState::Ready && r.1.command == CleanCommand::Prepare,
    {
        let empty = candidates.len() == 0;
        assert(candidates.len() <= usize::MAX);
        let mut run = CleanRun {
            trunk_branch,
            original_branch: String::new(),
            candidates,
            targets_current_branch,
            reporting: true,
            resumed: false,
            switched_to_trunk_from: None,
            progress: CleanProgress::start(),
            last_status: CommandStatus::success_status(),
            state: CleanState::Ready,
            earlier_deleted: Ghost(Seq::empty()),
        };
        if empty {
            run.state = CleanState::Finished;
            let o = nothing_to_clean();
            return (run, CleanStep { events: Vec::new(), command: CleanCommand::Finish(o) });
        }
        assert(strs_v(run.progress.deleted_branches@) =~= run.earlier_deleted@ + strs_v(run.candidates@).take(0));
        (run, CleanStep { events: Vec::new(), command: CleanCommand::Prepare })
    }

    /// A clean that continues after its restack below `current` paused: that restack is continued
    /// first, then `current` and the `remaining` candidates are deleted in order. Nothing is reported.
    pub fn resumed(
        trunk_branch: String,
        original_branch: String,
        switched_to_trunk_from: Option<String>,
        current: String,
        remaining: Vec<String>,
        deleted_branches: Vec<String>,
        restacked_branches: Vec<RestackPreview>,
    ) -> (r: (CleanRun, CleanStep))
        ensures
            clean_inv(r.0),
            r.0.earlier_deleted@ == strs_v(deleted_branches@),
            strs_v(r.0.candidates@) == seq![current@] + strs_v(remaining@),
            r.0.progress.deleted_branches == deleted_branches,
            r.0.progress.restacked_branches == restacked_branches,
            r.0.trunk_branch == trunk_branch,
            r.0.original_branch == original_branch,
            r.0.switched_to_trunk_from == switched_to_trunk_from,
            !r.0.reporting,
            r.0.resumed,
            r.1.events@.len() == 0,
            restacks(r.1, r.0, 0, true),
    {
        let mut candidates: Vec<String> = Vec::new();
        candidates.push(current);
        let mut i: usize = 0;
        while i < remaining.len()
            invariant
                i <= remaining@.len(),
                strs_v(candidates@) == seq![current@] + strs_v(remaining@).take(i as int),
            decreases remaining@.len() - i,
        {
            let ghost before = candidates@;
            candidates.push(remaining[i].clone());
            proof {
                lemma_strs_push(before, remaining@[i as int]);
                assert(strs_v(remaining@).take(i as int + 1) =~= strs_v(remaining@).take(i as int).push(
                    remaining@[i as int]@,
                ));
            }
            i = i + 1;
        }
        assert(strs_v(remaining@).take(remaining@.len() as int) =~= strs_v(remaining@));
        assert(candidates.len() <= usize::MAX);
        let ghost earlier = strs_v(deleted_branches@);
        let run = CleanRun {
            trunk_branch,
            original_branch,
            candidates,
            targets_current_branch: false,
            reporting: false,
            resumed: true,
            switched_to_trunk_from,
            progress: CleanProgress { deleted_branches, restacked_branches },
            last_status: CommandStatus::success_status(),
            state: CleanState::Restacking { index: 0 },
            earlier_deleted: Ghost(earlier),
        };
        assert(strs_v(run.progress.deleted_branches@) =~= run.earlier_deleted@ + strs_v(run.candidates@).take(0));
        let step = run.restack_step(0, true);
        (run, step)
    }

    /// The command that restacks the candidate at `i`.
    fn restack_step(&self, i: usize, continue_paused: bool) -> (step: CleanStep)
        requires
            i < self.candidates@.len(),
            self.state == (CleanState::Restacking { index: i }),
        ensures
            step.events@.len() == 0,
            restacks(step, *self, i as int, continue_paused),
    {
        let mut remaining: Vec<String> = Vec::new();
        assert(self.candidates.len() <= usize::MAX);
        let mut k: usize = i + 1;
        let ghost cs = strs_v(self.candidates@);
        while k < self.candidates.len()
            invariant
                i < k <= self.candidates@.len(),
                cs == strs_v(self.candidates@),
                strs_v(remaining@) == cs.subrange(i as int + 1, k as int),
            decreases self.candidates@.len() - k,
        {
            let ghost before = remaining@;
            remaining.push(self.candidates[k].clone());
            proof {
                lemma_strs_push(before, self.candidates@[k as int]);
                assert(cs.subrange(i as int + 1, k as int + 1) =~= cs.subrange(i as int + 1, k as int).push(
                    cs[k as int],
                ));
            }
            k = k + 1;
        }
        assert(cs.subrange(i as int + 1, cs.len() as int) =~= cs.skip(i as int + 1));
        CleanStep {
            events: Vec::new(),
            command: CleanCommand::Restack {
                branch_name: self.candidates[i].clone(),
                remaining,
                continue_paused,
            },
        }
    }
}

/// What a step leaves alone: the clean's setup.
pub open spec fn same_setup(a: CleanRun, b: CleanRun) -> bool {
    &&& a.trunk_branch == b.trunk_branch
    &&& a.candidates == b.candidates
    &&& a.targets_current_branch == b.targets_current_branch
    &&& a.reporting == b.reporting
    &&& a.resumed == b.resumed
    &&& a.earlier_deleted == b.earlier_deleted
}

/// The events a step reports: `e` when the run reports events, else none.
pub open spec fn reported(run: CleanRun, events: Seq<CleanEvent>, e: CleanEvent) -> bool {
    events == if run.reporting {
        seq![e]
    } else {
        Seq::<CleanEvent>::empty()
    }
}

/// After the deletion of the candidate at `i`: the next candidate's restack, or the return to trunk.
pub open spec fn moves_past(step: CleanStep, new: CleanRun, i: int) -> bool {
    if i + 1 < new.candidates@.len() {
        restacks(step, new, i + 1, false)
    } else {
        new.state == CleanState::ReturningToTrunk && step.command == CleanCommand::ReturnToTrunk
    }
}

/// The step a clean takes from `old` on `input`, to `new`.
pub open spec fn clean_step_spec(old: CleanRun, input: CleanInput, new: CleanRun, step: CleanStep) -> bool {
    &&& same_setup(old, new)
    &&& match (old.state, input) {
        (CleanState::Ready, CleanInput::Begin { current_branch }) => {
            &&& new.original_branch == current_branch
            &&& new.progress == old.progress
            &&& new.last_status == old.last_status
            &&& new.switched_to_trunk_from == old.switched_to_trunk_from
            &&& if old.targets_current_branch && current_branch@ != old.trunk_branch@ {
                &&& reported(
                    old,
                    step.events@,
                    CleanEvent::SwitchingToTrunk { from_branch: current_branch, to_branch: old.trunk_branch },
                )
                &&& step.command == CleanCommand::SwitchToTrunk
                &&& new.state == CleanState::SwitchingToTrunk { from_branch: current_branch }
            } else {
                step.events@.len() == 0 && restacks(step, new, 0, false)
            }
        },
        (CleanState::SwitchingToTrunk { from_branch }, CleanInput::CheckedOut(o)) => {
            &&& new.original_branch == old.original_branch
            &&& new.progress == old.progress
            &&& new.last_status == old.last_status
            &&& if !o.status.is_success() {
                &&& new.state == CleanState::Finished
                &&& new.switched_to_trunk_from == old.switched_to_trunk_from
                &&& step.events@.len() == 0
                &&& step.command is Finish
                &&& switch_failed(step.command->Finish_0, o.status)
            } else {
                &&& reported(
                    old,
                    step.events@,
                    CleanEvent::SwitchedToTrunk { from_branch, to_branch: old.trunk_branch },
                )
                &&& new.switched_to_trunk_from == o.switched_from
                &&& restacks(step, new, 0, false)
            }
        },
        (CleanState::Restacking { index }, CleanInput::Restacked(r)) => {
            &&& new.original_branch == old.original_branch
            &&& new.switched_to_trunk_from == old.switched_to_trunk_from
            &&& new.progress.deleted_branches == old.progress.deleted_branches
            &&& previews_v(new.progress.restacked_branches@) == previews_v(old.progress.restacked_branches@)
                + previews_v(r.restacked_branches@)
            &&& step.events@.len() == 0
            &&& if r.paused {
                &&& new.state == CleanState::Finished
                &&& new.last_status == old.last_status
                &&& step.command is Finish
                &&& reports(
                    step.command->Finish_0,
                    new.progress,
                    r.status,
                    old.switched_to_trunk_from,
                    r.failure_output,
                    true,
                )
            } else {
                &&& new.last_status == if old.resumed && index == 0 {
                    r.status
                } else {
                    old.last_status
                }
                &&& new.state == CleanState::Deleting { index }
                &&& step.command matches CleanCommand::Delete { branch_name, announce } && branch_name
                    == old.candidates@[index as int] && announce == old.reporting
            }
        },
        (CleanState::Deleting { index }, CleanInput::Deleted { status }) => {
            &&& new.original_branch == old.original_branch
            &&& new.switched_to_trunk_from == old.switched_to_trunk_from
            &&& new.progress.restacked_branches == old.progress.restacked_branches
            &&& if !(status.is_success() || (old.resumed && index == 0)) {
                &&& new.state == CleanState::Finished
                &&& new.progress == old.progress
                &&& new.last_status == old.last_status
                &&& step.events@.len() == 0
                &&& step.command is Finish
                &&& reports(step.command->Finish_0, old.progress, status, old.switched_to_trunk_from, None, false)
            } else {
                let name = old.candidates@[index as int];
                &&& new.progress.deleted_branches@ == old.progress.deleted_branches@.push(name)
                &&& new.last_status == if old.resumed {
                    old.last_status
                } else {
                    CommandStatus { code: Some(0) }
                }
                &&& reported(old, step.events@, CleanEvent::DeleteCompleted { branch_name: name })
                &&& moves_past(step, new, index as int)
            }
        },
        (CleanState::ReturningToTrunk, CleanInput::CheckedOut(o)) => {
            &&& new.original_branch == old.original_branch
            &&& new.switched_to_trunk_from == old.switched_to_trunk_from
            &&& new.progress == old.progress
            &&& new.last_status == old.last_status
            &&& step.events@.len() == 0
            &&& if o.switched_from is Some && !o.status.is_success() {
                &&& new.state == CleanState::Finished
                &&& step.command is Finish
                &&& finishes(
                    step.command->Finish_0,
                    old.progress,
                    old.switched_to_trunk_from,
                    old.original_branch@,
                    old.trunk_branch@,
                    old.last_status,
                    o,
                    None,
                )
            } else {
                new.state == (CleanState::Restoring { checkout: o }) && step.command == CleanCommand::RestoreOriginal
            }
        },
        (CleanState::Restoring { checkout }, CleanInput::Restored(restore)) => {
            &&& new.original_branch == old.original_branch
            &&& new.switched_to_trunk_from == old.switched_to_trunk_from
            &&& new.progress == old.progress
            &&& new.last_status == old.last_status
            &&& new.state == CleanState::Finished
            &&& step.events@.len() == 0
            &&& step.command is Finish
            &&& finishes(
                step.command->Finish_0,
                old.progress,
                old.switched_to_trunk_from,
                old.original_branch@,
                old.trunk_branch@,
                old.last_status,
                checkout,
                restore,
            )
        },
        _ => false,
    }
}

/// A clean never goes on after a failure: when the switch to trunk fails it ends with that status,
/// having restacked and deleted nothing; a paused restack and a failed deletion end it too. It
/// restacks a candidate only once it is on trunk or needs no switch, or right after the previous
/// candidate was deleted, and deletes a candidate only after the restack below it finished.
pub proof fn law_clean_stops_at_failures(old_run: CleanRun, input: CleanInput, new_run: CleanRun, step: CleanStep)
    requires
        clean_step_spec(old_run, input, new_run, step),
    ensures
        old_run.state is SwitchingToTrunk && input is CheckedOut && !input->CheckedOut_0.status.is_success() ==> {
            &&& step.command is Finish
            &&& step.command->Finish_0.status == input->CheckedOut_0.status
            &&& step.command->Finish_0.deleted_branches@.len() == 0
            &&& step.command->Finish_0.restacked_branches@.len() == 0
            &&& step.command->Finish_0.switched_to_trunk_from is None
            &&& !step.command->Finish_0.paused
            &&& new_run.state is Finished
        },
        step.command is Restack ==> (old_run.state is Ready && input is Begin && !(old_run.targets_current_branch
            && input->Begin_current_branch@ != old_run.trunk_branch@)) || (old_run.state is SwitchingToTrunk
            && input is CheckedOut && input->CheckedOut_0.status.is_success()) || (old_run.state is Deleting
            && input is Deleted && (input->Deleted_status.is_success() || old_run.resumed)),
        step.command is Delete ==> old_run.state is Restacking && input is Restacked && !input->Restacked_0.paused,
        old_run.state is Restacking && input is Restacked && input->Restacked_0.paused ==> step.command is Finish
            && step.command->Finish_0.paused && step.command->Finish_0.status == input->Restacked_0.status
            && new_run.state is Finished,
        old_run.state is Deleting && input is Deleted && !input->Deleted_status.is_success() && !old_run.resumed
            ==> step.command is Finish && step.command->Finish_0.status == input->Deleted_status
            && strs_v(step.command->Finish_0.deleted_branches@) == strs_v(old_run.progress.deleted_branches@)
            && new_run.state is Finished,
{
}

/// A clean leaves the current branch only when it has to: it switches to trunk exactly when it
/// was asked to clean the current branch and that branch is not trunk, and a successful switch is
/// remembered as the branch the clean left.
pub proof fn law_clean_switches_only_when_needed(old_run: CleanRun, input: CleanInput, new_run: CleanRun, step: CleanStep)
    requires
        clean_step_spec(old_run, input, new_run, step),
    ensures
        old_run.state is Ready ==> (step.command is SwitchToTrunk <==> old_run.targets_current_branch
            && input->Begin_current_branch@ != old_run.trunk_branch@),
        old_run.state is Ready ==> new_run.original_branch == input->Begin_current_branch,
        old_run.state is SwitchingToTrunk && input->CheckedOut_0.status.is_success() ==> new_run.switched_to_trunk_from
            == input->CheckedOut_0.switched_from,
{
}

/// How many steps a clean in this state takes at most before it is over.
pub open spec fn clean_steps_left(run: CleanRun) -> int {
    let n = run.candidates@.len() as int;
    match run.state {
        CleanState::Ready => 2 * n + 4,
        CleanState::SwitchingToTrunk { .. } => 2 * n + 3,
        CleanState::Restacking { index } => 2 * (n - index) + 2,
        CleanState::Deleting { index } => 2 * (n - index) + 1,
        CleanState::ReturningToTrunk => 2,
        CleanState::Restoring { .. } => 1,
        CleanState::Finished => 0,
    }
}

/// A clean deletes its candidates in order after the ones deleted before it, and always ends: every
/// step moves closer to the end, hands out an outcome exactly when it ends, and keeps the
/// deleted branches equal to the earlier deletions followed by the candidates done so far, and a
/// clean that gets through all its candidates reports the earlier deletions, then every candidate,
/// in order (for a resumed clean: the earlier ones, then the branch whose restack paused, then the
/// remaining ones).
pub proof fn law_clean_deletes_in_order(old: CleanRun, input: CleanInput, new: CleanRun, step: CleanStep)
    requires
        clean_inv(old),
        clean_step_spec(old, input, new, step),
    ensures
        clean_inv(new),
        0 <= clean_steps_left(new) < clean_steps_left(old),
        step.command is Finish <==> new.state is Finished,
        step.command is Finish && (old.state is ReturningToTrunk || old.state is Restoring) ==> strs_v(
            step.command->Finish_0.deleted_branches@,
        ) == old.earlier_deleted@ + strs_v(old.candidates@),
{
    let cs = strs_v(old.candidates@);
    let e = old.earlier_deleted@;
    match (old.state, input) {
        (CleanState::Ready, CleanInput::Begin { .. }) => {
            assert(candidates_done(new) == 0);
        },
        (CleanState::SwitchingToTrunk { .. }, CleanInput::CheckedOut(_)) => {
            assert(new.state !is Finished ==> candidates_done(new) == 0);
        },
        (CleanState::Restacking { index }, CleanInput::Restacked(r)) => {
            assert(new.state !is Finished ==> candidates_done(new) == index);
        },
        (CleanState::Deleting { index }, CleanInput::Deleted { status }) => {
            if status.is_success() || (old.resumed && index == 0) {
                let name = old.candidates@[index as int];
                lemma_strs_push(old.progress.deleted_branches@, name);
                assert(cs.take(index as int + 1) =~= cs.take(index as int).push(name@));
                assert(e + cs.take(index as int + 1) =~= (e + cs.take(index as int)).push(name@));
                assert(candidates_done(new) == index + 1);
            }
        },
        (CleanState::ReturningToTrunk, CleanInput::CheckedOut(o)) => {
            assert(cs.take(cs.len() as int) =~= cs);
            assert(new.state !is Finished ==> candidates_done(new) == cs.len());
        },
        (CleanState::Restoring { .. }, CleanInput::Restored(_)) => {
            assert(cs.take(cs.len() as int) =~= cs);
        },
        _ => {},
    }
}

impl CleanRun {
    fn copy_checkout(o: &CheckoutBranchOutcome) -> (r: CheckoutBranchOutcome)
        ensures
            r == *o,
    {
        CheckoutBranchOutcome {
            status: o.status,
            switched_from: match &o.switched_from {
                Some(b) => Some(b.clone()),
                None => None,
            },
        }
    }

    /// Decides the next step of a clean from what the last command gave back.
    pub fn step(&mut self, input: CleanInput) -> (step: CleanStep)
        requires
            clean_inv(*old(self)),
            clean_input_expected(old(self).state, input),
        ensures
            clean_step_spec(*old(self), input, *final(self), step),
            clean_inv(*final(self)),
            old(self).state is SwitchingToTrunk && input is CheckedOut && !input->CheckedOut_0.status.is_success() ==> {
                &&& step.command is Finish
                &&& step.command->Finish_0.status == input->CheckedOut_0.status
                &&& step.command->Finish_0.deleted_branches@.len() == 0
                &&& step.command->Finish_0.restacked_branches@.len() == 0
                &&& step.command->Finish_0.switched_to_trunk_from is None
                &&& !step.command->Finish_0.paused
                &&& final(self).state is Finished
            },
            step.command is Restack ==> (old(self).state is Ready && input is Begin && !(old(self).targets_current_branch
                && input->Begin_current_branch@ != old(self).trunk_branch@)) || (old(self).state is SwitchingToTrunk
                && input is CheckedOut && input->CheckedOut_0.status.is_success()) || (old(self).state is Deleting
                && input is Deleted && (input->Deleted_status.is_success() || old(self).resumed)),
            step.command is Delete ==> old(self).state is Restacking && input is Restacked && !input->Restacked_0.paused,
            old(self).state is Restacking && input is Restacked && input->Restacked_0.paused ==> step.command is Finish
                && step.command->Finish_0.paused && step.command->Finish_0.status == input->Restacked_0.status
                && final(self).state is Finished,
            old(self).state is Deleting && input is Deleted && !input->Deleted_status.is_success() && !old(self).resumed
                ==> step.command is Finish && step.command->Finish_0.status == input->Deleted_status
                && strs_v(step.command->Finish_0.deleted_branches@) == strs_v(old(self).progress.deleted_branches@)
                && final(self).state is Finished,
    {
        let ghost old_run = *self;
        let ghost input_g = input;
        let step = match input {
            CleanInput::Begin { current_branch } => {
                self.original_branch = current_branch.clone();
                if self.targets_current_branch && !str_eq(current_branch.as_str(), self.trunk_branch.as_str()) {
                    let mut events: Vec<CleanEvent> = Vec::new();
                    if self.reporting {
                        events.push(
                            CleanEvent::SwitchingToTrunk {
                                from_branch: current_branch.clone(),
                                to_branch: self.trunk_branch.clone(),
                            },
                        );
                    }
                    self.state = CleanState::SwitchingToTrunk { from_branch: current_branch };
                    CleanStep { events, command: CleanCommand::SwitchToTrunk }
                } else {
                    self.state = CleanState::Restacking { index: 0 };
                    self.restack_step(0, false)
                }
            },
            CleanInput::CheckedOut(o) => {
                match &self.state {
                    CleanState::SwitchingToTrunk { from_branch } => {
                        if !o.status.success() {
                            self.state = CleanState::Finished;
                            CleanStep { events: Vec::new(), command: CleanCommand::Finish(trunk_switch_failed(o.status)) }
                        } else {
                            let mut events: Vec<CleanEvent> = Vec::new();
                            if self.reporting {
                                events.push(
                                    CleanEvent::SwitchedToTrunk {
                                        from_branch: from_branch.clone(),
                                        to_branch: self.trunk_branch.clone(),
                                    },
                                );
                            }
                            self.switched_to_trunk_from = o.switched_from;
                            self.state = CleanState::Restacking { index: 0 };
                            let s = self.restack_step(0, false);
                            CleanStep { events, command: s.command }
                        }
                    },
                    _ => {
                        if o.switched_from.is_some() && !o.status.success() {
                            let out = self.progress.finish(
                                self.switched_to_trunk_from.clone(),
                                self.original_branch.as_str(),
                                self.trunk_branch.as_str(),
                                self.last_status,
                                o,
                                None,
                            );
                            self.state = CleanState::Finished;
                            CleanStep { events: Vec::new(), command: CleanCommand::Finish(out) }
                        } else {
                            self.state = CleanState::Restoring { checkout: o };
                            CleanStep { events: Vec::new(), command: CleanCommand::RestoreOriginal }
                        }
                    },
                }
            },
            CleanInput::Restacked(r) => {
                let index = match self.state {
                    CleanState::Restacking { index } => index,
                    _ => 0,
                };
                let paused = r.paused;
                let r_status = r.status;
                let stop = self.progress.after_candidate_restack(self.switched_to_trunk_from.clone(), r);
                match stop {
                    Some(out) => {
                        self.state = CleanState::Finished;
                        CleanStep { events: Vec::new(), command: CleanCommand::Finish(out) }
                    },
                    None => {
                        if self.resumed && index == 0 {
                            self.last_status = r_status;
                        }
                        self.state = CleanState::Deleting { index };
                        CleanStep {
                            events: Vec::new(),
                            command: CleanCommand::Delete {
                                branch_name: self.candidates[index].clone(),
                                announce: self.reporting,
                            },
                        }
                    },
                }
            },
            CleanInput::Deleted { status } => {
                let index = match self.state {
                    CleanState::Deleting { index } => index,
                    _ => 0,
                };
                if !(status.success() || (self.resumed && index == 0)) {
                    let out = self.progress.report(status, self.switched_to_trunk_from.clone(), None, false);
                    self.state = CleanState::Finished;
                    CleanStep { events: Vec::new(), command: CleanCommand::Finish(out) }
                } else {
                    let name = self.candidates[index].clone();
                    self.progress.deleted_branches.push(name);
                    if !self.resumed {
                        self.last_status = CommandStatus::success_status();
                    }
                    let mut events: Vec<CleanEvent> = Vec::new();
                    if self.reporting {
                        events.push(CleanEvent::DeleteCompleted { branch_name: self.candidates[index].clone() });
                    }
                    assert(self.candidates.len() <= usize::MAX);
                    if index + 1 < self.candidates.len() {
                        self.state = CleanState::Restacking { index: index + 1 };
                        let s = self.restack_step(index + 1, false);
                        CleanStep { events, command: s.command }
                    } else {
                        self.state = CleanState::ReturningToTrunk;
                        CleanStep { events, command: CleanCommand::ReturnToTrunk }
                    }
                }
            },
            CleanInput::Restored(restore) => {
                let checkout = match &self.state {
                    CleanState::Restoring { checkout } => Self::copy_checkout(checkout),
                    _ => CheckoutBranchOutcome { status: self.last_status, switched_from: None },
                };
                let out = self.progress.finish(
                    self.switched_to_trunk_from.clone(),
                    self.original_branch.as_str(),
                    self.trunk_branch.as_str(),
                    self.last_status,
                    checkout,
                    restore,
                );
                self.state = CleanState::Finished;
                CleanStep { events: Vec::new(), command: CleanCommand::Finish(out) }
            },
        };
        proof {
            law_clean_deletes_in_order(old_run, input_g, *self, step);
            law_clean_stops_at_failures(old_run, input_g, *self, step);
        }
        step
    }
}

} // verus!
