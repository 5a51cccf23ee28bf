//! `dig adopt`: starting to track an existing branch under a parent, rebasing it there when needed.
use vstd::prelude::*;

use crate::branch::{resolve_parent_ref, untracked_parent_message};
use crate::error::{message3, CommandStatus, DigError, ErrorKind};
use crate::store::{
    already_tracked_message, first_active, named, new_tracked_node, BranchAdoptedEvent, BranchNode, DigConfig, DigEvent,
    DigState, ParentRef,
};
use crate::text::{str_eq, trim, trim_str};

verus! {

#[derive(Debug, Clone, PartialEq, Eq)]
pub struct AdoptOptions {
    pub branch_name: Option<String>,
    pub parent_branch_name: String,
}

/// What an adoption is going to do, as planned before it starts.
#[derive(Debug, Clone, PartialEq, Eq)]
pub struct AdoptPlan {
    pub trunk_branch: String,
    pub original_branch: String,
    pub branch_name: String,
    pub parent_branch_name: String,
    pub parent: ParentRef,
    pub old_upstream_oid: String,
    pub requires_rebase: bool,
}

#[derive(Debug, Clone, PartialEq, Eq)]
pub struct AdoptOutcome {
    pub status: CommandStatus,
    pub branch_name: String,
    pub parent_branch_name: String,
    pub restacked: bool,
    pub restored_original_branch: Option<String>,
    pub failure_output: Option<String>,
}

/// The branch to adopt: the requested one, or else the current branch; trimmed, not blank.
pub fn resolve_branch_name(original_branch: &str, requested_branch_name: Option<&str>) -> (r: Result<
    String,
    DigError,
>)
    ensures
        ({
            let chosen = match requested_branch_name {
                Some(b) => b@,
                None => original_branch@,
            };
            match r {
                Ok(n) => trim(chosen).len() > 0 && n@ == trim(chosen),
                Err(e) => trim(chosen).len() == 0 && e.kind == ErrorKind::InvalidInput && e.message@
                    == "branch name cannot be empty"@,
            }
        }),
{
    let chosen = match requested_branch_name {
        Some(b) => b,
        None => original_branch,
    };
    let branch_name = trim_str(chosen);
    if branch_name.as_str().is_empty() {
        return Err(DigError::new(ErrorKind::InvalidInput, String::from_str("branch name cannot be empty")));
    }
    Ok(branch_name)
}

/// The error of an adoption, in the order the checks are made, when one fails.
/// `branch` is the resolved branch name; `parent` the trimmed parent name.
pub open spec fn adopt_check_error(
    state: DigState,
    config: DigConfig,
    branch: Seq<char>,
    parent: Seq<char>,
    branch_exists: bool,
    parent_exists: bool,
) -> Option<(ErrorKind, Seq<char>)> {
    if parent.len() == 0 {
        Some((ErrorKind::InvalidInput, "parent branch name cannot be empty"@))
    } else if branch == config.trunk_branch@ {
        Some((ErrorKind::InvalidInput, "cannot adopt trunk branch '"@ + config.trunk_branch@ + "'"@))
    } else if branch == parent {
        Some((ErrorKind::InvalidInput, "branch cannot list itself as its parent"@))
    } else if !branch_exists {
        Some((ErrorKind::NotFound, "branch '"@ + branch + "' does not exist"@))
    } else if first_active(state.nodes@, named(branch)) is Some {
        Some((ErrorKind::AlreadyExists, "branch '"@ + branch + "' is already tracked by dig"@))
    } else if !parent_exists {
        Some((ErrorKind::NotFound, "parent branch '"@ + parent + "' does not exist"@))
    } else if parent != config.trunk_branch@ && first_active(state.nodes@, named(parent)) is None {
        Some((ErrorKind::NotFound, untracked_parent_message(parent, config.trunk_branch@)))
    } else {
        None
    }
}

/// The checks of an adoption plan: a named parent, not trunk, not itself, an existing untracked
/// branch, and an existing parent that is trunk or tracked. `branch_exists` and `parent_exists` tell
/// whether git has the two branches. Gives back the trimmed parent name and where the branch will hang.
pub fn check_adoption(
    state: &DigState,
    config: &DigConfig,
    branch_name: &str,
    parent_branch_name: &str,
    branch_exists: bool,
    parent_exists: bool,
) -> (r: Result<(String, ParentRef), DigError>)
    ensures
        match adopt_check_error(*state, *config, branch_name@, trim(parent_branch_name@), branch_exists, parent_exists) {
            Some((k, m)) => r is Err && r->Err_0.kind == k && r->Err_0.message@ == m,
            None => r is Ok && r->Ok_0.0@ == trim(parent_branch_name@) && r->Ok_0.1 == (if trim(
                parent_branch_name@,
            ) == config.trunk_branch@ {
                ParentRef::Trunk
            } else {
                ParentRef::Branch {
                    node_id: state.nodes@[first_active(state.nodes@, named(trim(parent_branch_name@))).unwrap()].id,
                }
            }),
        },
{
    let parent = trim_str(parent_branch_name);
    if parent.as_str().is_empty() {
        return Err(DigError::new(ErrorKind::InvalidInput, String::from_str("parent branch name cannot be empty")));
    }
    if str_eq(branch_name, config.trunk_branch.as_str()) {
        return Err(
            DigError::new(
                ErrorKind::InvalidInput,
                message3("cannot adopt trunk branch '", config.trunk_branch.as_str(), "'"),
            ),
        );
    }
    if str_eq(branch_name, parent.as_str()) {
        return Err(
            DigError::new(ErrorKind::InvalidInput, String::from_str("branch cannot list itself as its parent")),
        );
    }
    if !branch_exists {
        return Err(DigError::new(ErrorKind::NotFound, message3("branch '", branch_name, "' does not exist")));
    }
    if state.find_branch_by_name(branch_name).is_some() {
        return Err(
            DigError::new(ErrorKind::AlreadyExists, message3("branch '", branch_name, "' is already tracked by dig")),
        );
    }
    if !parent_exists {
        return Err(
            DigError::new(ErrorKind::NotFound, message3("parent branch '", parent.as_str(), "' does not exist")),
        );
    }
    proof {
        crate::store::lemma_first_active(state.nodes@, named(parent@));
    }
    let parent_ref = resolve_parent_ref(state, config, parent.as_str())?;
    Ok((parent, parent_ref))
}

/// The plan, once the merge base of the parent and the branch and the parent's head are known:
/// a rebase is needed when the branch does not fork from the parent's head.
pub fn build_adopt_plan(
    trunk_branch: String,
    original_branch: String,
    branch_name: String,
    parent_branch_name: String,
    parent: ParentRef,
    old_upstream_oid: String,
    parent_head_oid: &str,
) -> (p: AdoptPlan)
    ensures
        p.trunk_branch == trunk_branch,
        p.original_branch == original_branch,
        p.branch_name == branch_name,
        p.parent_branch_name == parent_branch_name,
        p.parent == parent,
        p.old_upstream_oid == old_upstream_oid,
        p.requires_rebase == (old_upstream_oid@ != parent_head_oid@),
{
    let requires_rebase = !str_eq(old_upstream_oid.as_str(), parent_head_oid);
    AdoptPlan {
        trunk_branch,
        original_branch,
        branch_name,
        parent_branch_name,
        parent,
        old_upstream_oid,
        requires_rebase,
    }
}

/// The message of the error when the parent an adoption planned no longer resolves to the same place.
pub open spec fn parent_changed_message(parent: Seq<char>) -> Seq<char> {
    "tracked parent for '"@ + parent + "' changed while planning adopt"@
}

/// The error of the checks repeated when a plan is applied, if one fails.
pub open spec fn recheck_spec(state: DigState, config: DigConfig, plan: AdoptPlan) -> Option<(ErrorKind, Seq<char>)> {
    match first_active(state.nodes@, named(plan.branch_name@)) {
        Some(_) => Some((ErrorKind::AlreadyExists, "branch '"@ + plan.branch_name@ + "' is already tracked by dig"@)),
        None => if plan.parent_branch_name@ == config.trunk_branch@ {
            if plan.parent == ParentRef::Trunk {
                None
            } else {
                Some((ErrorKind::Other, parent_changed_message(plan.parent_branch_name@)))
            }
        } else {
            match first_active(state.nodes@, named(plan.parent_branch_name@)) {
                None => Some(
                    (ErrorKind::NotFound, untracked_parent_message(plan.parent_branch_name@, config.trunk_branch@)),
                ),
                Some(j) => if plan.parent == (ParentRef::Branch { node_id: state.nodes@[j].id }) {
                    None
                } else {
                    Some((ErrorKind::Other, parent_changed_message(plan.parent_branch_name@)))
                },
            }
        },
    }
}

/// The checks repeated when the plan is applied: the branch is still untracked, and its parent is
/// still trunk or a tracked branch, and resolves to the planned parent.
pub fn recheck_adoption(state: &DigState, config: &DigConfig, plan: &AdoptPlan) -> (r: Result<(), DigError>)
    ensures
        match recheck_spec(*state, *config, *plan) {
            Some((k, m)) => r is Err && r->Err_0.kind == k && r->Err_0.message@ == m,
            None => r is Ok,
        },
        match first_active(state.nodes@, named(plan.branch_name@)) {
            Some(_) => r is Err && r->Err_0.kind == ErrorKind::AlreadyExists && r->Err_0.message@ == "branch '"@
                + plan.branch_name@ + "' is already tracked by dig"@,
            None => if plan.parent_branch_name@ == config.trunk_branch@ {
                if plan.parent == ParentRef::Trunk {
                    r is Ok
                } else {
                    r is Err && r->Err_0.kind == ErrorKind::Other && r->Err_0.message@ == parent_changed_message(
                        plan.parent_branch_name@,
                    )
                }
            } else {
                match first_active(state.nodes@, named(plan.parent_branch_name@)) {
                    None => r is Err && r->Err_0.kind == ErrorKind::NotFound && r->Err_0.message@
                        == untracked_parent_message(plan.parent_branch_name@, config.trunk_branch@),
                    Some(j) => if plan.parent == (ParentRef::Branch { node_id: state.nodes@[j].id }) {
                        r is Ok
                    } else {
                        r is Err && r->Err_0.kind == ErrorKind::Other && r->Err_0.message@
                            == parent_changed_message(plan.parent_branch_name@)
                    },
                }
            },
        },
{
    if state.find_branch_by_name(plan.branch_name.as_str()).is_some() {
        return Err(
            DigError::new(
                ErrorKind::AlreadyExists,
                message3("branch '", plan.branch_name.as_str(), "' is already tracked by dig"),
            ),
        );
    }
    proof {
        crate::store::lemma_first_active(state.nodes@, named(plan.parent_branch_name@));
    }
    let resolved = resolve_parent_ref(state, config, plan.parent_branch_name.as_str())?;
    if resolved != plan.parent {
        return Err(
            DigError::new(
                ErrorKind::Other,
                message3(
                    "tracked parent for '",
                    plan.parent_branch_name.as_str(),
                    "' changed while planning adopt",
                ),
            ),
        );
    }
    Ok(())
}

/// The node that records an adoption: a fresh id, on the planned parent, based on the parent branch.
pub fn adopted_node(plan: &AdoptPlan, parent_head_oid: String, branch_head_oid: String, created_at: u64) -> (n:
    BranchNode)
    ensures
        n.branch_name@ == plan.branch_name@,
        n.parent == plan.parent,
        n.base_ref@ == plan.parent_branch_name@,
        n.fork_point_oid == parent_head_oid,
        n.head_oid_at_creation == branch_head_oid,
        n.created_at_unix_secs == created_at,
        !n.archived,
        (n.id >> 76u128) & 0xfu128 == 4u128,
        (n.id >> 62u128) & 0x3u128 == 2u128,
{
    new_tracked_node(
        plan.branch_name.clone(),
        plan.parent,
        plan.parent_branch_name.clone(),
        parent_head_oid,
        branch_head_oid,
        created_at,
    )
}

/// Whether git is in the middle of a rebase, from the marker files it leaves in the git directory.
pub fn rebase_in_progress(has_rebase_merge: bool, has_rebase_apply: bool, has_rebase_head: bool) -> (r: bool)
    ensures
        r == (has_rebase_merge || has_rebase_apply || has_rebase_head),
{
    has_rebase_merge || has_rebase_apply || has_rebase_head
}

/// What an abort of a failed rebase comes to: nothing when it succeeded, an error when it did not.
pub fn rebase_abort_result(abort_status: CommandStatus) -> (r: Result<(), DigError>)
    ensures
        abort_status.is_success() <==> r is Ok,
        r is Err ==> r->Err_0.kind == ErrorKind::Other && r->Err_0.message@
            == "git rebase failed and 'git rebase --abort' did not succeed"@,
{
    if abort_status.success() {
        Ok(())
    } else {
        Err(
            DigError::new(
                ErrorKind::Other,
                String::from_str("git rebase failed and 'git rebase --abort' did not succeed"),
            ),
        )
    }
}

/// Whether the original branch has to be checked out again: it is not the current one and still exists.
pub fn needs_restore(current_branch: Option<&str>, original_branch: &str, original_exists: bool) -> (r: bool)
    ensures
        r == (match current_branch {
            Some(c) => c@ != original_branch@,
            None => true,
        } && original_exists),
{
    let is_current = match current_branch {
        Some(c) => str_eq(c, original_branch),
        None => false,
    };
    !is_current && original_exists
}

/// What switching back after an adoption comes to: the branch returned to, or an error.
pub fn restore_result(original_branch: &str, switch_status: CommandStatus) -> (r: Result<Option<String>, DigError>)
    ensures
        switch_status.is_success() ==> r is Ok && r->Ok_0 is Some && r->Ok_0->Some_0@ == original_branch@,
        !switch_status.is_success() ==> r is Err && r->Err_0.kind == ErrorKind::Other && r->Err_0.message@
            == "adopt completed, but failed to return to '"@ + original_branch@ + "'"@,
{
    if !switch_status.success() {
        return Err(
            DigError::new(
                ErrorKind::Other,
                message3("adopt completed, but failed to return to '", original_branch, "'"),
            ),
        );
    }
    Ok(Some(crate::text::to_owned_string(original_branch)))
}

/// The outcome of an adoption whose rebase failed: nothing was tracked.
pub fn failed_rebase_outcome(
    plan: &AdoptPlan,
    status: CommandStatus,
    restored_original_branch: Option<String>,
    stderr: String,
) -> (o: AdoptOutcome)
    ensures
        o.status == status,
        o.branch_name@ == plan.branch_name@,
        o.parent_branch_name@ == plan.parent_branch_name@,
        !o.restacked,
        o.restored_original_branch == restored_original_branch,
        o.failure_output == Some(stderr),
{
    AdoptOutcome {
        status,
        branch_name: plan.branch_name.clone(),
        parent_branch_name: plan.parent_branch_name.clone(),
        restacked: false,
        restored_original_branch,
        failure_output: Some(stderr),
    }
}

/// The outcome of a completed adoption.
pub fn adopted_outcome(
    plan: &AdoptPlan,
    status: CommandStatus,
    restacked: bool,
    restored_original_branch: Option<String>,
) -> (o: AdoptOutcome)
    ensures
        o.status == status,
        o.branch_name@ == plan.branch_name@,
        o.parent_branch_name@ == plan.parent_branch_name@,
        o.restacked == restacked,
        o.restored_original_branch == restored_original_branch,
        o.failure_output is None,
{
    AdoptOutcome {
        status,
        branch_name: plan.branch_name.clone(),
        parent_branch_name: plan.parent_branch_name.clone(),
        restacked,
        restored_original_branch,
        failure_output: None,
    }
}

// ---------------------------------------------------------------------------
// Applying an adoption, step by step.
/// Where an adoption being applied stands.
#[derive(Debug, Clone, PartialEq, Eq)]
pub enum AdoptState {
    /// Rebasing the branch onto its parent.
    Rebasing,
    /// The rebase failed with `status`; aborting it if git is still in the middle of it.
    Aborting,
    /// The rebase failed and was aborted; switching back to the original branch.
    RestoringAfterFailure,
    /// Reading the head commits to record the node.
    ReadingHeads,
    /// Saving the store with the adopted branch and appending the event.
    Saving,
    /// Switching back to the original branch.
    Restoring,
    Finished,
}

/// What the outside work of the last command gave back.
#[derive(Debug, Clone, PartialEq, Eq)]
pub enum AdoptInput {
    Rebased { status: CommandStatus, stderr: String },
    /// `abort_status` is none when git was not in the middle of a rebase, so nothing was aborted.
    Aborted { abort_status: Option<CommandStatus> },
    Heads { parent_head_oid: String, branch_head_oid: String, created_at: u64, occurred_at: u64 },
    Saved,
    /// `switch_status` is none when no switch was needed (`needs_restore` was false).
    Restored { switch_status: Option<CommandStatus> },
}

/// The outside work to do next.
#[derive(Debug, Clone, PartialEq, Eq)]
pub enum AdoptCommand {
    Rebase,
    AbortRebase,
    ReadHeads,
    /// Save the store and append this event.
    Save(DigEvent),
    RestoreOriginal,
    Finish(AdoptOutcome),
    Fail(DigError),
}

/// An adoption being applied.
pub struct AdoptRun {
    pub plan: AdoptPlan,
    pub status: CommandStatus,
    pub restacked: bool,
    pub failure_output: String,
    pub state: AdoptState,
}

pub open spec fn adopt_input_expected(state: AdoptState, input: AdoptInput) -> bool {
    match state {
        AdoptState::Rebasing => input is Rebased,
        AdoptState::Aborting => input is Aborted,
        AdoptState::RestoringAfterFailure => input is Restored,
        AdoptState::ReadingHeads => input is Heads,
        AdoptState::Saving => input is Saved,
        AdoptState::Restoring => input is Restored,
        AdoptState::Finished => false,
    }
}

/// What switching back to `original` came to: the branch returned to, none when no switch was
/// needed, or an error when the switch failed.
pub open spec fn restored_spec(original: Seq<char>, switch_status: Option<CommandStatus>) -> Option<Option<Seq<char>>> {
    match switch_status {
        None => Some(None),
        Some(s) => if s.is_success() {
            Some(Some(original))
        } else {
            None
        },
    }
}

/// `c` fails the adoption with `kind` and `message`.
pub open spec fn fails_with(c: AdoptCommand, kind: ErrorKind, message: Seq<char>) -> bool {
    c is Fail && c->Fail_0.kind == kind && c->Fail_0.message@ == message
}

/// `o` reports the adoption of `plan` with these results.
pub open spec fn adopt_reports(
    o: AdoptOutcome,
    plan: AdoptPlan,
    status: CommandStatus,
    restacked: bool,
    restored: Option<Seq<char>>,
    failure_output: Option<Seq<char>>,
) -> bool {
    &&& o.status == status
    &&& o.branch_name@ == plan.branch_name@
    &&& o.parent_branch_name@ == plan.parent_branch_name@
    &&& o.restacked == restacked
    &&& match restored {
        Some(b) => o.restored_original_branch is Some && o.restored_original_branch->Some_0@ == b,
        None => o.restored_original_branch is None,
    }
    &&& match failure_output {
        Some(f) => o.failure_output is Some && o.failure_output->Some_0@ == f,
        None => o.failure_output is None,
    }
}

/// The command after switching back to the original branch: the outcome, or the error of a failed switch.
pub open spec fn after_restore(
    c: AdoptCommand,
    run: AdoptRun,
    switch_status: Option<CommandStatus>,
    restacked: bool,
    failure_output: Option<Seq<char>>,
) -> bool {
    match restored_spec(run.plan.original_branch@, switch_status) {
        Some(restored) => c is Finish && adopt_reports(
            c->Finish_0,
            run.plan,
            run.status,
            restacked,
            restored,
            failure_output,
        ),
        None => fails_with(
            c,
            ErrorKind::Other,
            "adopt completed, but failed to return to '"@ + run.plan.original_branch@ + "'"@,
        ),
    }
}

/// The step an adoption takes from `old` on `input`; the store changes only when the node is recorded.
pub open spec fn adopt_step_spec(
    old: AdoptRun,
    store_old: DigState,
    input: AdoptInput,
    new: AdoptRun,
    store_new: DigState,
    c: AdoptCommand,
) -> bool {
    &&& new.plan == old.plan
    &&& (!(old.state is ReadingHeads) ==> store_new == store_old)
    &&& match (old.state, input) {
        (AdoptState::Rebasing, AdoptInput::Rebased { status, stderr }) => {
            &&& new.status == status
            &&& if status.is_success() {
                new.restacked && new.state == AdoptState::ReadingHeads && c == AdoptCommand::ReadHeads
            } else {
                &&& !new.restacked
                &&& new.failure_output == stderr
                &&& new.state == AdoptState::Aborting
                &&& c == AdoptCommand::AbortRebase
            }
        },
        (AdoptState::Aborting, AdoptInput::Aborted { abort_status }) => {
            &&& new.status == old.status
            &&& new.restacked == old.restacked
            &&& new.failure_output == old.failure_output
            &&& if abort_status matches Some(a) && !a.is_success() {
                &&& new.state == AdoptState::Finished
                &&& fails_with(c, ErrorKind::Other, "git rebase failed and 'git rebase --abort' did not succeed"@)
            } else {
                new.state == AdoptState::RestoringAfterFailure && c == AdoptCommand::RestoreOriginal
            }
        },
        (AdoptState::RestoringAfterFailure, AdoptInput::Restored { switch_status }) => {
            &&& new.state == AdoptState::Finished
            &&& new.status == old.status
            &&& after_restore(c, old, switch_status, false, Some(old.failure_output@))
        },
        (AdoptState::ReadingHeads, AdoptInput::Heads { parent_head_oid, branch_head_oid, created_at, occurred_at }) => {
            &&& new.status == old.status
            &&& new.restacked == old.restacked
            &&& if first_active(store_old.nodes@, named(old.plan.branch_name@)) is Some {
                &&& store_new == store_old
                &&& new.state == AdoptState::Finished
                &&& fails_with(c, ErrorKind::AlreadyExists, already_tracked_message(old.plan.branch_name@))
            } else {
                &&& new.state == AdoptState::Saving
                &&& store_new.version == store_old.version
                &&& store_new.nodes@.len() == store_old.nodes@.len() + 1
                &&& store_new.nodes@.drop_last() == store_old.nodes@
                &&& {
                    let n = store_new.nodes@.last();
                    &&& n.branch_name@ == old.plan.branch_name@
                    &&& n.parent == old.plan.parent
                    &&& n.base_ref@ == old.plan.parent_branch_name@
                    &&& n.fork_point_oid == parent_head_oid
                    &&& n.head_oid_at_creation == branch_head_oid
                    &&& n.created_at_unix_secs == created_at
                    &&& !n.archived
                    &&& c == AdoptCommand::Save(
                        DigEvent::BranchAdopted(BranchAdoptedEvent { occurred_at_unix_secs: occurred_at, node: n }),
                    )
                }
            }
        },
        (AdoptState::Saving, AdoptInput::Saved) => {
            &&& new.status == old.status
            &&& new.restacked == old.restacked
            &&& new.state == AdoptState::Restoring
            &&& c == AdoptCommand::RestoreOriginal
        },
        (AdoptState::Restoring, AdoptInput::Restored { switch_status }) => {
            &&& new.state == AdoptState::Finished
            &&& new.status == old.status
            &&& after_restore(c, old, switch_status, old.restacked, None)
        },
        _ => false,
    }
}

/// An adoption tracks the branch only after git did what it had to: the store changes in one step
/// only, the one that reads the heads, and that step comes only after a successful rebase (or
/// right away when no rebase is needed). A failed rebase is aborted, the original branch restored,
/// and the store left as it was.
pub proof fn law_adopt_tracks_only_after_git_succeeds(
    old: AdoptRun,
    store_old: DigState,
    input: AdoptInput,
    new: AdoptRun,
    store_new: DigState,
    c: AdoptCommand,
)
    requires
        adopt_step_spec(old, store_old, input, new, store_new, c),
    ensures
        store_new != store_old ==> old.state is ReadingHeads,
        new.state is ReadingHeads ==> old.state is Rebasing && new.status.is_success(),
        new.state is Aborting ==> !new.status.is_success() && c == AdoptCommand::AbortRebase,
        old.state is Aborting || old.state is RestoringAfterFailure ==> store_new == store_old && !(new.state
            is ReadingHeads) && !(new.state is Saving),
{
}

impl AdoptRun {
    /// Starts applying `plan` once the store is loaded: the checks are made again, then the branch
    /// is rebased when the plan needs it, or else its heads are read right away.
    pub fn start(store: &DigState, config: &DigConfig, plan: AdoptPlan) -> (r: Result<(AdoptRun, AdoptCommand), DigError>)
        ensures
            match recheck_spec(*store, *config, plan) {
                Some((k, m)) => r is Err && r->Err_0.kind == k && r->Err_0.message@ == m,
                None => r is Ok && r->Ok_0.0.plan == plan && r->Ok_0.0.status.is_success() && !r->Ok_0.0.restacked
                    && if plan.requires_rebase {
                    r->Ok_0.0.state == AdoptState::Rebasing && r->Ok_0.1 == AdoptCommand::Rebase
                } else {
                    r->Ok_0.0.state == AdoptState::ReadingHeads && r->Ok_0.1 == AdoptCommand::ReadHeads
                },
            },
    {
        recheck_adoption(store, config, &plan)?;
        let rebase = plan.requires_rebase;
        let run = AdoptRun {
            plan,
            status: CommandStatus::success_status(),
            restacked: false,
            failure_output: String::new(),
            state: if rebase {
                AdoptState::Rebasing
            } else {
                AdoptState::ReadingHeads
            },
        };
        if rebase {
            Ok((run, AdoptCommand::Rebase))
        } else {
            Ok((run, AdoptCommand::ReadHeads))
        }
    }

    fn restore_command(&self, switch_status: Option<CommandStatus>, restacked: bool, failed: bool) -> (c: AdoptCommand)
        requires
            failed ==> !restacked,
        ensures
            after_restore(c, *self, switch_status, restacked, if failed {
                Some(self.failure_output@)
            } else {
                None
            }),
    {
        let restored = match switch_status {
            None => None,
            Some(st) => match restore_result(self.plan.original_branch.as_str(), st) {
                Err(e) => {
                    return AdoptCommand::Fail(e);
                },
                Ok(r) => r,
            },
        };
        if failed {
            AdoptCommand::Finish(
                failed_rebase_outcome(&self.plan, self.status, restored, self.failure_output.clone()),
            )
        } else {
            AdoptCommand::Finish(adopted_outcome(&self.plan, self.status, restacked, restored))
        }
    }

    /// Decides the next step of an adoption from what the last command gave back; `store` is the
    /// loaded store, which only the step that records the node changes.
    pub fn step(&mut self, store: &mut DigState, input: AdoptInput) -> (c: AdoptCommand)
        requires
            adopt_input_expected(old(self).state, input),
        ensures
            adopt_step_spec(*old(self), *old(store), input, *final(self), *final(store), c),
    {
        match input {
            AdoptInput::Rebased { status, stderr } => {
                self.status = status;
                if status.success() {
                    self.restacked = true;
                    self.state = AdoptState::ReadingHeads;
                    AdoptCommand::ReadHeads
                } else {
                    self.restacked = false;
                    self.failure_output = stderr;
                    self.state = AdoptState::Aborting;
                    AdoptCommand::AbortRebase
                }
            },
            AdoptInput::Aborted { abort_status } => {
                match abort_status {
                    Some(a) => {
                        if let Err(e) = rebase_abort_result(a) {
                            self.state = AdoptState::Finished;
                            return AdoptCommand::Fail(e);
                        }
                    },
                    None => {},
                }
                self.state = AdoptState::RestoringAfterFailure;
                AdoptCommand::RestoreOriginal
            },
            AdoptInput::Heads { parent_head_oid, branch_head_oid, created_at, occurred_at } => {
                let node = adopted_node(&self.plan, parent_head_oid, branch_head_oid, created_at);
                let ghost n = node;
                match store.record_tracked(node, occurred_at, true) {
                    Err(e) => {
                        self.state = AdoptState::Finished;
                        AdoptCommand::Fail(e)
                    },
                    Ok(ev) => {
                        assert(store.nodes@.drop_last() =~= old(store).nodes@);
                        assert(store.nodes@.last() == n);
                        self.state = AdoptState::Saving;
                        AdoptCommand::Save(ev)
                    },
                }
            },
            AdoptInput::Saved => {
                self.state = AdoptState::Restoring;
                AdoptCommand::RestoreOriginal
            },
            AdoptInput::Restored { switch_status } => {
                let failed = match self.state {
                    AdoptState::RestoringAfterFailure => true,
                    _ => false,
                };
                let restacked = if failed {
                    false
                } else {
                    self.restacked
                };
                let c = self.restore_command(switch_status, restacked, failed);
                self.state = AdoptState::Finished;
                c
            },
        }
    }
}

} // verus!
