//! `dig branch`: creating a tracked branch on a parent, and deleting one after restacking its children.
use vstd::prelude::*;

use crate::error::{message3, CommandStatus, DigError, ErrorKind};
use crate::render::{
    format_restacked_branches, join, join_sections, lemma_strs_push, restack_pause_lines,
    restacked_lines, shown_output, strs_v, trimmed_output, RestackPreview, RERUN_GUIDANCE,
    RESOLVE_GUIDANCE,
};
use crate::store::{
    already_tracked_message, first_active, named, new_tracked_node, spec_parent_branch_name,
    BranchCreatedEvent, BranchNode, DigConfig, DigEvent, DigState, ParentRef,
};
use crate::text::{str_eq, trim, trim_str};

verus! {

#[derive(Debug, Clone, PartialEq, Eq)]
pub struct CreateBranchOptions {
    pub name: String,
    pub parent_branch_name: Option<String>,
}

#[derive(Debug, Clone, PartialEq, Eq)]
pub struct DeleteBranchOptions {
    pub branch_name: String,
}

#[derive(Debug, Clone, PartialEq, Eq)]
pub enum BranchOptions {
    Create(CreateBranchOptions),
    Delete(DeleteBranchOptions),
}

/// The command-line arguments of `dig branch`.
#[derive(Debug, Clone, PartialEq, Eq)]
pub struct BranchArgs {
    pub name: String,
    pub delete: bool,
    pub parent_branch_name: Option<String>,
}

impl BranchOptions {
    /// The options that the arguments ask for: a deletion, which takes no parent, or a creation.
    pub fn try_from(args: BranchArgs) -> (r: Result<BranchOptions, DigError>)
        ensures
            match r {
                Ok(BranchOptions::Delete(d)) => args.delete && args.parent_branch_name is None
                    && d.branch_name == args.name,
                Ok(BranchOptions::Create(c)) => !args.delete && c.name == args.name && c.parent_branch_name
                    == args.parent_branch_name,
                Err(e) => args.delete && args.parent_branch_name is Some && e.kind == ErrorKind::InvalidInput
                    && e.message@ == "--parent cannot be used with --delete"@,
            },
    {
        if args.delete {
            if args.parent_branch_name.is_some() {
                return Err(
                    DigError::new(ErrorKind::InvalidInput, String::from_str("--parent cannot be used with --delete")),
                );
            }
            return Ok(BranchOptions::Delete(DeleteBranchOptions { branch_name: args.name }));
        }
        Ok(BranchOptions::Create(CreateBranchOptions { name: args.name, parent_branch_name: args.parent_branch_name }))
    }
}

/// One branch of a lineage drawn after a creation, with its pull request number if it has one.
#[derive(Debug, Clone, PartialEq, Eq)]
pub struct BranchLineageNode {
    pub branch_name: String,
    pub pull_request_number: Option<u64>,
}

#[derive(Debug, Clone, PartialEq, Eq)]
pub struct CreateBranchOutcome {
    pub status: CommandStatus,
    pub created_node: Option<BranchNode>,
    pub lineage: Vec<BranchLineageNode>,
}

#[derive(Debug, Clone, PartialEq, Eq)]
pub struct DeleteBranchOutcome {
    pub status: CommandStatus,
    pub branch_name: String,
    pub parent_branch_name: String,
    pub restacked_branches: Vec<RestackPreview>,
    pub restored_original_branch: Option<String>,
    pub failure_output: Option<String>,
    pub paused: bool,
}

#[derive(Debug, Clone, PartialEq, Eq)]
pub enum BranchOutcome {
    Created(CreateBranchOutcome),
    Deleted(DeleteBranchOutcome),
}

impl BranchOutcome {
    pub fn status(&self) -> (s: CommandStatus)
        ensures
            s == match *self {
                BranchOutcome::Created(o) => o.status,
                BranchOutcome::Deleted(o) => o.status,
            },
    {
        match self {
            BranchOutcome::Created(o) => o.status,
            BranchOutcome::Deleted(o) => o.status,
        }
    }
}

// ---------------------------------------------------------------------------
// Names and parents.
/// The branch to delete: the request trimmed, which may not be blank.
pub fn resolve_delete_branch_name(requested_branch_name: &str) -> (r: Result<String, DigError>)
    ensures
        match r {
            Ok(n) => trim(requested_branch_name@).len() > 0 && n@ == trim(requested_branch_name@),
            Err(e) => trim(requested_branch_name@).len() == 0 && e.kind == ErrorKind::InvalidInput
                && e.message@ == "branch name cannot be empty"@,
        },
{
    let branch_name = trim_str(requested_branch_name);
    if branch_name.as_str().is_empty() {
        return Err(DigError::new(ErrorKind::InvalidInput, String::from_str("branch name cannot be empty")));
    }
    Ok(branch_name)
}

/// The parent of a new branch: the requested one, or else the current branch; trimmed, not blank.
pub fn resolve_parent_branch_name(current_branch: &str, requested_parent_branch: Option<&str>) -> (r: Result<
    String,
    DigError,
>)
    ensures
        ({
            let chosen = match requested_parent_branch {
                Some(p) => p@,
                None => current_branch@,
            };
            match r {
                Ok(n) => trim(chosen).len() > 0 && n@ == trim(chosen),
                Err(e) => trim(chosen).len() == 0 && e.kind == ErrorKind::InvalidInput && e.message@
                    == "parent branch name cannot be empty"@,
            }
        }),
{
    let chosen = match requested_parent_branch {
        Some(p) => p,
        None => current_branch,
    };
    let parent_branch_name = trim_str(chosen);
    if parent_branch_name.as_str().is_empty() {
        return Err(DigError::new(ErrorKind::InvalidInput, String::from_str("parent branch name cannot be empty")));
    }
    Ok(parent_branch_name)
}

pub open spec fn untracked_parent_message(parent: Seq<char>, trunk: Seq<char>) -> Seq<char> {
    "parent branch '"@ + parent + "' is not tracked by dagger and does not match trunk '"@ + trunk + "'"@
}

/// Where a branch with parent `parent_branch_name` hangs: on trunk, on that tracked branch, or nowhere.
pub fn resolve_parent_ref(state: &DigState, config: &DigConfig, parent_branch_name: &str) -> (r: Result<
    ParentRef,
    DigError,
>)
    ensures
        parent_branch_name@ == config.trunk_branch@ ==> r == Ok::<ParentRef, DigError>(ParentRef::Trunk),
        parent_branch_name@ != config.trunk_branch@ ==> match first_active(state.nodes@, named(parent_branch_name@)) {
            Some(i) => r == Ok::<ParentRef, DigError>(ParentRef::Branch { node_id: state.nodes@[i].id }),
            None => r is Err && r->Err_0.kind == ErrorKind::NotFound && r->Err_0.message@
                == untracked_parent_message(parent_branch_name@, config.trunk_branch@),
        },
{
    if str_eq(parent_branch_name, config.trunk_branch.as_str()) {
        return Ok(ParentRef::Trunk);
    }
    match state.find_branch_by_name(parent_branch_name) {
        Some(node) => Ok(ParentRef::Branch { node_id: node.id }),
        None => {
            let mut m = String::from_str("parent branch '");
            m.append(parent_branch_name);
            m.append("' is not tracked by dagger and does not match trunk '");
            m.append(config.trunk_branch.as_str());
            m.append("'");
            Err(DigError::new(ErrorKind::NotFound, m))
        },
    }
}

// ---------------------------------------------------------------------------
// Creating a branch.
/// The checks that a creation makes before it looks at the parent branch in git: a name that is not
/// blank once trimmed, no local branch of that name yet (`branch_exists_locally` tells whether git
/// has one), a name that is not tracked yet, and a parent that is named and is not the branch itself.
/// The parent is the requested one, or else `current_branch`. Gives back the trimmed branch and
/// parent names.
pub fn check_branch_creation(
    state: &DigState,
    requested_name: &str,
    branch_exists_locally: bool,
    current_branch: &str,
    requested_parent_branch: Option<&str>,
) -> (r: Result<(String, String), DigError>)
    ensures
        ({
            let name = trim(requested_name@);
            let chosen = trim(
                match requested_parent_branch {
                    Some(p) => p@,
                    None => current_branch@,
                },
            );
            let known = first_active(state.nodes@, named(name)) is Some;
            match r {
                Ok((b, p)) => name.len() > 0 && !branch_exists_locally && !known && chosen.len() > 0
                    && chosen != name && b@ == name && p@ == chosen,
                Err(e) => if name.len() == 0 {
                    e.kind == ErrorKind::InvalidInput && e.message@ == "branch name cannot be empty"@
                } else if branch_exists_locally {
                    e.kind == ErrorKind::AlreadyExists && e.message@ == "branch '"@ + name + "' already exists"@
                } else if known {
                    e.kind == ErrorKind::AlreadyExists && e.message@ == "branch '"@ + name
                        + "' is already tracked by dagger"@
                } else if chosen.len() == 0 {
                    e.kind == ErrorKind::InvalidInput && e.message@ == "parent branch name cannot be empty"@
                } else {
                    chosen == name && e.kind == ErrorKind::InvalidInput && e.message@
                        == "branch cannot list itself as its parent"@
                },
            }
        }),
{
    let branch_name = trim_str(requested_name);
    if branch_name.as_str().is_empty() {
        return Err(DigError::new(ErrorKind::InvalidInput, String::from_str("branch name cannot be empty")));
    }
    if branch_exists_locally {
        return Err(
            DigError::new(ErrorKind::AlreadyExists, message3("branch '", branch_name.as_str(), "' already exists")),
        );
    }
    if state.find_branch_by_name(branch_name.as_str()).is_some() {
        return Err(
            DigError::new(
                ErrorKind::AlreadyExists,
                message3("branch '", branch_name.as_str(), "' is already tracked by dagger"),
            ),
        );
    }
    let parent_branch_name = resolve_parent_branch_name(current_branch, requested_parent_branch)?;
    if str_eq(parent_branch_name.as_str(), branch_name.as_str()) {
        return Err(
            DigError::new(ErrorKind::InvalidInput, String::from_str("branch cannot list itself as its parent")),
        );
    }
    Ok((branch_name, parent_branch_name))
}

/// Where a new branch hangs, once git has told whether its parent branch exists locally:
/// the parent must exist, and be trunk or a tracked branch.
pub fn check_parent_branch(
    state: &DigState,
    config: &DigConfig,
    parent_branch_name: &str,
    parent_exists_locally: bool,
) -> (r: Result<ParentRef, DigError>)
    ensures
        !parent_exists_locally ==> r is Err && r->Err_0.kind == ErrorKind::NotFound && r->Err_0.message@
            == "parent branch '"@ + parent_branch_name@ + "' does not exist"@,
        parent_exists_locally && parent_branch_name@ == config.trunk_branch@ ==> r == Ok::<
            ParentRef,
            DigError,
        >(ParentRef::Trunk),
        parent_exists_locally && parent_branch_name@ != config.trunk_branch@ ==> match first_active(
            state.nodes@,
            named(parent_branch_name@),
        ) {
            Some(i) => r == Ok::<ParentRef, DigError>(ParentRef::Branch { node_id: state.nodes@[i].id }),
            None => r is Err && r->Err_0.kind == ErrorKind::NotFound && r->Err_0.message@
                == untracked_parent_message(parent_branch_name@, config.trunk_branch@),
        },
{
    if !parent_exists_locally {
        return Err(
            DigError::new(ErrorKind::NotFound, message3("parent branch '", parent_branch_name, "' does not exist")),
        );
    }
    resolve_parent_ref(state, config, parent_branch_name)
}

/// The node that records a new branch: a fresh id, on its parent, forked at the parent's head,
/// which is also the new branch's head.
pub fn created_node(
    branch_name: String,
    parent: ParentRef,
    parent_branch_name: String,
    parent_head_oid: String,
    created_at: u64,
) -> (n: BranchNode)
    ensures
        n.branch_name == branch_name,
        n.parent == parent,
        n.base_ref == parent_branch_name,
        n.fork_point_oid@ == parent_head_oid@,
        n.head_oid_at_creation@ == parent_head_oid@,
        n.created_at_unix_secs == created_at,
        !n.archived,
        (n.id >> 76u128) & 0xfu128 == 4u128,
        (n.id >> 62u128) & 0x3u128 == 2u128,
{
    let head = parent_head_oid.clone();
    new_tracked_node(branch_name, parent, parent_branch_name, parent_head_oid, head, created_at)
}

/// The outcome of a creation once git has tried to create and check out the branch: the node is
/// reported only when that succeeded, with the lineage the store then shows (`lineage`); otherwise
/// the lineage is the new branch alone.
pub fn create_outcome(status: CommandStatus, node: BranchNode, lineage: Vec<BranchLineageNode>) -> (o:
    CreateBranchOutcome)
    ensures
        o.status == status,
        status.is_success() ==> o.created_node == Some(node) && o.lineage == lineage,
        !status.is_success() ==> o.created_node is None && o.lineage@.len() == 1 && o.lineage@[0].branch_name
            == node.branch_name && o.lineage@[0].pull_request_number is None,
{
    if status.success() {
        CreateBranchOutcome { status, created_node: Some(node), lineage }
    } else {
        let mut only: Vec<BranchLineageNode> = Vec::new();
        only.push(BranchLineageNode { branch_name: node.branch_name, pull_request_number: None });
        CreateBranchOutcome { status, created_node: None, lineage: only }
    }
}

/// Where a creation stands once its checks passed and its node is built.
#[derive(Debug, Clone, PartialEq, Eq)]
pub enum CreateState {
    /// git is creating the branch on its parent and checking it out.
    CreatingBranch,
    /// Saving the store with the new node and appending the event.
    Saving,
    Finished,
}

#[derive(Debug, Clone, PartialEq, Eq)]
pub enum CreateInput {
    Created { status: CommandStatus, occurred_at: u64 },
    /// The store is saved; `lineage` is the new branch's lineage as the store now shows it.
    Saved { lineage: Vec<BranchLineageNode> },
}

#[derive(Debug, Clone, PartialEq, Eq)]
pub enum CreateCommand {
    CreateAndCheckout,
    /// Save the store and append this event.
    Save(DigEvent),
    Finish(CreateBranchOutcome),
    Fail(DigError),
}

/// A creation under way, with the node it will record.
pub struct CreateRun {
    pub node: BranchNode,
    pub state: CreateState,
}

/// The step a creation takes; the store changes only when git created the branch.
pub open spec fn create_step_spec(
    old: CreateRun,
    store_old: DigState,
    input: CreateInput,
    new: CreateRun,
    store_new: DigState,
    c: CreateCommand,
) -> bool {
    &&& new.node == old.node
    &&& match (old.state, input) {
        (CreateState::CreatingBranch, CreateInput::Created { status, occurred_at }) => if !status.is_success() {
            &&& store_new == store_old
            &&& new.state == CreateState::Finished
            &&& c is Finish
            &&& c->Finish_0.status == status
            &&& c->Finish_0.created_node is None
            &&& c->Finish_0.lineage@.len() == 1
            &&& c->Finish_0.lineage@[0].branch_name == old.node.branch_name
            &&& c->Finish_0.lineage@[0].pull_request_number is None
        } else if first_active(store_old.nodes@, named(old.node.branch_name@)) is Some {
            &&& store_new == store_old
            &&& new.state == CreateState::Finished
            &&& c is Fail && c->Fail_0.kind == ErrorKind::AlreadyExists && c->Fail_0.message@
                == already_tracked_message(old.node.branch_name@)
        } else {
            &&& store_new.version == store_old.version
            &&& store_new.nodes@ == store_old.nodes@.push(old.node)
            &&& new.state == CreateState::Saving
            &&& c == CreateCommand::Save(
                DigEvent::BranchCreated(BranchCreatedEvent { occurred_at_unix_secs: occurred_at, node: old.node }),
            )
        },
        (CreateState::Saving, CreateInput::Saved { lineage }) => {
            &&& store_new == store_old
            &&& new.state == CreateState::Finished
            &&& c is Finish
            &&& c->Finish_0.status.is_success()
            &&& c->Finish_0.created_node == Some(old.node)
            &&& c->Finish_0.lineage == lineage
        },
        _ => false,
    }
}

/// A creation tracks the branch only after git created and checked it out: a failed creation
/// leaves the store as it was and reports no node, and a node is reported only once it is recorded.
pub proof fn law_create_tracks_only_after_git_succeeds(
    old: CreateRun,
    store_old: DigState,
    input: CreateInput,
    new: CreateRun,
    store_new: DigState,
    c: CreateCommand,
)
    requires
        create_step_spec(old, store_old, input, new, store_new, c),
    ensures
        store_new != store_old ==> (input is Created && input->Created_status.is_success()),
        (c is Finish && c->Finish_0.created_node is Some) ==> old.state is Saving,
{
}

impl CreateRun {
    /// A creation about to ask git for the branch, with `node` to record once it exists.
    pub fn start(node: BranchNode) -> (r: (CreateRun, CreateCommand))
        ensures
            r.0.node == node,
            r.0.state == CreateState::CreatingBranch,
            r.1 == CreateCommand::CreateAndCheckout,
    {
        (CreateRun { node, state: CreateState::CreatingBranch }, CreateCommand::CreateAndCheckout)
    }

    /// Decides the next step of a creation from what git or the store gave back.
    pub fn step(&mut self, store: &mut DigState, input: CreateInput) -> (c: CreateCommand)
        requires
            match (old(self).state, input) {
                (CreateState::CreatingBranch, CreateInput::Created { .. }) => true,
                (CreateState::Saving, CreateInput::Saved { .. }) => true,
                _ => false,
            },
        ensures
            create_step_spec(*old(self), *old(store), input, *final(self), *final(store), c),
    {
        match input {
            CreateInput::Created { status, occurred_at } => {
                if !status.success() {
                    self.state = CreateState::Finished;
                    return CreateCommand::Finish(create_outcome(status, self.node.duplicate(), Vec::new()));
                }
                match store.record_tracked(self.node.duplicate(), occurred_at, false) {
                    Err(e) => {
                        self.state = CreateState::Finished;
                        CreateCommand::Fail(e)
                    },
                    Ok(ev) => {
                        self.state = CreateState::Saving;
                        CreateCommand::Save(ev)
                    },
                }
            },
            CreateInput::Saved { lineage } => {
                self.state = CreateState::Finished;
                CreateCommand::Finish(create_outcome(CommandStatus::success_status(), self.node.duplicate(), lineage))
            },
        }
    }
}

// ---------------------------------------------------------------------------
// Deleting a branch.
/// The checks that a deletion makes on the tracked state: not trunk, existing in git
/// (`branch_exists` tells whether it does), tracked, not checked out, and with a parent that is
/// trunk or tracked. Gives back the tracked node's index and its parent branch's name.
pub fn check_branch_deletion(
    state: &DigState,
    config: &DigConfig,
    branch_name: &str,
    original_branch: &str,
    branch_exists: bool,
) -> (r: Result<(usize, String), DigError>)
    ensures
        match r {
            Ok((i, p)) => branch_name@ != config.trunk_branch@ && branch_exists && first_active(
                state.nodes@,
                named(branch_name@),
            ) == Some(i as int) && branch_name@ != original_branch@ && spec_parent_branch_name(
                state.nodes@,
                state.nodes@[i as int],
                config.trunk_branch@,
            ) == Some(p@),
            Err(e) => if branch_name@ == config.trunk_branch@ {
                e.kind == ErrorKind::InvalidInput && e.message@ == "cannot delete trunk branch '"@
                    + config.trunk_branch@ + "'"@
            } else if !branch_exists {
                e.kind == ErrorKind::NotFound && e.message@ == "branch '"@ + branch_name@ + "' does not exist"@
            } else if first_active(state.nodes@, named(branch_name@)) is None {
                e.kind == ErrorKind::NotFound && e.message@ == "branch '"@ + branch_name@
                    + "' is not tracked by dagger"@
            } else if branch_name@ == original_branch@ {
                e.kind == ErrorKind::InvalidInput && e.message@ == "cannot delete checked-out branch '"@
                    + branch_name@ + "'; switch to another branch first"@
            } else {
                spec_parent_branch_name(
                    state.nodes@,
                    state.nodes@[first_active(state.nodes@, named(branch_name@)).unwrap()],
                    config.trunk_branch@,
                ) is None && e.kind == ErrorKind::Other && e.message@ == "tracked parent for '"@
                    + branch_name@ + "' is missing from dagger"@
            },
        },
{
    if str_eq(branch_name, config.trunk_branch.as_str()) {
        return Err(
            DigError::new(
                ErrorKind::InvalidInput,
                message3("cannot delete trunk branch '", config.trunk_branch.as_str(), "'"),
            ),
        );
    }
    if !branch_exists {
        return Err(DigError::new(ErrorKind::NotFound, message3("branch '", branch_name, "' does not exist")));
    }
    let index = match state.index_of_name(branch_name) {
        Some(i) => i,
        None => {
            return Err(
                DigError::new(ErrorKind::NotFound, message3("branch '", branch_name, "' is not tracked by dagger")),
            );
        },
    };
    if str_eq(branch_name, original_branch) {
        return Err(
            DigError::new(
                ErrorKind::InvalidInput,
                message3("cannot delete checked-out branch '", branch_name, "'; switch to another branch first"),
            ),
        );
    }
    proof {
        crate::store::lemma_first_active(state.nodes@, named(branch_name@));
    }
    match state.parent_branch_name(&state.nodes[index], config.trunk_branch.as_str()) {
        Some(parent) => Ok((index, parent)),
        None => Err(
            DigError::new(
                ErrorKind::Other,
                message3("tracked parent for '", branch_name, "' is missing from dagger"),
            ),
        ),
    }
}

/// The last checks of a deletion: its parent branch exists locally, and no tracked descendant of
/// the branch is missing locally (`missing` names those that are).
pub fn check_deletion_locals(
    branch_name: &str,
    parent_branch_name: &str,
    parent_exists_locally: bool,
    missing: &Vec<String>,
) -> (r: Result<(), DigError>)
    ensures
        r is Ok <==> parent_exists_locally && missing@.len() == 0,
        r matches Err(e) ==> e.kind == ErrorKind::NotFound && e.message@ == if !parent_exists_locally {
            "parent branch '"@ + parent_branch_name@ + "' does not exist"@
        } else {
            missing_descendants_message(branch_name@, strs_v(missing@))
        },
{
    if !parent_exists_locally {
        return Err(
            DigError::new(ErrorKind::NotFound, message3("parent branch '", parent_branch_name, "' does not exist")),
        );
    }
    if missing.len() > 0 {
        return Err(missing_descendants_error(branch_name, missing));
    }
    Ok(())
}

/// The error that blocks a deletion while tracked descendants are missing locally.
pub open spec fn missing_descendants_message(branch: Seq<char>, missing: Seq<Seq<char>>) -> Seq<char> {
    "tracked descendants of '"@ + branch + "' are missing locally: "@ + join(missing, ", "@)
}

pub fn missing_descendants_error(branch_name: &str, missing: &Vec<String>) -> (e: DigError)
    ensures
        e.kind == ErrorKind::NotFound,
        e.message@ == missing_descendants_message(branch_name@, strs_v(missing@)),
{
    let names = crate::render::join_strings(missing, ", ");
    DigError::new(
        ErrorKind::NotFound,
        message3("tracked descendants of '", branch_name, "' are missing locally: ").concat(names.as_str()),
    )
}

/// What came of switching back to the branch that was checked out before an operation.
#[derive(Debug, Clone, PartialEq, Eq)]
pub struct RestoreBranchOutcome {
    pub status: CommandStatus,
    pub restored_branch: String,
}

/// The outcome of a deletion whose restack paused on conflicts: nothing is deleted yet, and the
/// restack's status, restacked branches and error output are reported.
pub fn paused_delete_outcome(
    branch_name: String,
    parent_branch_name: String,
    restack_status: CommandStatus,
    restacked_branches: Vec<RestackPreview>,
    failure_output: Option<String>,
) -> (o: DeleteBranchOutcome)
    ensures
        o == (DeleteBranchOutcome {
            status: restack_status,
            branch_name,
            parent_branch_name,
            restacked_branches,
            restored_original_branch: None,
            failure_output,
            paused: true,
        }),
{
    DeleteBranchOutcome {
        status: restack_status,
        branch_name,
        parent_branch_name,
        restacked_branches,
        restored_original_branch: None,
        failure_output,
        paused: true,
    }
}

/// The outcome of a deletion once its restack finished: the deletion's status, and then whether the
/// original branch could be checked out again.
pub fn complete_delete_outcome(
    branch_name: String,
    parent_branch_name: String,
    original_branch: &str,
    restacked_branches: Vec<RestackPreview>,
    restack_status: CommandStatus,
    delete_status: CommandStatus,
    restore: Option<RestoreBranchOutcome>,
) -> (o: DeleteBranchOutcome)
    ensures
        o.branch_name == branch_name,
        o.parent_branch_name == parent_branch_name,
        o.restacked_branches == restacked_branches,
        !o.paused,
        !delete_status.is_success() ==> o.status == delete_status && o.restored_original_branch is None
            && o.failure_output is None,
        delete_status.is_success() ==> match restore {
            None => o.status == restack_status && o.restored_original_branch is None && o.failure_output is None,
            Some(r) => o.status == r.status && if r.status.is_success() {
                o.restored_original_branch == Some(r.restored_branch) && o.failure_output is None
            } else {
                o.restored_original_branch is None && o.failure_output is Some && o.failure_output->Some_0@
                    == "branch deleted, but failed to return to '"@ + original_branch@ + "'"@
            },
        },
{
    if !delete_status.success() {
        return DeleteBranchOutcome {
            status: delete_status,
            branch_name,
            parent_branch_name,
            restacked_branches,
            restored_original_branch: None,
            failure_output: None,
            paused: false,
        };
    }
    let mut final_status = restack_status;
    let mut restored_original_branch: Option<String> = None;
    let mut failure_output: Option<String> = None;
    match restore {
        Some(outcome) => {
            if outcome.status.success() {
                restored_original_branch = Some(outcome.restored_branch);
                final_status = outcome.status;
            } else {
                final_status = outcome.status;
                failure_output = Some(
                    message3("branch deleted, but failed to return to '", original_branch, "'"),
                );
            }
        },
        None => {},
    }
    DeleteBranchOutcome {
        status: final_status,
        branch_name,
        parent_branch_name,
        restacked_branches,
        restored_original_branch,
        failure_output,
        paused: false,
    }
}

// ---------------------------------------------------------------------------
// Showing a deletion.
pub open spec fn delete_summary_lines(o: DeleteBranchOutcome) -> Seq<Seq<char>> {
    seq!["Deleted '"@ + o.branch_name@ + "'. It is no longer tracked by dagger."@] + match o.restored_original_branch {
        Some(b) => seq!["Returned to '"@ + b@ + "' after deleting."@],
        None => seq![],
    }
}

pub fn format_delete_summary(outcome: &DeleteBranchOutcome) -> (r: String)
    ensures
        r@ == join(delete_summary_lines(*outcome), "\n"@),
{
    let mut lines: Vec<String> = Vec::new();
    let first = message3("Deleted '", outcome.branch_name.as_str(), "'. It is no longer tracked by dagger.");
    lines.push(first);
    proof {
        lemma_strs_push(Seq::empty(), first);
        assert(Seq::<String>::empty().push(first) =~= lines@);
    }
    match &outcome.restored_original_branch {
        Some(b) => {
            let ghost before = lines@;
            let l = message3("Returned to '", b.as_str(), "' after deleting.");
            lines.push(l);
            proof {
                lemma_strs_push(before, l);
            }
        },
        None => {},
    }
    assert(strs_v(lines@) =~= delete_summary_lines(*outcome));
    crate::render::join_strings(&lines, "\n")
}

pub open spec fn delete_output_sections(o: DeleteBranchOutcome, rendered_tree: Seq<char>) -> Seq<Seq<char>> {
    seq![join(delete_summary_lines(o), "\n"@)] + (if o.restacked_branches@.len() > 0 {
        seq![join(restacked_lines(o.restacked_branches@), "\n"@)]
    } else {
        seq![]
    }) + if trim(rendered_tree).len() > 0 {
        seq![rendered_tree]
    } else {
        seq![]
    }
}

/// What a successful deletion prints: the summary, the restacked branches, and the tree drawing.
pub fn format_delete_success_output(outcome: &DeleteBranchOutcome, rendered_tree: &str) -> (r: String)
    ensures
        r@ == join(delete_output_sections(*outcome, rendered_tree@), "\n\n"@),
{
    let mut sections: Vec<String> = Vec::new();
    let summary = format_delete_summary(outcome);
    sections.push(summary);
    proof {
        lemma_strs_push(Seq::empty(), summary);
        assert(Seq::<String>::empty().push(summary) =~= sections@);
    }
    if outcome.restacked_branches.len() > 0 {
        let ghost before = sections@;
        let r = format_restacked_branches(&outcome.restacked_branches);
        sections.push(r);
        proof {
            lemma_strs_push(before, r);
        }
    }
    let trimmed = trim_str(rendered_tree);
    if !trimmed.as_str().is_empty() {
        let ghost before = sections@;
        let t = crate::text::to_owned_string(rendered_tree);
        sections.push(t);
        proof {
            lemma_strs_push(before, t);
        }
    }
    assert(strs_v(sections@) =~= delete_output_sections(*outcome, rendered_tree@));
    join_sections(&sections)
}

/// The lines a failed deletion shows on stderr: the guidance to resolve conflicts when its restack
/// paused, else the git error output, if there is any.
pub fn delete_failure_lines(outcome: &DeleteBranchOutcome) -> (r: Vec<String>)
    ensures
        strs_v(r@) == match shown_output(
            match outcome.failure_output {
                Some(o) => Some(o@),
                None => None,
            },
        ) {
            Some(t) => seq![t],
            None => Seq::<Seq<char>>::empty(),
        } + if outcome.paused {
            seq![RESOLVE_GUIDANCE@, RERUN_GUIDANCE@]
        } else {
            Seq::<Seq<char>>::empty()
        },
{
    let output = match &outcome.failure_output {
        Some(o) => Some(o.as_str()),
        None => None,
    };
    if outcome.paused {
        return restack_pause_lines(output);
    }
    let mut lines: Vec<String> = Vec::new();
    match trimmed_output(output) {
        Some(t) => {
            lines.push(t);
            assert(strs_v(lines@) =~= seq![t@]);
        },
        None => {
            assert(strs_v(lines@) =~= Seq::<Seq<char>>::empty());
        },
    }
    proof {
        assert(strs_v(lines@) + Seq::<Seq<char>>::empty() =~= strs_v(lines@));
    }
    lines
}

} // verus!
