//! `dig merge`: merging a tracked branch into its parent, its plan, its commit message and its animation.
use vstd::prelude::*;

use crate::error::{message3, CommandStatus, DigError, ErrorKind};
use crate::operation::{
    law_final_view_is_active_view, lemma_update_keeps_roots_undeleted, lemma_update_seq_skip,
    no_deleted_root, sections_text, update_seq, visual_v, BranchStatus, OperationSection,
    StatusChange, VisualNode, VisualV,
};
use crate::render::{join, join_strings, lemma_strs_push, strs_v, RestackPreview};
use crate::store::{
    first_active, named, spec_parent_branch_name, with_id, BranchNode, DigState, NodeId, ParentRef,
};
use crate::text::{trim, trim_str};
use crate::workflow::{CheckoutBranchOutcome, RestackAction, RestackExecutionOutcome};

verus! {

#[derive(Debug, Clone, Copy, PartialEq, Eq, Structural)]
pub enum MergeMode {
    Normal,
    Squash,
}

#[derive(Debug, Clone, PartialEq, Eq)]
pub struct MergeOptions {
    pub branch_name: String,
    pub mode: MergeMode,
    pub messages: Vec<String>,
}

/// A tracked branch with the tracked branches stacked on it.
#[derive(Debug, PartialEq, Eq)]
pub struct MergeTreeNode {
    pub branch_name: String,
    pub children: Vec<MergeTreeNode>,
}

pub struct MergeTreeV {
    pub name: Seq<char>,
    pub children: Seq<MergeTreeV>,
}

pub open spec fn merge_tree_v(t: MergeTreeNode) -> MergeTreeV
    decreases t,
{
    MergeTreeV {
        name: t.branch_name@,
        children: Seq::new(
            t.children@.len(),
            |i: int|
                if 0 <= i < t.children@.len() {
                    merge_tree_v(t.children@[i])
                } else {
                    arbitrary()
                },
        ),
    }
}

pub open spec fn merge_trees_v(s: Seq<MergeTreeNode>) -> Seq<MergeTreeV> {
    Seq::new(s.len(), |i: int| merge_tree_v(s[i]))
}

proof fn lemma_merge_tree_children(t: MergeTreeNode)
    ensures
        merge_tree_v(t).children == merge_trees_v(t.children@),
{
    assert(merge_tree_v(t).children =~= merge_trees_v(t.children@));
}

/// What a merge is going to do, as planned before it starts.
#[derive(Debug, PartialEq, Eq)]
pub struct MergePlan {
    pub trunk_branch: String,
    pub current_branch: String,
    pub source_branch_name: String,
    pub target_branch_name: String,
    pub source_node_id: NodeId,
    pub mode: MergeMode,
    pub messages: Vec<String>,
    pub tree: MergeTreeNode,
    pub restack_plan: Vec<RestackPreview>,
}

impl MergePlan {
    pub fn requires_target_checkout(&self) -> (r: bool)
        ensures
            r == (self.current_branch@ != self.target_branch_name@),
    {
        !crate::text::str_eq(self.current_branch.as_str(), self.target_branch_name.as_str())
    }
}

#[derive(Debug, Clone, PartialEq, Eq)]
pub struct MergeOutcome {
    pub status: CommandStatus,
    pub switched_to_target_from: Option<String>,
    pub restacked_branches: Vec<RestackPreview>,
    pub failure_output: Option<String>,
}

#[derive(Debug, Clone, PartialEq, Eq)]
pub struct DeleteMergedBranchOutcome {
    pub status: CommandStatus,
    pub deleted_branch_name: Option<String>,
}

/// The steps a merge reports while it runs.
#[derive(Debug, Clone, PartialEq, Eq)]
pub enum MergeEvent {
    SwitchingToTarget { from_branch: String, to_branch: String },
    SwitchedToTarget { from_branch: String, to_branch: String },
    MergeStarted { source_branch: String, target_branch: String, mode: MergeMode },
    MergeCompleted { source_branch: String, target_branch: String, mode: MergeMode },
    RebaseStarted { branch_name: String, onto_branch: String },
    RebaseProgress {
        branch_name: String,
        onto_branch: String,
        current_commit: usize,
        total_commits: usize,
    },
    RebaseCompleted { branch_name: String, onto_branch: String },
}

/// A commit of the merged branch: its hash and subject.
#[derive(Debug, Clone, PartialEq, Eq)]
pub struct CommitMetadata {
    pub sha: String,
    pub subject: String,
    pub body: String,
}

// ---------------------------------------------------------------------------
// The request.
/// The messages that count: trimmed, blank ones dropped.
pub open spec fn kept_messages(ms: Seq<Seq<char>>) -> Seq<Seq<char>>
    decreases ms.len(),
{
    if ms.len() == 0 {
        seq![]
    } else {
        kept_messages(ms.drop_last()) + if trim(ms.last()).len() > 0 {
            seq![trim(ms.last())]
        } else {
            seq![]
        }
    }
}

/// Checks a merge request: the branch name trimmed and not blank, and messages only with a squash.
/// Gives back the branch name and the messages that count.
pub fn validate_merge_options(options: &MergeOptions) -> (r: Result<(String, Vec<String>), DigError>)
    ensures
        ({
            let name = trim(options.branch_name@);
            let kept = kept_messages(strs_v(options.messages@));
            match r {
                Ok((b, ms)) => name.len() > 0 && !(options.mode != MergeMode::Squash && kept.len() > 0)
                    && b@ == name && strs_v(ms@) == kept,
                Err(e) => e.kind == ErrorKind::InvalidInput && if name.len() == 0 {
                    e.message@ == "branch name cannot be empty"@
                } else {
                    options.mode != MergeMode::Squash && kept.len() > 0 && e.message@
                        == "--message can only be used with --squash"@
                },
            }
        }),
{
    let branch_name = trim_str(options.branch_name.as_str());
    if branch_name.as_str().is_empty() {
        return Err(DigError::new(ErrorKind::InvalidInput, String::from_str("branch name cannot be empty")));
    }
    let ghost ms = strs_v(options.messages@);
    let mut messages: Vec<String> = Vec::new();
    let mut i: usize = 0;
    while i < options.messages.len()
        invariant
            i <= options.messages@.len(),
            ms == strs_v(options.messages@),
            strs_v(messages@) == kept_messages(ms.take(i as int)),
        decreases options.messages@.len() - i,
    {
        proof {
            let t = ms.take(i as int + 1);
            assert(t.drop_last() =~= ms.take(i as int));
            assert(t.last() == options.messages@[i as int]@);
        }
        let m = trim_str(options.messages[i].as_str());
        if !m.as_str().is_empty() {
            let ghost before = messages@;
            messages.push(m);
            proof {
                lemma_strs_push(before, m);
            }
        }
        i = i + 1;
    }
    assert(ms.take(ms.len() as int) =~= ms);
    if options.mode != MergeMode::Squash && messages.len() > 0 {
        return Err(
            DigError::new(ErrorKind::InvalidInput, String::from_str("--message can only be used with --squash")),
        );
    }
    Ok((branch_name, messages))
}

// ---------------------------------------------------------------------------
// What the plan reads from the store.
/// The tracked node a merge takes, and the branch it merges into: the node's tracked parent, or trunk.
/// `source_exists_locally` tells whether git has a local branch of that name. Gives back the node's
/// id, its branch name and the target branch's name.
pub fn resolve_merge_source(
    state: &DigState,
    trunk_branch: &str,
    branch_name: &str,
    source_exists_locally: bool,
) -> (r: Result<(NodeId, String, String), DigError>)
    ensures
        match first_active(state.nodes@, named(branch_name@)) {
            None => r is Err && r->Err_0.kind == ErrorKind::NotFound && r->Err_0.message@ == "'"@
                + branch_name@ + "' is not tracked by dig"@,
            Some(i) => {
                let node = state.nodes@[i];
                if !source_exists_locally {
                    r is Err && r->Err_0.kind == ErrorKind::NotFound && r->Err_0.message@
                        == "tracked branch '"@ + node.branch_name@ + "' no longer exists locally"@
                } else {
                    match spec_parent_branch_name(state.nodes@, node, trunk_branch@) {
                        None => r is Err && r->Err_0.kind == ErrorKind::Other && r->Err_0.message@
                            == "tracked parent for '"@ + node.branch_name@ + "' is missing from dig"@,
                        Some(target) => r is Ok && r->Ok_0.0 == node.id && r->Ok_0.1@ == node.branch_name@
                            && r->Ok_0.2@ == target,
                    }
                }
            },
        },
{
    let node = match state.find_branch_by_name(branch_name) {
        None => {
            return Err(DigError::new(ErrorKind::NotFound, message3("'", branch_name, "' is not tracked by dig")));
        },
        Some(n) => n,
    };
    if !source_exists_locally {
        return Err(
            DigError::new(
                ErrorKind::NotFound,
                message3("tracked branch '", node.branch_name.as_str(), "' no longer exists locally"),
            ),
        );
    }
    match state.parent_branch_name(node, trunk_branch) {
        None => Err(
            DigError::new(
                ErrorKind::Other,
                message3("tracked parent for '", node.branch_name.as_str(), "' is missing from dig"),
            ),
        ),
        Some(target) => Ok((node.id, node.branch_name.clone(), target)),
    }
}

/// The last checks of a merge plan: the target branch exists locally, and no tracked descendant of
/// the merged branch is missing locally (`missing` names those that are).
pub fn check_merge_target(target_branch: &str, target_exists_locally: bool, missing: &Vec<String>) -> (r: Result<
    (),
    DigError,
>)
    ensures
        r is Ok <==> target_exists_locally && missing@.len() == 0,
        r matches Err(e) ==> e.kind == ErrorKind::NotFound && e.message@ == if !target_exists_locally {
            "target branch '"@ + target_branch@ + "' does not exist locally"@
        } else {
            "tracked descendants are missing locally: "@ + join(strs_v(missing@), ", "@)
        },
{
    if !target_exists_locally {
        return Err(
            DigError::new(ErrorKind::NotFound, message3("target branch '", target_branch, "' does not exist locally")),
        );
    }
    if missing.len() > 0 {
        return Err(merge_missing_descendants_error(missing));
    }
    Ok(())
}

/// The error that blocks a merge while tracked descendants of the merged branch are missing locally.
fn merge_missing_descendants_error(missing: &Vec<String>) -> (e: DigError)
    ensures
        e.kind == ErrorKind::NotFound,
        e.message@ == "tracked descendants are missing locally: "@ + join(strs_v(missing@), ", "@),
{
    let names = join_strings(missing, ", ");
    DigError::new(ErrorKind::NotFound, String::from_str("tracked descendants are missing locally: ").concat(names.as_str()))
}

// ---------------------------------------------------------------------------
// The squash commit message.
pub open spec fn commit_listing_entry(c: CommitMetadata) -> Seq<char> {
    "commit "@ + c.sha@ + "\n    "@ + c.subject@
}

/// The sections of a squash commit's message: the messages (or a default subject), then the merged commits.
pub open spec fn squash_sections(
    source: Seq<char>,
    target: Seq<char>,
    messages: Seq<Seq<char>>,
    commits: Seq<CommitMetadata>,
) -> Seq<Seq<char>> {
    seq![
        if messages.len() == 0 {
            "merge "@ + source + " into "@ + target
        } else {
            join(messages, "\n\n"@)
        },
    ] + if commits.len() > 0 {
        seq![join(Seq::new(commits.len(), |i: int| commit_listing_entry(commits[i])), "\n\n"@)]
    } else {
        seq![]
    }
}

proof fn lemma_join_starts_with_first(p: Seq<Seq<char>>, sep: Seq<char>)
    requires
        p.len() > 0,
    ensures
        join(p, sep).len() >= p[0].len(),
        join(p, sep).take(p[0].len() as int) == p[0],
    decreases p.len(),
{
    if p.len() == 1 {
        assert(join(p, sep).take(p[0].len() as int) =~= p[0]);
    } else {
        let d = p.drop_last();
        lemma_join_starts_with_first(d, sep);
        assert(d[0] == p[0]);
        let j = join(d, sep) + sep + p.last();
        assert(join(p, sep) == j);
        assert(j.take(p[0].len() as int) =~= join(d, sep).take(p[0].len() as int));
    }
}

/// A squash commit's message opens with what the user wrote, the messages joined by blank lines, or,
/// when there is none, with "merge <source> into <target>"; the list of merged commits follows only
/// when there are commits, and then the message ends with the last commit's entry.
pub proof fn law_squash_message_opens_with_the_subject(
    source: Seq<char>,
    target: Seq<char>,
    messages: Seq<Seq<char>>,
    commits: Seq<CommitMetadata>,
)
    ensures
        ({
            let m = join(squash_sections(source, target, messages, commits), "\n\n"@);
            let subject = if messages.len() == 0 {
                "merge "@ + source + " into "@ + target
            } else {
                join(messages, "\n\n"@)
            };
            &&& m.len() >= subject.len()
            &&& m.take(subject.len() as int) == subject
            &&& commits.len() == 0 ==> m == subject
            &&& commits.len() > 0 ==> {
                let last = commit_listing_entry(commits.last());
                &&& m.len() >= last.len()
                &&& m.skip(m.len() - last.len()) == last
            }
        }),
{
    let secs = squash_sections(source, target, messages, commits);
    lemma_join_starts_with_first(secs, "\n\n"@);
    if commits.len() > 0 {
        let entries = Seq::new(commits.len(), |i: int| commit_listing_entry(commits[i]));
        let listing = join(entries, "\n\n"@);
        assert(secs.len() == 2);
        assert(secs.drop_last() =~= seq![secs[0]]);
        assert(join(secs, "\n\n"@) == join(secs.drop_last(), "\n\n"@) + "\n\n"@ + listing);
        let last = commit_listing_entry(commits.last());
        if entries.len() == 1 {
            assert(listing == last);
        } else {
            assert(listing == join(entries.drop_last(), "\n\n"@) + "\n\n"@ + entries.last());
        }
        assert(entries.last() == last);
        let m = join(secs, "\n\n"@);
        assert(m.skip(m.len() - last.len()) =~= last);
    } else {
        assert(secs.len() == 1);
    }
}

pub fn build_squash_commit_message(
    source_branch_name: &str,
    target_branch_name: &str,
    messages: &Vec<String>,
    source_commits: &Vec<CommitMetadata>,
) -> (r: String)
    ensures
        r@ == join(
            squash_sections(source_branch_name@, target_branch_name@, strs_v(messages@), source_commits@),
            "\n\n"@,
        ),
{
    let mut sections: Vec<String> = Vec::new();
    let first = if messages.len() == 0 {
        let mut s = String::from_str("merge ");
        s.append(source_branch_name);
        s.append(" into ");
        s.append(target_branch_name);
        s
    } else {
        join_strings(messages, "\n\n")
    };
    sections.push(first);
    if source_commits.len() > 0 {
        let mut entries: Vec<String> = Vec::new();
        let mut i: usize = 0;
        while i < source_commits.len()
            invariant
                i <= source_commits@.len(),
                entries@.len() == i,
                forall|k: int| 0 <= k < i ==> #[trigger] entries@[k]@ == commit_listing_entry(source_commits@[k]),
            decreases source_commits@.len() - i,
        {
            let mut e = String::from_str("commit ");
            e.append(source_commits[i].sha.as_str());
            e.append("\n    ");
            e.append(source_commits[i].subject.as_str());
            entries.push(e);
            i = i + 1;
        }
        assert(strs_v(entries@) =~= Seq::new(
            source_commits@.len(),
            |i: int| commit_listing_entry(source_commits@[i]),
        ));
        sections.push(join_strings(&entries, "\n\n"));
    }
    assert(strs_v(sections@) =~= squash_sections(
        source_branch_name@,
        target_branch_name@,
        strs_v(messages@),
        source_commits@,
    ));
    join_strings(&sections, "\n\n")
}

// ---------------------------------------------------------------------------
// The merged branch's subtree.
/// Positions of the non-archived nodes that hang on `id`, in store order.
pub open spec fn child_node_positions(nodes: Seq<BranchNode>, id: NodeId) -> Seq<usize> {
    crate::tree::positions(
        nodes.len(),
        |p: nat| !nodes[p as int].archived && nodes[p as int].parent == ParentRef::Branch { node_id: id },
    )
}

/// The ids of the non-archived nodes that hang on `id`, in store order.
pub open spec fn child_ids(nodes: Seq<BranchNode>, id: NodeId) -> Seq<NodeId> {
    let ps = child_node_positions(nodes, id);
    Seq::new(ps.len(), |i: int| nodes[ps[i] as int].id)
}

/// The subtree of the tracked node with id `id`, unfolded at most `fuel` levels below it
/// (meaningful when such a node exists).
pub open spec fn merge_tree_of(nodes: Seq<BranchNode>, id: NodeId, fuel: nat) -> MergeTreeV
    decreases fuel,
{
    let i = first_active(nodes, with_id(id)).unwrap();
    MergeTreeV {
        name: nodes[i].branch_name@,
        children: if fuel == 0 {
            seq![]
        } else {
            let cs = child_ids(nodes, id);
            Seq::new(cs.len(), |k: int| merge_tree_of(nodes, cs[k], (fuel - 1) as nat))
        },
    }
}

/// The ids of the non-archived nodes that hang on `node_id`, in store order.
pub fn active_children_ids(state: &DigState, node_id: NodeId) -> (r: Vec<NodeId>)
    ensures
        r@ == child_ids(state.nodes@, node_id),
{
    let ghost nodes = state.nodes@;
    let ghost pred = |p: nat| !nodes[p as int].archived && nodes[p as int].parent == ParentRef::Branch {
        node_id,
    };
    let mut r: Vec<NodeId> = Vec::new();
    let mut p: usize = 0;
    while p < state.nodes.len()
        invariant
            p <= nodes.len(),
            nodes == state.nodes@,
            pred == (|p: nat| !nodes[p as int].archived && nodes[p as int].parent == ParentRef::Branch {
                node_id,
            }),
            r@.len() == crate::tree::positions(p as nat, pred).len(),
            forall|k: int|
                0 <= k < r@.len() ==> #[trigger] r@[k] == nodes[crate::tree::positions(p as nat, pred)[k] as int].id,
            forall|k: int|
                0 <= k < r@.len() ==> #[trigger] crate::tree::positions(p as nat, pred)[k] < p,
        decreases nodes.len() - p,
    {
        let n = &state.nodes[p];
        let is_child = !n.archived && n.parent == ParentRef::Branch { node_id };
        assert(is_child == pred(p as nat));
        if is_child {
            r.push(n.id);
        }
        p = p + 1;
    }
    proof {
        let ps = crate::tree::positions(nodes.len(), pred);
        assert(r@ =~= Seq::new(ps.len(), |i: int| nodes[ps[i] as int].id));
    }
    r
}

/// The subtree of the tracked node `node_id`, each branch with the tracked branches stacked on it.
pub fn build_merge_tree(state: &DigState, node_id: NodeId) -> (r: Result<MergeTreeNode, DigError>)
    ensures
        match first_active(state.nodes@, with_id(node_id)) {
            Some(_) => r is Ok && merge_tree_v(r->Ok_0) == merge_tree_of(state.nodes@, node_id, state.nodes@.len()),
            None => r is Err && r->Err_0.kind == ErrorKind::NotFound && r->Err_0.message@
                == crate::store::node_not_found_message(),
        },
{
    build_merge_tree_within(state, node_id, state.nodes.len())
}

fn build_merge_tree_within(state: &DigState, node_id: NodeId, fuel: usize) -> (r: Result<MergeTreeNode, DigError>)
    ensures
        match first_active(state.nodes@, with_id(node_id)) {
            Some(_) => r is Ok && merge_tree_v(r->Ok_0) == merge_tree_of(state.nodes@, node_id, fuel as nat),
            None => r is Err && r->Err_0.kind == ErrorKind::NotFound && r->Err_0.message@
                == crate::store::node_not_found_message(),
        },
    decreases fuel,
{
    proof {
        crate::store::lemma_first_active(state.nodes@, with_id(node_id));
    }
    let node = match state.find_branch_by_id(node_id) {
        None => {
            return Err(DigError::new(ErrorKind::NotFound, String::from_str("tracked branch was not found")));
        },
        Some(n) => n,
    };
    let mut children: Vec<MergeTreeNode> = Vec::new();
    assert(state.nodes.len() <= usize::MAX);
    if fuel > 0 {
        let ids = active_children_ids(state, node_id);
        let mut k: usize = 0;
        while k < ids.len()
            invariant
                fuel > 0,
                state.nodes@.len() <= usize::MAX,
                k <= ids@.len(),
                ids@ == child_ids(state.nodes@, node_id),
                children@.len() == k,
                subtrees_built(state.nodes@, ids@, children@, (fuel - 1) as nat),
            decreases ids@.len() - k,
        {
            proof {
                let ps = child_node_positions(state.nodes@, node_id);
                lemma_child_position(state.nodes@, node_id, k as int);
                crate::store::lemma_first_active(state.nodes@, with_id(ids@[k as int]));
                assert(ids@[k as int] == state.nodes@[ps[k as int] as int].id);
                assert(with_id(ids@[k as int])(state.nodes@[ps[k as int] as int]));
                assert(first_active(state.nodes@, with_id(ids@[k as int])) is Some);
            }
            let sub = build_merge_tree_within(state, ids[k], fuel - 1);
            let t = match sub {
                Ok(t) => t,
                Err(e) => {
                    return Err(e);
                },
            };
            assert(merge_tree_v(t) == merge_tree_of(state.nodes@, ids@[k as int], (fuel - 1) as nat));
            let ghost before = children@;
            children.push(t);
            proof {
                let f = (fuel - 1) as nat;
                assert forall|j: int| 0 <= j < children@.len() implies #[trigger] merge_tree_v(children@[j])
                    == merge_tree_of(state.nodes@, ids@[j], f) by {
                    if j < k {
                        assert(children@[j] == before[j]);
                    }
                }
                assert(subtrees_built(state.nodes@, ids@, children@, f));
            }
            k = k + 1;
        }
    }
    let t = MergeTreeNode { branch_name: node.branch_name.clone(), children };
    proof {
        lemma_merge_tree_children(t);
        let want = merge_tree_of(state.nodes@, node_id, fuel as nat);
        assert(merge_tree_v(t).children =~= want.children);
    }
    Ok(t)
}

/// The first trees of `children` are the subtrees of the first ids of `ids`.
pub open spec fn subtrees_built(nodes: Seq<BranchNode>, ids: Seq<NodeId>, children: Seq<MergeTreeNode>, fuel: nat) -> bool {
    forall|j: int|
        0 <= j < children.len() ==> #[trigger] merge_tree_v(children[j]) == merge_tree_of(nodes, ids[j], fuel)
}

/// Each child position names a non-archived node in range.
proof fn lemma_child_position(nodes: Seq<BranchNode>, id: NodeId, k: int)
    requires
        nodes.len() <= usize::MAX,
        0 <= k < child_node_positions(nodes, id).len(),
    ensures
        child_node_positions(nodes, id)[k] < nodes.len(),
        !nodes[child_node_positions(nodes, id)[k] as int].archived,
{
    let pred = |p: nat| !nodes[p as int].archived && nodes[p as int].parent == ParentRef::Branch { node_id: id };
    crate::tree::lemma_positions(nodes.len(), pred);
    let ps = crate::tree::positions(nodes.len(), pred);
    assert(pred(ps[k] as nat));
}

// ---------------------------------------------------------------------------
// The animation of a running merge.
/// The drawing of a merge tree before anything happened: every branch pending.
pub open spec fn pending_v(t: MergeTreeV) -> VisualV
    decreases t,
{
    VisualV {
        name: t.name,
        status: BranchStatus::Pending,
        children: Seq::new(
            t.children.len(),
            |i: int|
                if 0 <= i < t.children.len() {
                    pending_v(t.children[i])
                } else {
                    arbitrary()
                },
        ),
    }
}

pub fn visual_node_from_tree(tree: &MergeTreeNode) -> (n: VisualNode)
    ensures
        visual_v(n) == pending_v(merge_tree_v(*tree)),
    decreases tree,
{
    let mut children: Vec<VisualNode> = Vec::new();
    let mut i: usize = 0;
    while i < tree.children.len()
        invariant
            i <= tree.children@.len(),
            children@.len() == i,
            forall|k: int| 0 <= k < i ==> #[trigger] visual_v(children@[k]) == pending_v(
                merge_tree_v(tree.children@[k]),
            ),
        decreases tree.children@.len() - i,
    {
        children.push(visual_node_from_tree(&tree.children[i]));
        i = i + 1;
    }
    let n = VisualNode::new(tree.branch_name.clone(), children);
    proof {
        lemma_merge_tree_children(*tree);
        crate::operation::lemma_visual_children(n);
        let mt = merge_tree_v(*tree);
        assert forall|k: int| 0 <= k < tree.children@.len() implies #[trigger] visual_v(n).children[k]
            == pending_v(mt).children[k] by {
            assert(mt.children[k] == merge_tree_v(tree.children@[k]));
        }
        assert(visual_v(n).children =~= pending_v(merge_tree_v(*tree)).children);
    }
    n
}

/// The trees of an animation's sections, in order.
pub open spec fn roots_v(sections: Seq<OperationSection>) -> Seq<VisualV> {
    Seq::new(sections.len(), |i: int| visual_v(sections[i].root))
}

/// The section labels and flags, which events never change.
pub open spec fn same_frames(a: Seq<OperationSection>, b: Seq<OperationSection>) -> bool {
    &&& a.len() == b.len()
    &&& forall|i: int|
        0 <= i < a.len() ==> (#[trigger] a[i]).root_label == b[i].root_label
            && a[i].promote_children_on_deleted_root == b[i].promote_children_on_deleted_root
}

/// The branch that an event is about, and what happens to it; none for the switching events.
pub open spec fn event_change(e: MergeEvent) -> Option<(Seq<char>, StatusChange)> {
    match e {
        MergeEvent::SwitchingToTarget { .. } => None,
        MergeEvent::SwitchedToTarget { .. } => None,
        MergeEvent::MergeStarted { source_branch, .. } => Some((source_branch@, StatusChange::Start)),
        MergeEvent::MergeCompleted { source_branch, .. } => Some((source_branch@, StatusChange::Succeed)),
        MergeEvent::RebaseStarted { branch_name, .. } => Some((branch_name@, StatusChange::Start)),
        MergeEvent::RebaseProgress { branch_name, current_commit, total_commits, .. } => Some(
            (branch_name@, StatusChange::Progress { current_commit, total_commits }),
        ),
        MergeEvent::RebaseCompleted { branch_name, .. } => Some((branch_name@, StatusChange::Succeed)),
    }
}

/// The drawn trees after one event: the change applied to the first branch of that name, if any.
pub open spec fn event_roots(roots: Seq<VisualV>, e: MergeEvent) -> Seq<VisualV> {
    match event_change(e) {
        None => roots,
        Some((name, change)) => match update_seq(roots, name, change) {
            Some(rs) => rs,
            None => roots,
        },
    }
}

/// The drawn trees after the events, in order.
pub open spec fn roots_after(roots: Seq<VisualV>, events: Seq<MergeEvent>) -> Seq<VisualV>
    decreases events.len(),
{
    if events.len() == 0 {
        roots
    } else {
        event_roots(roots_after(roots, events.drop_last()), events.last())
    }
}

proof fn lemma_roots_after_undeleted(roots: Seq<VisualV>, events: Seq<MergeEvent>)
    requires
        no_deleted_root(roots),
    ensures
        no_deleted_root(roots_after(roots, events)),
    decreases events.len(),
{
    if events.len() > 0 {
        lemma_roots_after_undeleted(roots, events.drop_last());
        let r = roots_after(roots, events.drop_last());
        match event_change(events.last()) {
            Some((name, change)) => lemma_update_keeps_roots_undeleted(r, name, change),
            None => {},
        }
    }
}

/// Once a merge's animation is built and any events are applied to it, its final drawing is its
/// active drawing: no merge event marks a branch deleted, so no branch is ever left out.
pub proof fn law_merge_final_drawing_is_active(
    plan: MergePlan,
    events: Seq<MergeEvent>,
    sections: Seq<OperationSection>,
)
    requires
        roots_v(sections) == roots_after(seq![pending_v(merge_tree_v(plan.tree))], events),
    ensures
        sections_text(sections, true) == sections_text(sections, false),
{
    let init = seq![pending_v(merge_tree_v(plan.tree))];
    assert(no_deleted_root(init)) by {
        assert(init[0].status == BranchStatus::Pending);
    }
    lemma_roots_after_undeleted(init, events);
    assert forall|i: int| 0 <= i < sections.len() implies (#[trigger] sections[i]).root.status
        != BranchStatus::Deleted by {
        assert(roots_v(sections)[i] == visual_v(sections[i].root));
    }
    law_final_view_is_active_view(sections);
}

/// The animation of a merge: the target branch with the merged branch's subtree below it.
#[derive(Debug)]
pub struct MergeAnimation {
    pub sections: Vec<OperationSection>,
}

impl MergeAnimation {
    pub fn new(plan: &MergePlan) -> (a: MergeAnimation)
        ensures
            a.sections@.len() == 1,
            roots_v(a.sections@) == seq![pending_v(merge_tree_v(plan.tree))],
            a.sections@[0].root_label@ == plan.target_branch_name@,
            a.sections@[0].promote_children_on_deleted_root,
            visual_v(a.sections@[0].root) == pending_v(merge_tree_v(plan.tree)),
    {
        let mut sections: Vec<OperationSection> = Vec::new();
        sections.push(
            OperationSection {
                root_label: plan.target_branch_name.clone(),
                root: visual_node_from_tree(&plan.tree),
                promote_children_on_deleted_root: true,
            },
        );
        MergeAnimation { sections }
    }

    /// Applies the change to the first node with that name, looking in the sections in order.
    fn find_node_and_update(&mut self, branch_name: &str, change: StatusChange) -> (found: bool)
        ensures
            same_frames(old(self).sections@, final(self).sections@),
            match update_seq(roots_v(old(self).sections@), branch_name@, change) {
                Some(rs) => found && roots_v(final(self).sections@) == rs,
                None => !found && roots_v(final(self).sections@) == roots_v(old(self).sections@),
            },
    {
        let ghost orig = roots_v(self.sections@);
        let mut i: usize = 0;
        assert(orig.skip(0) =~= orig);
        while i < self.sections.len()
            invariant
                i <= self.sections@.len(),
                orig == roots_v(old(self).sections@),
                same_frames(old(self).sections@, self.sections@),
                forall|k: int| i <= k < self.sections@.len() ==> #[trigger] self.sections@[k] == old(
                    self,
                ).sections@[k],
                forall|k: int|
                    0 <= k < i ==> #[trigger] visual_v(self.sections@[k].root) == visual_v(old(self).sections@[k].root),
                update_seq(orig, branch_name@, change) == match update_seq(orig.skip(i as int), branch_name@, change) {
                    Some(rest) => Some(orig.take(i as int) + rest),
                    None => None,
                },
            decreases self.sections@.len() - i,
        {
            proof {
                lemma_update_seq_skip(orig, branch_name@, change, i as int);
            }
            let ghost before = self.sections@;
            let found = self.sections[i].root.update_status(branch_name, change);
            proof {
                assert forall|k: int| 0 <= k < self.sections@.len() implies (#[trigger] old(self).sections@[k]).root_label
                    == self.sections@[k].root_label && old(self).sections@[k].promote_children_on_deleted_root
                    == self.sections@[k].promote_children_on_deleted_root by {
                    if k != i {
                        assert(self.sections@[k] == before[k]);
                    }
                }
            }
            if found {
                proof {
                    let nv = roots_v(self.sections@);
                    let x = crate::operation::update_node(orig[i as int], branch_name@, change).unwrap();
                    let want = orig.take(i as int) + orig.skip(i as int).update(0, x);
                    assert forall|k: int| 0 <= k < nv.len() implies #[trigger] nv[k] == want[k] by {
                        if k > i {
                            assert(self.sections@[k] == old(self).sections@[k]);
                        }
                    }
                    assert(want =~= nv);
                }
                return true;
            }
            proof {
                assert forall|rest: Seq<VisualV>| true implies orig.take(i as int) + (seq![orig[i as int]] + rest)
                    =~= orig.take(i as int + 1) + rest by {}
                assert forall|k: int| 0 <= k < i + 1 implies #[trigger] visual_v(self.sections@[k].root)
                    == visual_v(old(self).sections@[k].root) by {
                    if k < i {
                        assert(self.sections@[k] == before[k]);
                    }
                }
            }
            i = i + 1;
        }
        proof {
            assert(orig.skip(i as int).len() == 0);
            assert(roots_v(self.sections@) =~= orig);
        }
        false
    }

    /// Marks the branch an event is about; tells whether the drawing changed.
    pub fn apply_event(&mut self, event: &MergeEvent) -> (changed: bool)
        ensures
            same_frames(old(self).sections@, final(self).sections@),
            roots_v(final(self).sections@) == event_roots(roots_v(old(self).sections@), *event),
            match event_change(*event) {
                None => !changed && roots_v(final(self).sections@) == roots_v(old(self).sections@),
                Some((name, change)) => match update_seq(roots_v(old(self).sections@), name, change) {
                    Some(rs) => changed && roots_v(final(self).sections@) == rs,
                    None => !changed && roots_v(final(self).sections@) == roots_v(old(self).sections@),
                },
            },
    {
        match event {
            MergeEvent::SwitchingToTarget { .. } | MergeEvent::SwitchedToTarget { .. } => false,
            MergeEvent::MergeStarted { source_branch, .. } => self.find_node_and_update(
                source_branch.as_str(),
                StatusChange::Start,
            ),
            MergeEvent::MergeCompleted { source_branch, .. } => self.find_node_and_update(
                source_branch.as_str(),
                StatusChange::Succeed,
            ),
            MergeEvent::RebaseStarted { branch_name, .. } => self.find_node_and_update(
                branch_name.as_str(),
                StatusChange::Start,
            ),
            MergeEvent::RebaseProgress { branch_name, current_commit, total_commits, .. } => self.find_node_and_update(
                branch_name.as_str(),
                StatusChange::Progress { current_commit: *current_commit, total_commits: *total_commits },
            ),
            MergeEvent::RebaseCompleted { branch_name, .. } => self.find_node_and_update(
                branch_name.as_str(),
                StatusChange::Succeed,
            ),
        }
    }

    pub fn render_active(&self) -> (r: String)
        ensures
            r@ == crate::operation::sections_text(self.sections@, false),
    {
        crate::operation::render_sections(&self.sections, false)
    }

    pub fn render_final(&self) -> (r: String)
        ensures
            r@ == crate::operation::sections_text(self.sections@, true),
    {
        crate::operation::render_sections(&self.sections, true)
    }
}

// ---------------------------------------------------------------------------
// Running a merge, step by step.
/// Where a running merge stands.
#[derive(Debug, Clone, PartialEq, Eq)]
pub enum MergeApplyState {
    /// Nothing done yet.
    Ready,
    /// Switching from `from_branch` to the target branch.
    SwitchingToTarget { from_branch: String },
    /// Merging; `switched_from` is the branch that was left, if a switch was made.
    Merging { switched_from: Option<String> },
    /// Restacking the branches that were stacked on the merged one.
    Restacking { switched_from: Option<String> },
    /// Making sure the target is checked out again after the restack.
    Returning { switched_from: Option<String>, restack: RestackExecutionOutcome },
    Finished,
}

/// What the outside work of the last command gave back.
#[derive(Debug, Clone, PartialEq, Eq)]
pub enum MergeApplyInput {
    Begin { current_branch: String },
    CheckedOut(CheckoutBranchOutcome),
    Merged { status: CommandStatus, combined_output: String },
    Restacked(RestackExecutionOutcome),
}

/// The outside work to do next.
#[derive(Debug, Clone, PartialEq, Eq)]
pub enum MergeApplyCommand {
    /// Check the target branch out.
    SwitchToTarget,
    /// Merge (or squash-merge) the source branch into the target.
    Merge,
    /// Restack the branches that were stacked on the source onto the target.
    Restack,
    /// Check the target branch out if it is not the current branch any more.
    ReturnToTarget,
    /// The merge is over.
    Finish(MergeOutcome),
}

/// One step: the events to report, the work to do, and the state after it.
#[derive(Debug, Clone, PartialEq, Eq)]
pub struct MergeApplyStep {
    pub events: Vec<MergeEvent>,
    pub command: MergeApplyCommand,
    pub next: MergeApplyState,
}

/// Which inputs each state waits for.
pub open spec fn merge_input_expected(state: MergeApplyState, input: MergeApplyInput) -> bool {
    match state {
        MergeApplyState::Ready => input is Begin,
        MergeApplyState::SwitchingToTarget { .. } => input is CheckedOut,
        MergeApplyState::Merging { .. } => input is Merged,
        MergeApplyState::Restacking { .. } => input is Restacked,
        MergeApplyState::Returning { .. } => input is CheckedOut,
        MergeApplyState::Finished => false,
    }
}

pub open spec fn finishes_with(
    step: MergeApplyStep,
    status: CommandStatus,
    switched_from: Option<String>,
    restacked: Seq<RestackPreview>,
    failure_output: Option<String>,
) -> bool {
    &&& step.events@.len() == 0
    &&& step.next == MergeApplyState::Finished
    &&& step.command is Finish
    &&& step.command->Finish_0.status == status
    &&& step.command->Finish_0.switched_to_target_from == switched_from
    &&& step.command->Finish_0.restacked_branches@ == restacked
    &&& step.command->Finish_0.failure_output == failure_output
}

pub open spec fn merge_started(plan: MergePlan) -> MergeEvent {
    MergeEvent::MergeStarted {
        source_branch: plan.source_branch_name,
        target_branch: plan.target_branch_name,
        mode: plan.mode,
    }
}

/// The step a merge takes from `state` on `input`.
pub open spec fn merge_step_spec(plan: MergePlan, state: MergeApplyState, input: MergeApplyInput, step: MergeApplyStep) -> bool {
    match (state, input) {
        (MergeApplyState::Ready, MergeApplyInput::Begin { current_branch }) => if current_branch@
            != plan.target_branch_name@ {
            &&& step.events@ == seq![
                MergeEvent::SwitchingToTarget {
                    from_branch: current_branch,
                    to_branch: plan.target_branch_name,
                },
            ]
            &&& step.command == MergeApplyCommand::SwitchToTarget
            &&& step.next == MergeApplyState::SwitchingToTarget { from_branch: current_branch }
        } else {
            &&& step.events@ == seq![merge_started(plan)]
            &&& step.command == MergeApplyCommand::Merge
            &&& step.next == MergeApplyState::Merging { switched_from: None }
        },
        (MergeApplyState::SwitchingToTarget { from_branch }, MergeApplyInput::CheckedOut(o)) => if !o.status.is_success() {
            finishes_with(step, o.status, None, seq![], None)
        } else {
            &&& step.events@ == seq![
                MergeEvent::SwitchedToTarget { from_branch, to_branch: plan.target_branch_name },
                merge_started(plan),
            ]
            &&& step.command == MergeApplyCommand::Merge
            &&& step.next == MergeApplyState::Merging { switched_from: o.switched_from }
        },
        (MergeApplyState::Merging { switched_from }, MergeApplyInput::Merged { status, combined_output }) => if !status.is_success() {
            finishes_with(step, status, switched_from, seq![], Some(combined_output))
        } else {
            &&& step.events@ == seq![
                MergeEvent::MergeCompleted {
                    source_branch: plan.source_branch_name,
                    target_branch: plan.target_branch_name,
                    mode: plan.mode,
                },
            ]
            &&& step.command == MergeApplyCommand::Restack
            &&& step.next == MergeApplyState::Restacking { switched_from }
        },
        (MergeApplyState::Restacking { switched_from }, MergeApplyInput::Restacked(r)) => if !r.status.is_success() {
            finishes_with(step, r.status, switched_from, seq![], r.failure_output)
        } else {
            &&& step.events@.len() == 0
            &&& step.command == MergeApplyCommand::ReturnToTarget
            &&& step.next == MergeApplyState::Returning { switched_from, restack: r }
        },
        (MergeApplyState::Returning { switched_from, restack }, MergeApplyInput::CheckedOut(o)) => if o.switched_from is Some {
            finishes_with(step, o.status, switched_from, restack.restacked_branches@, None)
        } else {
            finishes_with(step, restack.status, switched_from, restack.restacked_branches@, None)
        },
        _ => false,
    }
}

/// How many steps a merge in this state takes at most before it is over.
pub open spec fn merge_steps_left(state: MergeApplyState) -> nat {
    match state {
        MergeApplyState::Ready => 5,
        MergeApplyState::SwitchingToTarget { .. } => 4,
        MergeApplyState::Merging { .. } => 3,
        MergeApplyState::Restacking { .. } => 2,
        MergeApplyState::Returning { .. } => 1,
        MergeApplyState::Finished => 0,
    }
}

/// A merge always comes to an end: each step moves closer to the finished state, a step hands
/// out a final outcome exactly when it finishes, and a finished merge takes no more input.
pub proof fn law_merge_run_ends(plan: MergePlan, state: MergeApplyState, input: MergeApplyInput, step: MergeApplyStep)
    requires
        merge_step_spec(plan, state, input, step),
    ensures
        merge_input_expected(state, input),
        merge_steps_left(step.next) < merge_steps_left(state),
        step.command is Finish <==> step.next is Finished,
        forall|i: MergeApplyInput| !merge_input_expected(MergeApplyState::Finished, i),
{
}

/// A merge never goes on after a failure: a failed checkout of the target ends it with that status
/// before anything is merged, a failed merge ends it with git's output, and a failed restack ends
/// it with the restack's status. The merge command comes only once the target is checked out, and
/// the restack only after a successful merge.
pub proof fn law_merge_stops_at_failures(plan: MergePlan, state: MergeApplyState, input: MergeApplyInput, step: MergeApplyStep)
    requires
        merge_step_spec(plan, state, input, step),
    ensures
        state is SwitchingToTarget && input is CheckedOut && !input->CheckedOut_0.status.is_success() ==> {
            &&& step.command is Finish
            &&& step.command->Finish_0.status == input->CheckedOut_0.status
            &&& step.command->Finish_0.switched_to_target_from is None
            &&& step.command->Finish_0.restacked_branches@.len() == 0
            &&& step.command->Finish_0.failure_output is None
            &&& step.next is Finished
        },
        input is Merged && !input->Merged_status.is_success() ==> {
            &&& step.command is Finish
            &&& step.command->Finish_0.status == input->Merged_status
            &&& step.command->Finish_0.restacked_branches@.len() == 0
            &&& step.command->Finish_0.failure_output == Some(input->Merged_combined_output)
            &&& step.next is Finished
        },
        input is Restacked && !input->Restacked_0.status.is_success() ==> {
            &&& step.command is Finish
            &&& step.command->Finish_0.status == input->Restacked_0.status
            &&& step.command->Finish_0.restacked_branches@.len() == 0
            &&& step.command->Finish_0.failure_output == input->Restacked_0.failure_output
            &&& step.next is Finished
        },
        step.command is Merge ==> (state is Ready && input->Begin_current_branch@ == plan.target_branch_name@) || (
        state is SwitchingToTarget && input->CheckedOut_0.status.is_success()),
        step.command is Restack ==> state is Merging && input->Merged_status.is_success(),
{
}

/// A merge switches branches only when it has to and keeps what it learned: it checks the target
/// out exactly when the current branch is not the target, and otherwise merges at once; a finished
/// merge reports the branch it left (none when it did not switch) and, once the restack is done,
/// the branches that the restack moved.
pub proof fn law_merge_switches_only_when_needed(
    plan: MergePlan,
    state: MergeApplyState,
    input: MergeApplyInput,
    step: MergeApplyStep,
)
    requires
        merge_step_spec(plan, state, input, step),
    ensures
        state is Ready ==> (step.command is SwitchToTarget <==> input->Begin_current_branch@ != plan.target_branch_name@)
            && (step.command is Merge <==> input->Begin_current_branch@ == plan.target_branch_name@),
        state is Ready && input->Begin_current_branch@ == plan.target_branch_name@ ==> step.next
            == (MergeApplyState::Merging { switched_from: None }),
        state is SwitchingToTarget && input->CheckedOut_0.status.is_success() ==> step.next == (MergeApplyState::Merging {
            switched_from: input->CheckedOut_0.switched_from,
        }),
        state is Merging && step.command is Finish ==> step.command->Finish_0.switched_to_target_from
            == state->Merging_switched_from,
        state is Returning ==> step.command is Finish && step.command->Finish_0.switched_to_target_from
            == state->Returning_switched_from && step.command->Finish_0.restacked_branches@
            == state->Returning_restack.restacked_branches@ && step.command->Finish_0.status == (if input->CheckedOut_0.switched_from is Some {
            input->CheckedOut_0.status
        } else {
            state->Returning_restack.status
        }),
{
}

fn finish_step(
    status: CommandStatus,
    switched_from: Option<String>,
    restacked_branches: Vec<RestackPreview>,
    failure_output: Option<String>,
) -> (step: MergeApplyStep)
    ensures
        finishes_with(step, status, switched_from, restacked_branches@, failure_output),
{
    MergeApplyStep {
        events: Vec::new(),
        command: MergeApplyCommand::Finish(
            MergeOutcome { status, switched_to_target_from: switched_from, restacked_branches, failure_output },
        ),
        next: MergeApplyState::Finished,
    }
}

fn merge_started_event(plan: &MergePlan) -> (e: MergeEvent)
    ensures
        e == merge_started(*plan),
{
    MergeEvent::MergeStarted {
        source_branch: plan.source_branch_name.clone(),
        target_branch: plan.target_branch_name.clone(),
        mode: plan.mode,
    }
}

/// Decides the next step of a merge from what the last one gave back.
pub fn merge_apply_step(plan: &MergePlan, state: MergeApplyState, input: MergeApplyInput) -> (step: MergeApplyStep)
    requires
        merge_input_expected(state, input),
    ensures
        merge_step_spec(*plan, state, input, step),
        state is SwitchingToTarget && input is CheckedOut && !input->CheckedOut_0.status.is_success() ==> {
            &&& step.command is Finish
            &&& step.command->Finish_0.status == input->CheckedOut_0.status
            &&& step.command->Finish_0.switched_to_target_from is None
            &&& step.command->Finish_0.restacked_branches@.len() == 0
            &&& step.command->Finish_0.failure_output is None
            &&& step.next is Finished
        },
        input is Merged && !input->Merged_status.is_success() ==> {
            &&& step.command is Finish
            &&& step.command->Finish_0.status == input->Merged_status
            &&& step.command->Finish_0.restacked_branches@.len() == 0
            &&& step.command->Finish_0.failure_output == Some(input->Merged_combined_output)
            &&& step.next is Finished
        },
        input is Restacked && !input->Restacked_0.status.is_success() ==> {
            &&& step.command is Finish
            &&& step.command->Finish_0.status == input->Restacked_0.status
            &&& step.command->Finish_0.restacked_branches@.len() == 0
            &&& step.command->Finish_0.failure_output == input->Restacked_0.failure_output
            &&& step.next is Finished
        },
        step.command is Merge ==> (state is Ready && input->Begin_current_branch@ == plan.target_branch_name@) || (
        state is SwitchingToTarget && input->CheckedOut_0.status.is_success()),
        step.command is Restack ==> state is Merging && input->Merged_status.is_success(),
{
    match (state, input) {
        (MergeApplyState::Ready, MergeApplyInput::Begin { current_branch }) => {
            if !crate::text::str_eq(current_branch.as_str(), plan.target_branch_name.as_str()) {
                let mut events: Vec<MergeEvent> = Vec::new();
                events.push(
                    MergeEvent::SwitchingToTarget {
                        from_branch: current_branch.clone(),
                        to_branch: plan.target_branch_name.clone(),
                    },
                );
                proof {
                    assert(events@ =~= seq![
                        MergeEvent::SwitchingToTarget {
                            from_branch: current_branch,
                            to_branch: plan.target_branch_name,
                        },
                    ]);
                }
                MergeApplyStep {
                    events,
                    command: MergeApplyCommand::SwitchToTarget,
                    next: MergeApplyState::SwitchingToTarget { from_branch: current_branch },
                }
            } else {
                let mut events: Vec<MergeEvent> = Vec::new();
                events.push(merge_started_event(plan));
                assert(events@ =~= seq![merge_started(*plan)]);
                MergeApplyStep {
                    events,
                    command: MergeApplyCommand::Merge,
                    next: MergeApplyState::Merging { switched_from: None },
                }
            }
        },
        (MergeApplyState::SwitchingToTarget { from_branch }, MergeApplyInput::CheckedOut(o)) => {
            if !o.status.success() {
                return finish_step(o.status, None, Vec::new(), None);
            }
            let mut events: Vec<MergeEvent> = Vec::new();
            events.push(
                MergeEvent::SwitchedToTarget { from_branch, to_branch: plan.target_branch_name.clone() },
            );
            events.push(merge_started_event(plan));
            proof {
                assert(events@ =~= seq![
                    MergeEvent::SwitchedToTarget { from_branch, to_branch: plan.target_branch_name },
                    merge_started(*plan),
                ]);
            }
            MergeApplyStep {
                events,
                command: MergeApplyCommand::Merge,
                next: MergeApplyState::Merging { switched_from: o.switched_from },
            }
        },
        (MergeApplyState::Merging { switched_from }, MergeApplyInput::Merged { status, combined_output }) => {
            if !status.success() {
                return finish_step(status, switched_from, Vec::new(), Some(combined_output));
            }
            let mut events: Vec<MergeEvent> = Vec::new();
            events.push(
                MergeEvent::MergeCompleted {
                    source_branch: plan.source_branch_name.clone(),
                    target_branch: plan.target_branch_name.clone(),
                    mode: plan.mode,
                },
            );
            proof {
                assert(events@ =~= seq![
                    MergeEvent::MergeCompleted {
                        source_branch: plan.source_branch_name,
                        target_branch: plan.target_branch_name,
                        mode: plan.mode,
                    },
                ]);
            }
            MergeApplyStep {
                events,
                command: MergeApplyCommand::Restack,
                next: MergeApplyState::Restacking { switched_from },
            }
        },
        (MergeApplyState::Restacking { switched_from }, MergeApplyInput::Restacked(r)) => {
            if !r.status.success() {
                return finish_step(r.status, switched_from, Vec::new(), r.failure_output);
            }
            MergeApplyStep {
                events: Vec::new(),
                command: MergeApplyCommand::ReturnToTarget,
                next: MergeApplyState::Returning { switched_from, restack: r },
            }
        },
        (MergeApplyState::Returning { switched_from, restack }, MergeApplyInput::CheckedOut(o)) => {
            if o.switched_from.is_some() {
                finish_step(o.status, switched_from, restack.restacked_branches, None)
            } else {
                finish_step(restack.status, switched_from, restack.restacked_branches, None)
            }
        },
        _ => {
            proof {
                assert(false);
            }
            MergeApplyStep { events: Vec::new(), command: MergeApplyCommand::Merge, next: MergeApplyState::Finished }
        },
    }
}

/// The event reported when a restack action starts.
pub fn rebase_started_event(action: &RestackAction) -> (e: MergeEvent)
    ensures
        e == (MergeEvent::RebaseStarted {
            branch_name: action.branch_name,
            onto_branch: action.new_base_branch_name,
        }),
{
    MergeEvent::RebaseStarted {
        branch_name: action.branch_name.clone(),
        onto_branch: action.new_base_branch_name.clone(),
    }
}

/// The event reported as a restack action's rebase makes progress.
pub fn rebase_progress_event(action: &RestackAction, current_commit: usize, total_commits: usize) -> (e: MergeEvent)
    ensures
        e == (MergeEvent::RebaseProgress {
            branch_name: action.branch_name,
            onto_branch: action.new_base_branch_name,
            current_commit,
            total_commits,
        }),
{
    MergeEvent::RebaseProgress {
        branch_name: action.branch_name.clone(),
        onto_branch: action.new_base_branch_name.clone(),
        current_commit,
        total_commits,
    }
}

/// The event reported when a restack action is done.
pub fn rebase_completed_event(action: &RestackAction) -> (e: MergeEvent)
    ensures
        e == (MergeEvent::RebaseCompleted {
            branch_name: action.branch_name,
            onto_branch: action.new_base_branch_name,
        }),
{
    MergeEvent::RebaseCompleted {
        branch_name: action.branch_name.clone(),
        onto_branch: action.new_base_branch_name.clone(),
    }
}

/// The outcome of deleting the merged branch: its name when git deleted it.
pub fn delete_merged_outcome(branch_name: String, status: CommandStatus) -> (o: DeleteMergedBranchOutcome)
    ensures
        o.status == status,
        o.deleted_branch_name == if status.is_success() {
            Some(branch_name)
        } else {
            None
        },
{
    let deleted_branch_name = if status.success() {
        Some(branch_name)
    } else {
        None
    };
    DeleteMergedBranchOutcome { status, deleted_branch_name }
}

} // verus!
