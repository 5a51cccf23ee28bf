use dig::branch::{delete_failure_lines, DeleteBranchOutcome};
use dig::clean::{clean_candidate, CandidateRestack, CleanProgress};
use dig::error::{CommandStatus, ErrorKind};
use dig::merge::{
    check_merge_target, merge_apply_step, resolve_merge_source, MergeApplyCommand,
    MergeApplyInput, MergeApplyState, MergeEvent, MergeMode, MergeOutcome, MergePlan,
    MergeTreeNode,
};
use dig::operation::{StatusChange, VisualNode};
use dig::render::{
    render_tree, restack_pause_lines, trimmed_output, DisplayNode, RestackPreview,
};
use dig::store::{new_tracked_node, BranchNode, DigState, ParentRef};
use dig::store::{BranchReparentedEvent, DigEvent};
use dig::workflow::{
    reparented_event, CheckoutBranchOutcome, RestackAction, RestackActionOutcome, RestackCommand,
    RestackEffect, RestackExecutionEvent, RestackExecutionOutcome, RestackParentChange,
    RestackRun,
};

fn ok() -> CommandStatus {
    CommandStatus { code: Some(0) }
}

fn failed() -> CommandStatus {
    CommandStatus { code: Some(1) }
}

fn node(id: u128, name: &str, parent: ParentRef, archived: bool) -> BranchNode {
    BranchNode {
        id,
        branch_name: name.into(),
        parent,
        base_ref: "main".into(),
        fork_point_oid: "1".into(),
        head_oid_at_creation: "1".into(),
        created_at_unix_secs: 1,
        archived,
    }
}

fn stack() -> DigState {
    DigState {
        version: 1,
        nodes: vec![
            node(1, "feat/auth", ParentRef::Trunk, false),
            node(2, "feat/auth-api", ParentRef::Branch { node_id: 1 }, false),
            node(3, "feat/orphan", ParentRef::Branch { node_id: 9 }, false),
        ],
    }
}

fn plan() -> MergePlan {
    MergePlan {
        trunk_branch: "main".into(),
        current_branch: "feat/auth-api".into(),
        source_branch_name: "feat/auth-api".into(),
        target_branch_name: "feat/auth".into(),
        source_node_id: 2,
        mode: MergeMode::Normal,
        messages: vec![],
        tree: MergeTreeNode {
            branch_name: "feat/auth-api".into(),
            children: vec![],
        },
        restack_plan: vec![],
    }
}

fn preview(name: &str, onto: &str) -> RestackPreview {
    RestackPreview {
        branch_name: name.into(),
        onto_branch: onto.into(),
        parent_changed: true,
    }
}

#[test]
fn merge_run_switches_merges_restacks_and_ends() {
    let p = plan();
    let step = merge_apply_step(
        &p,
        MergeApplyState::Ready,
        MergeApplyInput::Begin {
            current_branch: "feat/auth-api".into(),
        },
    );
    assert_eq!(step.command, MergeApplyCommand::SwitchToTarget);
    assert_eq!(
        step.events,
        vec![MergeEvent::SwitchingToTarget {
            from_branch: "feat/auth-api".into(),
            to_branch: "feat/auth".into(),
        }]
    );

    let step = merge_apply_step(
        &p,
        step.next,
        MergeApplyInput::CheckedOut(CheckoutBranchOutcome {
            status: ok(),
            switched_from: Some("feat/auth-api".into()),
        }),
    );
    assert_eq!(step.command, MergeApplyCommand::Merge);
    assert_eq!(step.events.len(), 2);

    let step = merge_apply_step(
        &p,
        step.next,
        MergeApplyInput::Merged {
            status: ok(),
            combined_output: String::new(),
        },
    );
    assert_eq!(step.command, MergeApplyCommand::Restack);

    let step = merge_apply_step(
        &p,
        step.next,
        MergeApplyInput::Restacked(RestackExecutionOutcome {
            status: ok(),
            restacked_branches: vec![preview("feat/auth-api-tests", "feat/auth")],
            failure_output: None,
        }),
    );
    assert_eq!(step.command, MergeApplyCommand::ReturnToTarget);

    let step = merge_apply_step(
        &p,
        step.next,
        MergeApplyInput::CheckedOut(CheckoutBranchOutcome {
            status: ok(),
            switched_from: None,
        }),
    );
    assert_eq!(step.next, MergeApplyState::Finished);
    assert_eq!(
        step.command,
        MergeApplyCommand::Finish(MergeOutcome {
            status: ok(),
            switched_to_target_from: Some("feat/auth-api".into()),
            restacked_branches: vec![preview("feat/auth-api-tests", "feat/auth")],
            failure_output: None,
        })
    );
}

#[test]
fn merge_run_ends_at_once_when_the_merge_fails() {
    let mut p = plan();
    p.current_branch = "feat/auth".into();
    let step = merge_apply_step(
        &p,
        MergeApplyState::Ready,
        MergeApplyInput::Begin {
            current_branch: "feat/auth".into(),
        },
    );
    assert_eq!(step.command, MergeApplyCommand::Merge);
    assert_eq!(step.next, MergeApplyState::Merging { switched_from: None });

    let step = merge_apply_step(
        &p,
        step.next,
        MergeApplyInput::Merged {
            status: failed(),
            combined_output: "CONFLICT".into(),
        },
    );
    assert_eq!(step.next, MergeApplyState::Finished);
    assert_eq!(
        step.command,
        MergeApplyCommand::Finish(MergeOutcome {
            status: failed(),
            switched_to_target_from: None,
            restacked_branches: vec![],
            failure_output: Some("CONFLICT".into()),
        })
    );
}

#[test]
fn merge_source_resolves_to_the_tracked_parent() {
    let state = stack();
    let (id, name, target) = resolve_merge_source(&state, "main", "feat/auth-api", true).unwrap();
    assert_eq!((id, name.as_str(), target.as_str()), (2, "feat/auth-api", "feat/auth"));

    let (_, _, target) = resolve_merge_source(&state, "main", "feat/auth", true).unwrap();
    assert_eq!(target, "main");
}

#[test]
fn merge_source_errors_follow_the_checks_in_order() {
    let state = stack();
    let err = resolve_merge_source(&state, "main", "feat/none", true).unwrap_err();
    assert_eq!(err.kind(), ErrorKind::NotFound);
    assert_eq!(err.to_string(), "'feat/none' is not tracked by dig");

    let err = resolve_merge_source(&state, "main", "feat/orphan", false).unwrap_err();
    assert_eq!(err.kind(), ErrorKind::NotFound);
    assert_eq!(err.to_string(), "tracked branch 'feat/orphan' no longer exists locally");

    let err = resolve_merge_source(&state, "main", "feat/orphan", true).unwrap_err();
    assert_eq!(err.kind(), ErrorKind::Other);
    assert_eq!(err.to_string(), "tracked parent for 'feat/orphan' is missing from dig");
}

#[test]
fn merge_target_must_exist_and_descendants_must_be_local() {
    assert!(check_merge_target("main", true, &vec![]).is_ok());

    let err = check_merge_target("main", false, &vec!["a".into()]).unwrap_err();
    assert_eq!(err.to_string(), "target branch 'main' does not exist locally");

    let err = check_merge_target("main", true, &vec!["a".into(), "b".into()]).unwrap_err();
    assert_eq!(err.kind(), ErrorKind::NotFound);
    assert_eq!(err.to_string(), "tracked descendants are missing locally: a, b");
}

#[test]
fn clean_candidate_names_the_parent_it_merged_into() {
    let state = stack();
    let (id, name, parent) = clean_candidate(&state, "main", "feat/auth-api").unwrap();
    assert_eq!((id, name.as_str(), parent.as_str()), (2, "feat/auth-api", "feat/auth"));

    let err = clean_candidate(&state, "main", "feat/none").unwrap_err();
    assert_eq!(err.to_string(), "tracked branch 'feat/none' was not found");

    let err = clean_candidate(&state, "main", "feat/orphan").unwrap_err();
    assert_eq!(err.to_string(), "tracked parent for 'feat/orphan' is missing from dig");
}

#[test]
fn clean_progress_collects_and_stops_on_pause() {
    let mut progress = CleanProgress::start();
    let stop = progress.after_candidate_restack(
        None,
        CandidateRestack {
            status: ok(),
            restacked_branches: vec![preview("feat/b", "main")],
            failure_output: None,
            paused: false,
        },
    );
    assert!(stop.is_none());
    assert!(progress
        .after_candidate_delete(None, "feat/a".into(), ok())
        .is_none());

    let stop = progress
        .after_candidate_restack(
            None,
            CandidateRestack {
                status: failed(),
                restacked_branches: vec![],
                failure_output: Some("conflict".into()),
                paused: true,
            },
        )
        .unwrap();
    assert!(stop.paused);
    assert_eq!(stop.deleted_branches, vec!["feat/a".to_string()]);
    assert_eq!(stop.restacked_branches, vec![preview("feat/b", "main")]);
    assert_eq!(stop.failure_output.as_deref(), Some("conflict"));
}

fn action(name: &str, parent: Option<ParentRef>) -> RestackAction {
    RestackAction {
        branch_name: name.into(),
        new_base_branch_name: "main".into(),
        new_parent: parent,
    }
}

fn action_outcome(status: CommandStatus, name: &str, change: Option<RestackParentChange>) -> RestackActionOutcome {
    RestackActionOutcome {
        status,
        stderr: if status.success() { String::new() } else { "conflict".into() },
        branch_name: name.into(),
        onto_branch: "main".into(),
        parent_change: change,
    }
}

#[test]
fn restack_run_applies_actions_in_order_and_records_reparents() {
    let actions = vec![action("feat/b", Some(ParentRef::Trunk)), action("feat/c", None)];
    let change = RestackParentChange {
        branch_id: 2,
        branch_name: "feat/b".into(),
        old_parent: ParentRef::Branch { node_id: 1 },
        new_parent: ParentRef::Trunk,
        old_base_ref: "feat/a".into(),
        new_base_ref: "main".into(),
    };
    let mut run = RestackRun::start(ok());
    let step = run.begin(&actions);
    assert_eq!(
        step.effects,
        vec![RestackEffect::Report(RestackExecutionEvent::Started(actions[0].clone()))]
    );
    assert_eq!(step.command, RestackCommand::Apply(0));

    let step = run.step(&actions, action_outcome(ok(), "feat/b", Some(change.clone())));
    assert_eq!(
        step.effects,
        vec![
            RestackEffect::Report(RestackExecutionEvent::Completed(actions[0].clone())),
            RestackEffect::RecordReparent(change.clone()),
            RestackEffect::Report(RestackExecutionEvent::Started(actions[1].clone())),
        ]
    );
    assert_eq!(step.command, RestackCommand::Apply(1));

    let step = run.step(&actions, action_outcome(ok(), "feat/c", None));
    assert_eq!(
        step.effects,
        vec![RestackEffect::Report(RestackExecutionEvent::Completed(actions[1].clone()))]
    );
    let mut b = preview("feat/b", "main");
    let mut c = preview("feat/c", "main");
    c.parent_changed = false;
    b.parent_changed = true;
    assert_eq!(
        step.command,
        RestackCommand::Finish(RestackExecutionOutcome {
            status: ok(),
            restacked_branches: vec![b, c],
            failure_output: None,
        })
    );

    let event = reparented_event(change, 42);
    assert_eq!(
        event,
        DigEvent::BranchReparented(BranchReparentedEvent {
            occurred_at_unix_secs: 42,
            branch_id: 2,
            branch_name: "feat/b".into(),
            old_parent: ParentRef::Branch { node_id: 1 },
            new_parent: ParentRef::Trunk,
            old_base_ref: "feat/a".into(),
            new_base_ref: "main".into(),
        })
    );
}

#[test]
fn restack_run_stops_at_the_first_failure() {
    let actions = vec![action("feat/b", Some(ParentRef::Trunk)), action("feat/c", None)];
    let mut run = RestackRun::start(ok());
    run.step(&actions, action_outcome(ok(), "feat/b", None));
    let step = run.step(&actions, action_outcome(failed(), "feat/c", None));
    assert!(step.effects.is_empty());
    assert_eq!(
        step.command,
        RestackCommand::Finish(RestackExecutionOutcome {
            status: failed(),
            restacked_branches: vec![preview("feat/b", "main")],
            failure_output: Some("conflict".into()),
        })
    );
    assert_eq!(run.next_action, 1);

    let empty = RestackRun::start(ok());
    let step = empty.begin(&vec![]);
    assert_eq!(
        step.command,
        RestackCommand::Finish(RestackExecutionOutcome {
            status: ok(),
            restacked_branches: vec![],
            failure_output: None,
        })
    );
}

#[test]
fn new_nodes_get_random_version_four_ids() {
    let a = new_tracked_node(
        "feat/a".into(),
        ParentRef::Trunk,
        "main".into(),
        "1".into(),
        "2".into(),
        7,
    );
    let b = new_tracked_node(
        "feat/a".into(),
        ParentRef::Trunk,
        "main".into(),
        "1".into(),
        "2".into(),
        7,
    );
    assert_eq!((a.id >> 76) & 0xf, 4);
    assert_eq!((a.id >> 62) & 0x3, 2);
    assert_ne!(a.id, b.id);
    assert!(!a.archived);
    assert_eq!(a.created_at_unix_secs, 7);
}

fn names(n: &VisualNode) -> Vec<String> {
    let mut out = vec![n.branch_name.clone()];
    for c in &n.children {
        out.extend(names(c));
    }
    out
}

#[test]
fn status_changes_keep_the_tree_shape() {
    let mut root = VisualNode::new(
        "a".into(),
        vec![
            VisualNode::new("b".into(), vec![VisualNode::new("c".into(), vec![])]),
            VisualNode::new("d".into(), vec![]),
        ],
    );
    let before = names(&root);
    assert!(root.update_status("c", StatusChange::Start));
    assert!(root.update_status("d", StatusChange::Succeed));
    assert!(!root.update_status("x", StatusChange::Succeed));
    assert_eq!(names(&root), before);
    assert_eq!(root.children[0].children.len(), 1);
}

#[test]
fn drawing_has_one_line_per_branch_and_one_for_the_label() {
    let roots = vec![
        DisplayNode {
            label: "a".into(),
            children: vec![DisplayNode {
                label: "b".into(),
                children: vec![DisplayNode {
                    label: "c".into(),
                    children: vec![],
                }],
            }],
        },
        DisplayNode {
            label: "d".into(),
            children: vec![],
        },
    ];
    assert_eq!(render_tree(Some("main".into()), &roots).lines().count(), 5);
    assert_eq!(render_tree(None, &roots).lines().count(), 4);
}

#[test]
fn archived_names_can_be_tracked_again_but_live_ones_cannot() {
    let mut state = DigState::default();
    state.insert_branch(node(1, "feat/a", ParentRef::Trunk, false)).unwrap();
    assert!(state.insert_branch(node(2, "feat/a", ParentRef::Trunk, false)).is_err());
    state.archive_branch(1).unwrap();
    state.insert_branch(node(3, "feat/a", ParentRef::Trunk, false)).unwrap();
    assert_eq!(state.find_branch_by_name("feat/a").unwrap().id, 3);
    assert_eq!(state.archive_branch(1).unwrap_err().kind(), ErrorKind::NotFound);
}

#[test]
fn prompt_accepts_only_yes_answers() {
    for answer in ["y\n", "Y", " yes ", "YES\n", "Yes"] {
        assert!(dig::ui::is_yes_answer(answer), "{answer:?}");
    }
    for answer in ["", "n", "no", "yEs", "yy", "y e s"] {
        assert!(!dig::ui::is_yes_answer(answer), "{answer:?}");
    }
}

#[test]
fn error_output_is_trimmed_and_blank_output_is_dropped() {
    assert_eq!(trimmed_output(Some("  error: boom \n")).as_deref(), Some("error: boom"));
    assert_eq!(trimmed_output(Some(" \n\t")), None);
    assert_eq!(trimmed_output(None), None);
    assert_eq!(
        restack_pause_lines(Some("CONFLICT (content)\n")),
        vec![
            "CONFLICT (content)".to_string(),
            "Resolve the rebase conflicts, stage the changes, and run 'dgr sync --continue'.".to_string(),
            "If you abort the rebase, rerun the original dgr command from the start.".to_string(),
        ]
    );
    assert_eq!(restack_pause_lines(None).len(), 2);
}

#[test]
fn failed_deletion_shows_guidance_only_when_paused() {
    let mut outcome = DeleteBranchOutcome {
        status: failed(),
        branch_name: "feat/a".into(),
        parent_branch_name: "main".into(),
        restacked_branches: vec![],
        restored_original_branch: None,
        failure_output: Some(" fatal: no \n".into()),
        paused: false,
    };
    assert_eq!(delete_failure_lines(&outcome), vec!["fatal: no".to_string()]);
    outcome.paused = true;
    assert_eq!(delete_failure_lines(&outcome).len(), 3);
    outcome.paused = false;
    outcome.failure_output = None;
    assert!(delete_failure_lines(&outcome).is_empty());
}

#[test]
fn adopted_and_created_nodes_record_their_parents() {
    let plan = dig::adopt::build_adopt_plan(
        "main".into(),
        "feat/auth".into(),
        "feat/auth-ui".into(),
        "feat/auth".into(),
        ParentRef::Branch { node_id: 1 },
        "aaa".into(),
        "bbb",
    );
    let adopted = dig::adopt::adopted_node(&plan, "bbb".into(), "ccc".into(), 9);
    assert_eq!(adopted.branch_name, "feat/auth-ui");
    assert_eq!(adopted.parent, ParentRef::Branch { node_id: 1 });
    assert_eq!(adopted.base_ref, "feat/auth");
    assert_eq!(adopted.fork_point_oid, "bbb");
    assert_eq!(adopted.head_oid_at_creation, "ccc");
    assert_eq!(adopted.created_at_unix_secs, 9);
    assert_eq!((adopted.id >> 76) & 0xf, 4);

    let created = dig::branch::created_node(
        "feat/new".into(),
        ParentRef::Trunk,
        "main".into(),
        "ddd".into(),
        10,
    );
    assert_eq!(created.fork_point_oid, "ddd");
    assert_eq!(created.head_oid_at_creation, "ddd");
    assert_eq!(created.base_ref, "main");
    assert!(!created.archived);
    assert_ne!(created.id, adopted.id);
}
