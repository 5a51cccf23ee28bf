use dig::adopt::{build_adopt_plan, recheck_adoption, AdoptCommand, AdoptInput, AdoptRun, AdoptState};
use dig::branch::{
    paused_delete_outcome, BranchLineageNode, CreateCommand, CreateInput, CreateRun, CreateState,
};
use dig::error::{CommandStatus, ErrorKind};
use dig::operation::{StatusChange, VisualNode};
use dig::render::RestackPreview;
use dig::store::{BranchNode, DigConfig, DigEvent, DigState, ParentRef};

fn ok() -> CommandStatus {
    CommandStatus { code: Some(0) }
}

fn failed() -> CommandStatus {
    CommandStatus { code: Some(1) }
}

fn node(id: u128, name: &str, parent: ParentRef) -> BranchNode {
    BranchNode {
        id,
        branch_name: name.into(),
        parent,
        base_ref: "main".into(),
        fork_point_oid: "1".into(),
        head_oid_at_creation: "1".into(),
        created_at_unix_secs: 1,
        archived: false,
    }
}

fn store() -> DigState {
    let mut state = DigState::default();
    state.insert_branch(node(1, "feat/auth", ParentRef::Trunk)).unwrap();
    state
}

fn plan(parent_name: &str, parent: ParentRef, requires_rebase: bool) -> dig::adopt::AdoptPlan {
    build_adopt_plan(
        "main".into(),
        "feat/orig".into(),
        "feat/auth-ui".into(),
        parent_name.into(),
        parent,
        "aaa".into(),
        if requires_rebase { "bbb" } else { "aaa" },
    )
}

#[test]
fn recheck_refuses_untracked_and_moved_parents_and_accepts_the_planned_one() {
    let state = store();
    let config = DigConfig::new("main".into());

    assert!(recheck_adoption(&state, &config, &plan("main", ParentRef::Trunk, false)).is_ok());
    assert!(recheck_adoption(&state, &config, &plan("feat/auth", ParentRef::Branch { node_id: 1 }, false)).is_ok());

    let err = recheck_adoption(&state, &config, &plan("feat/gone", ParentRef::Branch { node_id: 7 }, false))
        .unwrap_err();
    assert_eq!(err.kind(), ErrorKind::NotFound);
    assert_eq!(
        err.to_string(),
        "parent branch 'feat/gone' is not tracked by dagger and does not match trunk 'main'"
    );

    let err = recheck_adoption(&state, &config, &plan("main", ParentRef::Branch { node_id: 1 }, false))
        .unwrap_err();
    assert_eq!(err.kind(), ErrorKind::Other);
    assert_eq!(err.to_string(), "tracked parent for 'main' changed while planning adopt");

    let err = recheck_adoption(&state, &config, &plan("feat/auth", ParentRef::Branch { node_id: 9 }, false))
        .unwrap_err();
    assert_eq!(err.to_string(), "tracked parent for 'feat/auth' changed while planning adopt");
}

#[test]
fn adoption_with_a_failed_rebase_aborts_restores_and_tracks_nothing() {
    let mut state = store();
    let before = state.clone();
    let config = DigConfig::new("main".into());
    let (mut run, command) =
        AdoptRun::start(&state, &config, plan("feat/auth", ParentRef::Branch { node_id: 1 }, true)).unwrap();
    assert_eq!(command, AdoptCommand::Rebase);

    let command = run.step(&mut state, AdoptInput::Rebased { status: failed(), stderr: "conflict".into() });
    assert_eq!(command, AdoptCommand::AbortRebase);
    let command = run.step(&mut state, AdoptInput::Aborted { abort_status: Some(ok()) });
    assert_eq!(command, AdoptCommand::RestoreOriginal);
    let command = run.step(&mut state, AdoptInput::Restored { switch_status: Some(ok()) });
    match command {
        AdoptCommand::Finish(o) => {
            assert_eq!(o.status, failed());
            assert!(!o.restacked);
            assert_eq!(o.restored_original_branch.as_deref(), Some("feat/orig"));
            assert_eq!(o.failure_output.as_deref(), Some("conflict"));
        }
        other => panic!("{other:?}"),
    }
    assert_eq!(run.state, AdoptState::Finished);
    assert_eq!(state, before);
}

#[test]
fn adoption_fails_when_the_abort_fails() {
    let mut state = store();
    let config = DigConfig::new("main".into());
    let (mut run, _) = AdoptRun::start(&state, &config, plan("main", ParentRef::Trunk, true)).unwrap();
    run.step(&mut state, AdoptInput::Rebased { status: failed(), stderr: String::new() });
    match run.step(&mut state, AdoptInput::Aborted { abort_status: Some(failed()) }) {
        AdoptCommand::Fail(e) => {
            assert_eq!(e.to_string(), "git rebase failed and 'git rebase --abort' did not succeed")
        }
        other => panic!("{other:?}"),
    }
}

#[test]
fn adoption_tracks_the_branch_after_the_rebase_and_returns() {
    let mut state = store();
    let config = DigConfig::new("main".into());
    let (mut run, _) =
        AdoptRun::start(&state, &config, plan("feat/auth", ParentRef::Branch { node_id: 1 }, true)).unwrap();
    assert_eq!(run.step(&mut state, AdoptInput::Rebased { status: ok(), stderr: String::new() }), AdoptCommand::ReadHeads);
    let command = run.step(
        &mut state,
        AdoptInput::Heads {
            parent_head_oid: "ppp".into(),
            branch_head_oid: "bbb".into(),
            created_at: 5,
            occurred_at: 6,
        },
    );
    let recorded = state.find_branch_by_name("feat/auth-ui").unwrap().clone();
    assert_eq!(recorded.parent, ParentRef::Branch { node_id: 1 });
    assert_eq!(recorded.base_ref, "feat/auth");
    assert_eq!(recorded.fork_point_oid, "ppp");
    assert_eq!(recorded.head_oid_at_creation, "bbb");
    match command {
        AdoptCommand::Save(DigEvent::BranchAdopted(e)) => {
            assert_eq!(e.occurred_at_unix_secs, 6);
            assert_eq!(e.node, recorded);
        }
        other => panic!("{other:?}"),
    }
    assert_eq!(run.step(&mut state, AdoptInput::Saved), AdoptCommand::RestoreOriginal);
    match run.step(&mut state, AdoptInput::Restored { switch_status: None }) {
        AdoptCommand::Finish(o) => {
            assert!(o.status.success() && o.restacked && o.failure_output.is_none());
            assert_eq!(o.restored_original_branch, None);
        }
        other => panic!("{other:?}"),
    }
}

#[test]
fn creation_records_the_node_only_after_git_created_the_branch() {
    let mut state = store();
    let before = state.clone();
    let new = node(2, "feat/new", ParentRef::Branch { node_id: 1 });

    let (mut run, command) = CreateRun::start(new.clone());
    assert_eq!(command, CreateCommand::CreateAndCheckout);
    match run.step(&mut state, CreateInput::Created { status: failed(), occurred_at: 3 }) {
        CreateCommand::Finish(o) => {
            assert!(o.created_node.is_none());
            assert_eq!(o.lineage, vec![BranchLineageNode { branch_name: "feat/new".into(), pull_request_number: None }]);
        }
        other => panic!("{other:?}"),
    }
    assert_eq!(run.state, CreateState::Finished);
    assert_eq!(state, before);

    let (mut run, _) = CreateRun::start(new.clone());
    match run.step(&mut state, CreateInput::Created { status: ok(), occurred_at: 3 }) {
        CreateCommand::Save(DigEvent::BranchCreated(e)) => assert_eq!(e.node, new),
        other => panic!("{other:?}"),
    }
    assert_eq!(state.find_branch_by_name("feat/new"), Some(&new));
    let lineage = vec![
        BranchLineageNode { branch_name: "feat/auth".into(), pull_request_number: Some(4) },
        BranchLineageNode { branch_name: "feat/new".into(), pull_request_number: None },
    ];
    match run.step(&mut state, CreateInput::Saved { lineage: lineage.clone() }) {
        CreateCommand::Finish(o) => {
            assert_eq!(o.created_node, Some(new));
            assert_eq!(o.lineage, lineage);
        }
        other => panic!("{other:?}"),
    }
}

#[test]
fn paused_deletion_reports_the_restack() {
    let o = paused_delete_outcome(
        "feat/a".into(),
        "main".into(),
        failed(),
        vec![RestackPreview { branch_name: "feat/b".into(), onto_branch: "main".into(), parent_changed: true }],
        Some("conflict".into()),
    );
    assert!(o.paused);
    assert_eq!(o.status, failed());
    assert_eq!(o.restacked_branches.len(), 1);
    assert_eq!(o.restored_original_branch, None);
    assert_eq!(o.failure_output.as_deref(), Some("conflict"));
}

#[test]
fn finds_the_first_branch_of_a_name_in_preorder() {
    let mut root = VisualNode::new(
        "a".into(),
        vec![
            VisualNode::new("b".into(), vec![VisualNode::new("c".into(), vec![])]),
            VisualNode::new("c".into(), vec![]),
        ],
    );
    assert!(root.find("zzz").is_none());
    assert_eq!(root.find("b").unwrap().children.len(), 1);
    assert!(root.update_status("c", StatusChange::Succeed));
    let found = root.find("c").unwrap();
    assert_eq!(found.status, dig::operation::BranchStatus::Succeeded);
    assert_eq!(root.children[1].status, dig::operation::BranchStatus::Pending);
}
