use dig::branch::{create_outcome, RestoreBranchOutcome};
use dig::clean::{
    archive_integrated, CandidateRestack, CleanApplyOutcome, CleanCommand, CleanEvent, CleanInput,
    CleanRun, CleanState,
};
use dig::error::{CommandStatus, ErrorKind};
use dig::merge::{MergeAnimation, MergeEvent, MergeMode, MergePlan, MergeTreeNode};
use dig::render::RestackPreview;
use dig::store::{BranchArchiveReason, BranchArchivedEvent, BranchNode, DigEvent, DigState, ParentRef};
use dig::workflow::CheckoutBranchOutcome;

fn ok() -> CommandStatus {
    CommandStatus { code: Some(0) }
}

fn failed() -> CommandStatus {
    CommandStatus { code: Some(1) }
}

fn restacked(paused: bool, names: &[&str]) -> CandidateRestack {
    CandidateRestack {
        status: if paused { failed() } else { ok() },
        restacked_branches: names
            .iter()
            .map(|n| RestackPreview {
                branch_name: n.to_string(),
                onto_branch: "main".into(),
                parent_changed: true,
            })
            .collect(),
        failure_output: if paused { Some("conflict".into()) } else { None },
        paused,
    }
}

fn strings(v: &[&str]) -> Vec<String> {
    v.iter().map(|s| s.to_string()).collect()
}

fn finished(step: &dig::clean::CleanStep) -> CleanApplyOutcome {
    match &step.command {
        CleanCommand::Finish(o) => o.clone(),
        other => panic!("not finished: {other:?}"),
    }
}

#[test]
fn clean_with_no_candidates_does_nothing() {
    let (run, step) = CleanRun::new("main".into(), vec![], false);
    assert_eq!(run.state, CleanState::Finished);
    let o = finished(&step);
    assert!(o.status.success() && o.deleted_branches.is_empty() && !o.paused);
}

#[test]
fn clean_switches_to_trunk_deletes_in_order_and_returns() {
    let (mut run, step) = CleanRun::new("main".into(), strings(&["feat/a", "feat/b"]), true);
    assert_eq!(step.command, CleanCommand::Prepare);

    let step = run.step(CleanInput::Begin { current_branch: "feat/a".into() });
    assert_eq!(step.command, CleanCommand::SwitchToTrunk);
    assert_eq!(
        step.events,
        vec![CleanEvent::SwitchingToTrunk { from_branch: "feat/a".into(), to_branch: "main".into() }]
    );

    let step = run.step(CleanInput::CheckedOut(CheckoutBranchOutcome {
        status: ok(),
        switched_from: Some("feat/a".into()),
    }));
    assert_eq!(
        step.events,
        vec![CleanEvent::SwitchedToTrunk { from_branch: "feat/a".into(), to_branch: "main".into() }]
    );
    assert_eq!(
        step.command,
        CleanCommand::Restack {
            branch_name: "feat/a".into(),
            remaining: strings(&["feat/b"]),
            continue_paused: false,
        }
    );

    let step = run.step(CleanInput::Restacked(restacked(false, &["feat/a-child"])));
    assert_eq!(step.command, CleanCommand::Delete { branch_name: "feat/a".into(), announce: true });

    let step = run.step(CleanInput::Deleted { status: ok() });
    assert_eq!(step.events, vec![CleanEvent::DeleteCompleted { branch_name: "feat/a".into() }]);
    assert_eq!(
        step.command,
        CleanCommand::Restack { branch_name: "feat/b".into(), remaining: vec![], continue_paused: false }
    );

    run.step(CleanInput::Restacked(restacked(false, &[])));
    let step = run.step(CleanInput::Deleted { status: ok() });
    assert_eq!(step.command, CleanCommand::ReturnToTrunk);

    let step = run.step(CleanInput::CheckedOut(CheckoutBranchOutcome { status: ok(), switched_from: None }));
    assert_eq!(step.command, CleanCommand::RestoreOriginal);

    let step = run.step(CleanInput::Restored(None));
    let o = finished(&step);
    assert_eq!(o.deleted_branches, strings(&["feat/a", "feat/b"]));
    assert_eq!(o.restacked_branches.len(), 1);
    assert_eq!(o.switched_to_trunk_from.as_deref(), Some("feat/a"));
    assert!(o.status.success() && !o.paused && o.restored_original_branch.is_none());
}

#[test]
fn clean_stops_when_a_restack_pauses_or_a_deletion_fails() {
    let (mut run, _) = CleanRun::new("main".into(), strings(&["feat/a", "feat/b"]), false);
    run.step(CleanInput::Begin { current_branch: "main".into() });
    let step = run.step(CleanInput::Restacked(restacked(true, &["feat/x"])));
    let o = finished(&step);
    assert!(o.paused);
    assert_eq!(o.failure_output.as_deref(), Some("conflict"));
    assert!(o.deleted_branches.is_empty());

    let (mut run, _) = CleanRun::new("main".into(), strings(&["feat/a", "feat/b"]), false);
    run.step(CleanInput::Begin { current_branch: "main".into() });
    run.step(CleanInput::Restacked(restacked(false, &[])));
    let o = finished(&run.step(CleanInput::Deleted { status: failed() }));
    assert_eq!(o.status, failed());
    assert!(o.deleted_branches.is_empty() && !o.paused);
}

#[test]
fn resumed_clean_deletes_the_paused_branch_then_the_remaining_ones() {
    let (mut run, step) = CleanRun::resumed(
        "main".into(),
        "feat/z".into(),
        None,
        "feat/b".into(),
        strings(&["feat/c"]),
        strings(&["feat/a"]),
        vec![],
    );
    assert_eq!(
        step.command,
        CleanCommand::Restack {
            branch_name: "feat/b".into(),
            remaining: strings(&["feat/c"]),
            continue_paused: true,
        }
    );
    let step = run.step(CleanInput::Restacked(restacked(false, &[])));
    assert_eq!(step.command, CleanCommand::Delete { branch_name: "feat/b".into(), announce: false });
    // The paused branch's deletion counts whatever git answered.
    let step = run.step(CleanInput::Deleted { status: failed() });
    assert!(step.events.is_empty());
    run.step(CleanInput::Restacked(restacked(false, &[])));
    run.step(CleanInput::Deleted { status: ok() });
    run.step(CleanInput::CheckedOut(CheckoutBranchOutcome { status: ok(), switched_from: None }));
    let o = finished(&run.step(CleanInput::Restored(Some(RestoreBranchOutcome {
        status: ok(),
        restored_branch: "feat/z".into(),
    }))));
    assert_eq!(o.deleted_branches, strings(&["feat/a", "feat/b", "feat/c"]));
    assert_eq!(o.restored_original_branch.as_deref(), Some("feat/z"));
}

fn node(id: u128, name: &str, parent: ParentRef) -> BranchNode {
    BranchNode {
        id,
        branch_name: name.into(),
        parent,
        base_ref: "main".into(),
        fork_point_oid: "1".into(),
        head_oid_at_creation: "1".into(),
        created_at_unix_secs: 1,
        archived: false,
    }
}

#[test]
fn deleted_candidates_are_archived_as_integrated_into_their_parent() {
    let mut state = DigState::default();
    let created = state.record_tracked(node(1, "feat/a", ParentRef::Trunk), 5, false).unwrap();
    assert!(matches!(created, DigEvent::BranchCreated(_)));
    let adopted = state
        .record_tracked(node(2, "feat/b", ParentRef::Branch { node_id: 1 }), 6, true)
        .unwrap();
    assert!(matches!(adopted, DigEvent::BranchAdopted(_)));
    assert_eq!(
        state.record_tracked(node(3, "feat/b", ParentRef::Trunk), 7, false).unwrap_err().kind(),
        ErrorKind::AlreadyExists
    );

    let event = archive_integrated(&mut state, "main", "feat/b", 9).unwrap();
    assert_eq!(
        event,
        DigEvent::BranchArchived(BranchArchivedEvent {
            occurred_at_unix_secs: 9,
            branch_id: 2,
            branch_name: "feat/b".into(),
            reason: BranchArchiveReason::IntegratedIntoParent { parent_branch: "feat/a".into() },
        })
    );
    assert!(state.find_branch_by_name("feat/b").is_none());
    assert_eq!(
        archive_integrated(&mut state, "main", "feat/b", 9).unwrap_err().to_string(),
        "tracked branch 'feat/b' was not found"
    );

    let deleted = state.record_archived(1, "feat/a".into(), BranchArchiveReason::DeletedByUser, 10).unwrap();
    assert!(matches!(deleted, DigEvent::BranchArchived(BranchArchivedEvent { reason: BranchArchiveReason::DeletedByUser, .. })));
}

#[test]
fn created_node_is_reported_only_after_a_successful_checkout() {
    let n = node(1, "feat/new", ParentRef::Trunk);
    let o = create_outcome(ok(), n.clone(), vec![]);
    assert_eq!(o.created_node, Some(n.clone()));
    let o = create_outcome(failed(), n, vec![]);
    assert!(o.created_node.is_none());
    assert_eq!(o.lineage.len(), 1);
    assert_eq!(o.lineage[0].branch_name, "feat/new");
    assert_eq!(o.lineage[0].pull_request_number, None);
}

#[test]
fn merge_final_drawing_equals_the_active_one() {
    let plan = MergePlan {
        trunk_branch: "main".into(),
        current_branch: "main".into(),
        source_branch_name: "feat/a".into(),
        target_branch_name: "main".into(),
        source_node_id: 1,
        mode: MergeMode::Squash,
        messages: vec![],
        tree: MergeTreeNode {
            branch_name: "feat/a".into(),
            children: vec![MergeTreeNode { branch_name: "feat/b".into(), children: vec![] }],
        },
        restack_plan: vec![],
    };
    let mut animation = MergeAnimation::new(&plan);
    assert_eq!(animation.render_final(), animation.render_active());
    for event in [
        MergeEvent::MergeStarted { source_branch: "feat/a".into(), target_branch: "main".into(), mode: MergeMode::Squash },
        MergeEvent::MergeCompleted { source_branch: "feat/a".into(), target_branch: "main".into(), mode: MergeMode::Squash },
        MergeEvent::RebaseStarted { branch_name: "feat/b".into(), onto_branch: "main".into() },
    ] {
        animation.apply_event(&event);
        assert_eq!(animation.render_final(), animation.render_active());
    }
}
