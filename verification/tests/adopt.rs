use dig::adopt::{
    build_adopt_plan, check_adoption, needs_restore, rebase_abort_result, rebase_in_progress,
    recheck_adoption, resolve_branch_name, restore_result,
};
use dig::error::{CommandStatus, ErrorKind};
use dig::store::{BranchNode, DigConfig, DigState, ParentRef};

fn known_node(id: u128, name: &str) -> BranchNode {
    BranchNode {
        id,
        branch_name: name.into(),
        parent: ParentRef::Trunk,
        base_ref: "main".into(),
        fork_point_oid: "1".into(),
        head_oid_at_creation: "1".into(),
        created_at_unix_secs: 1,
        archived: false,
    }
}

#[test]
fn resolves_requested_branch_or_current_branch() {
    assert_eq!(
        resolve_branch_name("feat/current", Some("feat/other")).unwrap(),
        "feat/other"
    );
    assert_eq!(
        resolve_branch_name("feat/current", None).unwrap(),
        "feat/current"
    );
}

#[test]
fn rejects_blank_branch_name() {
    let err = resolve_branch_name("feat/current", Some("  ")).unwrap_err();
    assert_eq!(err.kind(), ErrorKind::InvalidInput);
    assert_eq!(err.to_string(), "branch name cannot be empty");
}

#[test]
fn rejects_tracked_branch_adoption() {
    let mut state = DigState::default();
    state.insert_branch(known_node(1, "feat/auth")).unwrap();
    let config = DigConfig::new("main".into());

    let error = check_adoption(&state, &config, "feat/auth", "main", true, true).unwrap_err();

    assert_eq!(error.kind(), ErrorKind::AlreadyExists);
    assert_eq!(error.to_string(), "branch 'feat/auth' is already tracked by dig");
}

#[test]
fn rejects_adopting_trunk_branch() {
    let config = DigConfig::new("main".into());

    let error = check_adoption(&DigState::default(), &config, "main", "main", true, true).unwrap_err();

    assert_eq!(error.kind(), ErrorKind::InvalidInput);
    assert_eq!(error.to_string(), "cannot adopt trunk branch 'main'");
}

#[test]
fn rejects_untracked_parent_branch() {
    let config = DigConfig::new("main".into());

    let error = check_adoption(&DigState::default(), &config, "feat/child", "feat/parent", true, false)
        .unwrap_err();

    assert_eq!(error.kind(), ErrorKind::NotFound);
    assert_eq!(error.to_string(), "parent branch 'feat/parent' does not exist");
}

#[test]
fn adoption_resolves_the_parent_ref() {
    let mut state = DigState::default();
    state.insert_branch(known_node(7, "feat/auth")).unwrap();
    let config = DigConfig::new("main".into());

    let (parent, parent_ref) =
        check_adoption(&state, &config, "feat/auth-ui", " feat/auth ", true, true).unwrap();
    assert_eq!(parent, "feat/auth");
    assert_eq!(parent_ref, ParentRef::Branch { node_id: 7 });

    let (parent, parent_ref) = check_adoption(&state, &config, "feat/x", "main", true, true).unwrap();
    assert_eq!(parent, "main");
    assert_eq!(parent_ref, ParentRef::Trunk);

    assert_eq!(
        check_adoption(&state, &config, "feat/x", "feat/x", true, true)
            .unwrap_err()
            .to_string(),
        "branch cannot list itself as its parent"
    );
    assert_eq!(
        check_adoption(&state, &config, "feat/x", " ", true, true)
            .unwrap_err()
            .to_string(),
        "parent branch name cannot be empty"
    );
    assert_eq!(
        check_adoption(&state, &config, "feat/x", "feat/y", false, true)
            .unwrap_err()
            .to_string(),
        "branch 'feat/x' does not exist"
    );
}

#[test]
fn plans_rebase_for_sibling_branch_adoption() {
    let plan = build_adopt_plan(
        "main".into(),
        "feat/auth".into(),
        "feat/auth-ui".into(),
        "feat/auth".into(),
        ParentRef::Branch { node_id: 1 },
        "aaa".into(),
        "bbb",
    );

    assert!(plan.requires_rebase);
    assert_eq!(plan.original_branch, "feat/auth");
    assert_eq!(plan.branch_name, "feat/auth-ui");
    assert_eq!(plan.parent_branch_name, "feat/auth");

    let plan = build_adopt_plan(
        "main".into(),
        "main".into(),
        "feat/x".into(),
        "main".into(),
        ParentRef::Trunk,
        "ccc".into(),
        "ccc",
    );
    assert!(!plan.requires_rebase);
}

#[test]
fn recheck_detects_a_changed_parent() {
    let mut state = DigState::default();
    state.insert_branch(known_node(7, "feat/auth")).unwrap();
    let config = DigConfig::new("main".into());
    let plan = build_adopt_plan(
        "main".into(),
        "main".into(),
        "feat/ui".into(),
        "feat/auth".into(),
        ParentRef::Branch { node_id: 8 },
        "a".into(),
        "a",
    );

    let err = recheck_adoption(&state, &config, &plan).unwrap_err();
    assert_eq!(err.kind(), ErrorKind::Other);
    assert_eq!(
        err.to_string(),
        "tracked parent for 'feat/auth' changed while planning adopt"
    );
}

#[test]
fn rebase_and_restore_decisions() {
    assert!(rebase_in_progress(false, true, false));
    assert!(!rebase_in_progress(false, false, false));
    assert!(rebase_abort_result(CommandStatus::success_status()).is_ok());
    assert_eq!(
        rebase_abort_result(CommandStatus { code: Some(1) })
            .unwrap_err()
            .to_string(),
        "git rebase failed and 'git rebase --abort' did not succeed"
    );
    assert!(!needs_restore(Some("feat/a"), "feat/a", true));
    assert!(needs_restore(Some("main"), "feat/a", true));
    assert!(!needs_restore(None, "feat/a", false));
    assert_eq!(
        restore_result("feat/a", CommandStatus::success_status()).unwrap(),
        Some("feat/a".to_string())
    );
    assert_eq!(
        restore_result("feat/a", CommandStatus { code: None })
            .unwrap_err()
            .to_string(),
        "adopt completed, but failed to return to 'feat/a'"
    );
}
