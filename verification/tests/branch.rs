use dig::branch::{
    check_branch_creation, check_branch_deletion, check_deletion_locals, check_parent_branch, complete_delete_outcome,
    format_delete_success_output, resolve_delete_branch_name, resolve_parent_branch_name,
    resolve_parent_ref, BranchArgs, BranchOptions, CreateBranchOptions, DeleteBranchOptions,
    DeleteBranchOutcome, RestoreBranchOutcome,
};
use dig::error::{CommandStatus, ErrorKind};
use dig::render::RestackPreview;
use dig::store::{BranchNode, DigConfig, DigState, ParentRef, DIG_STATE_VERSION};
use uuid::Uuid;

fn known_node(id: u128, name: &str) -> BranchNode {
    BranchNode {
        id,
        branch_name: name.into(),
        parent: ParentRef::Trunk,
        base_ref: "main".into(),
        fork_point_oid: "abc123".into(),
        head_oid_at_creation: "abc123".into(),
        created_at_unix_secs: 1,
        archived: false,
    }
}

#[test]
fn converts_create_cli_args_into_core_branch_options() {
    let args = BranchArgs {
        name: "feature/api".into(),
        delete: false,
        parent_branch_name: Some("main".into()),
    };

    let options = BranchOptions::try_from(args).unwrap();

    assert_eq!(
        options,
        BranchOptions::Create(CreateBranchOptions {
            name: "feature/api".into(),
            parent_branch_name: Some("main".into())
        })
    );
}

#[test]
fn converts_delete_cli_args_into_core_branch_options() {
    let options = BranchOptions::try_from(BranchArgs {
        name: "feature/api".into(),
        delete: true,
        parent_branch_name: None,
    })
    .unwrap();

    assert_eq!(
        options,
        BranchOptions::Delete(DeleteBranchOptions {
            branch_name: "feature/api".into()
        })
    );
}

#[test]
fn rejects_delete_with_parent_override() {
    let err = BranchOptions::try_from(BranchArgs {
        name: "feature/api".into(),
        delete: true,
        parent_branch_name: Some("main".into()),
    })
    .unwrap_err();

    assert_eq!(err.kind(), ErrorKind::InvalidInput);
}

#[test]
fn formats_delete_success_output_with_restacked_branches() {
    let output = format_delete_success_output(
        &DeleteBranchOutcome {
            status: CommandStatus::success_status(),
            branch_name: "feat/auth".into(),
            parent_branch_name: "main".into(),
            restacked_branches: vec![RestackPreview {
                branch_name: "feat/auth-ui".into(),
                onto_branch: "main".into(),
                parent_changed: true,
            }],
            restored_original_branch: Some("main".into()),
            failure_output: None,
            paused: false,
        },
        "main\n└── feat/auth-ui",
    );

    assert_eq!(
        output,
        "Deleted 'feat/auth'. It is no longer tracked by dagger.\nReturned to 'main' after deleting.\n\nRestacked:\n- feat/auth-ui onto main\n\nmain\n└── feat/auth-ui"
    );
}

#[test]
fn formats_delete_output_without_restack_or_tree() {
    let output = format_delete_success_output(
        &DeleteBranchOutcome {
            status: CommandStatus::success_status(),
            branch_name: "feat/auth".into(),
            parent_branch_name: "main".into(),
            restacked_branches: vec![],
            restored_original_branch: None,
            failure_output: None,
            paused: false,
        },
        "  \n",
    );

    assert_eq!(output, "Deleted 'feat/auth'. It is no longer tracked by dagger.");
}

#[test]
fn preserves_create_branch_options() {
    let options = BranchOptions::Create(CreateBranchOptions {
        name: "feature/api".into(),
        parent_branch_name: None,
    });

    assert_eq!(
        options,
        BranchOptions::Create(CreateBranchOptions {
            name: "feature/api".into(),
            parent_branch_name: None,
        })
    );
}

#[test]
fn preserves_delete_branch_options() {
    let options = BranchOptions::Delete(DeleteBranchOptions {
        branch_name: "feature/api".into(),
    });

    assert_eq!(
        options,
        BranchOptions::Delete(DeleteBranchOptions {
            branch_name: "feature/api".into(),
        })
    );
}

#[test]
fn rejects_blank_delete_branch_name() {
    assert!(resolve_delete_branch_name(" ").is_err());
}

#[test]
fn trims_delete_branch_name() {
    assert_eq!(resolve_delete_branch_name("  feat/x \t").unwrap(), "feat/x");
}

#[test]
fn resolves_requested_trunk_parent() {
    let state = DigState::default();
    let config = DigConfig::new("main".into());

    assert_eq!(
        resolve_parent_ref(&state, &config, "main").unwrap(),
        ParentRef::Trunk
    );
}

#[test]
fn resolves_requested_tracked_parent_branch() {
    let parent_id = Uuid::new_v4().as_u128();
    let state = DigState {
        version: DIG_STATE_VERSION,
        nodes: vec![BranchNode {
            id: parent_id,
            branch_name: "feature/base".into(),
            parent: ParentRef::Trunk,
            base_ref: "main".into(),
            fork_point_oid: "abc123".into(),
            head_oid_at_creation: "abc123".into(),
            created_at_unix_secs: 1,
            archived: false,
        }],
    };
    let config = DigConfig::new("main".into());

    assert_eq!(
        resolve_parent_ref(&state, &config, "feature/base").unwrap(),
        ParentRef::Branch { node_id: parent_id }
    );
}

#[test]
fn rejects_untracked_parent_ref() {
    let err = resolve_parent_ref(&DigState::default(), &DigConfig::new("main".into()), "feat/x")
        .unwrap_err();
    assert_eq!(err.kind(), ErrorKind::NotFound);
    assert_eq!(
        err.to_string(),
        "parent branch 'feat/x' is not tracked by dagger and does not match trunk 'main'"
    );
}

#[test]
fn resolves_parent_branch_name_override() {
    assert_eq!(
        resolve_parent_branch_name("feature/base", Some("main")).unwrap(),
        "main"
    );
}

#[test]
fn resolves_parent_branch_name_from_current_branch() {
    assert_eq!(resolve_parent_branch_name(" feature/base ", None).unwrap(), "feature/base");
    assert_eq!(
        resolve_parent_branch_name("main", Some("  ")).unwrap_err().to_string(),
        "parent branch name cannot be empty"
    );
}

#[test]
fn creation_checks_run_in_order() {
    let mut state = DigState::default();
    state.insert_branch(known_node(1, "feat/auth")).unwrap();

    let err = check_branch_creation(&state, "  ", false, "main", None).unwrap_err();
    assert_eq!(err.kind(), ErrorKind::InvalidInput);
    assert_eq!(err.to_string(), "branch name cannot be empty");

    let err = check_branch_creation(&state, "feat/auth", true, "main", None).unwrap_err();
    assert_eq!(err.kind(), ErrorKind::AlreadyExists);
    assert_eq!(err.to_string(), "branch 'feat/auth' already exists");

    let err = check_branch_creation(&state, "feat/auth", false, "main", None).unwrap_err();
    assert_eq!(err.kind(), ErrorKind::AlreadyExists);
    assert_eq!(err.to_string(), "branch 'feat/auth' is already tracked by dagger");

    let err = check_branch_creation(&state, "feat/new", false, "feat/new", None).unwrap_err();
    assert_eq!(err.to_string(), "branch cannot list itself as its parent");

    let err = check_branch_creation(&state, "feat/new", false, "main", Some(" ")).unwrap_err();
    assert_eq!(err.to_string(), "parent branch name cannot be empty");

    let (name, parent) =
        check_branch_creation(&state, " feat/new ", false, "main", Some(" feat/auth ")).unwrap();
    assert_eq!((name.as_str(), parent.as_str()), ("feat/new", "feat/auth"));
}

#[test]
fn new_branch_parent_must_exist_and_be_tracked_or_trunk() {
    let mut state = DigState::default();
    state.insert_branch(known_node(1, "feat/auth")).unwrap();
    let config = DigConfig::new("main".into());

    let err = check_parent_branch(&state, &config, "feat/auth", false).unwrap_err();
    assert_eq!(err.kind(), ErrorKind::NotFound);
    assert_eq!(err.to_string(), "parent branch 'feat/auth' does not exist");

    assert_eq!(check_parent_branch(&state, &config, "main", true).unwrap(), ParentRef::Trunk);
    assert_eq!(
        check_parent_branch(&state, &config, "feat/auth", true).unwrap(),
        ParentRef::Branch { node_id: 1 }
    );
    let err = check_parent_branch(&state, &config, "feat/other", true).unwrap_err();
    assert_eq!(
        err.to_string(),
        "parent branch 'feat/other' is not tracked by dagger and does not match trunk 'main'"
    );
}

#[test]
fn deletion_checks_run_in_order() {
    let mut state = DigState::default();
    state.insert_branch(known_node(1, "feat/auth")).unwrap();
    let config = DigConfig::new("main".into());

    assert_eq!(
        check_branch_deletion(&state, &config, "main", "feat/auth", true)
            .unwrap_err()
            .to_string(),
        "cannot delete trunk branch 'main'"
    );
    assert_eq!(
        check_branch_deletion(&state, &config, "feat/gone", "main", false)
            .unwrap_err()
            .to_string(),
        "branch 'feat/gone' does not exist"
    );
    assert_eq!(
        check_branch_deletion(&state, &config, "feat/manual", "main", true)
            .unwrap_err()
            .to_string(),
        "branch 'feat/manual' is not tracked by dagger"
    );
    assert_eq!(
        check_branch_deletion(&state, &config, "feat/auth", "feat/auth", true)
            .unwrap_err()
            .to_string(),
        "cannot delete checked-out branch 'feat/auth'; switch to another branch first"
    );
    assert_eq!(
        check_branch_deletion(&state, &config, "feat/auth", "main", true).unwrap(),
        (0, "main".to_string())
    );

    let mut orphan = known_node(2, "feat/orphan");
    orphan.parent = ParentRef::Branch { node_id: 9 };
    state.insert_branch(orphan).unwrap();
    let err = check_branch_deletion(&state, &config, "feat/orphan", "main", true).unwrap_err();
    assert_eq!(err.kind(), ErrorKind::Other);
    assert_eq!(err.to_string(), "tracked parent for 'feat/orphan' is missing from dagger");
}

#[test]
fn deletion_needs_its_parent_and_all_descendants_locally() {
    assert!(check_deletion_locals("feat/a", "main", true, &vec![]).is_ok());
    assert_eq!(
        check_deletion_locals("feat/a", "main", false, &vec![]).unwrap_err().to_string(),
        "parent branch 'main' does not exist"
    );
    assert_eq!(
        check_deletion_locals("feat/a", "main", true, &vec!["feat/b".into(), "feat/c".into()])
            .unwrap_err()
            .to_string(),
        "tracked descendants of 'feat/a' are missing locally: feat/b, feat/c"
    );
}

#[test]
fn completing_a_delete_reports_the_return_to_the_original_branch() {
    let ok = CommandStatus::success_status();
    let failed = CommandStatus { code: Some(1) };

    let outcome = complete_delete_outcome(
        "feat/auth".into(),
        "main".into(),
        "feat/ui",
        vec![],
        ok,
        ok,
        Some(RestoreBranchOutcome {
            status: failed,
            restored_branch: "feat/ui".into(),
        }),
    );
    assert_eq!(outcome.status, failed);
    assert_eq!(outcome.restored_original_branch, None);
    assert_eq!(
        outcome.failure_output.as_deref(),
        Some("branch deleted, but failed to return to 'feat/ui'")
    );

    let outcome = complete_delete_outcome(
        "feat/auth".into(),
        "main".into(),
        "feat/ui",
        vec![],
        ok,
        failed,
        None,
    );
    assert_eq!(outcome.status, failed);
    assert!(!outcome.paused);
}
