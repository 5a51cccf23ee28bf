use dig::error::ErrorKind;
use dig::merge::{
    build_merge_tree, build_squash_commit_message, validate_merge_options, CommitMetadata,
    MergeAnimation, MergeEvent, MergeMode, MergeOptions, MergePlan, MergeTreeNode,
};
use dig::store::{BranchNode, DigState, ParentRef};

#[test]
fn builds_default_squash_commit_message_with_commit_listing() {
    let message = build_squash_commit_message(
        "feat/auth",
        "main",
        &vec![],
        &vec![
            CommitMetadata {
                sha: "abc123".into(),
                subject: "feat: auth".into(),
                body: String::new(),
            },
            CommitMetadata {
                sha: "def456".into(),
                subject: "feat: auth api".into(),
                body: String::new(),
            },
        ],
    );

    assert_eq!(
        message,
        "merge feat/auth into main\n\ncommit abc123\n    feat: auth\n\ncommit def456\n    feat: auth api"
    );
}

#[test]
fn appends_commit_listing_after_user_supplied_squash_message() {
    let message = build_squash_commit_message(
        "feat/auth",
        "main",
        &vec!["custom subject".into(), "extra context".into()],
        &vec![CommitMetadata {
            sha: "abc123".into(),
            subject: "feat: auth".into(),
            body: String::new(),
        }],
    );

    assert_eq!(
        message,
        "custom subject\n\nextra context\n\ncommit abc123\n    feat: auth"
    );
}

#[test]
fn squash_message_without_commits_is_only_the_subject() {
    assert_eq!(
        build_squash_commit_message("feat/a", "main", &vec![], &vec![]),
        "merge feat/a into main"
    );
}

#[test]
fn merge_request_trims_and_checks_messages() {
    let (name, messages) = validate_merge_options(&MergeOptions {
        branch_name: " feat/auth ".into(),
        mode: MergeMode::Squash,
        messages: vec![" one ".into(), "  ".into(), "two".into()],
    })
    .unwrap();
    assert_eq!(name, "feat/auth");
    assert_eq!(messages, vec!["one", "two"]);

    let err = validate_merge_options(&MergeOptions {
        branch_name: "feat/auth".into(),
        mode: MergeMode::Normal,
        messages: vec!["one".into()],
    })
    .unwrap_err();
    assert_eq!(err.kind(), ErrorKind::InvalidInput);
    assert_eq!(err.to_string(), "--message can only be used with --squash");

    let err = validate_merge_options(&MergeOptions {
        branch_name: "   ".into(),
        mode: MergeMode::Normal,
        messages: vec![],
    })
    .unwrap_err();
    assert_eq!(err.to_string(), "branch name cannot be empty");

    assert!(validate_merge_options(&MergeOptions {
        branch_name: "feat/a".into(),
        mode: MergeMode::Normal,
        messages: vec![" ".into()],
    })
    .is_ok());
}

fn node(id: u128, name: &str, parent: ParentRef, archived: bool) -> BranchNode {
    BranchNode {
        id,
        branch_name: name.into(),
        parent,
        base_ref: "main".into(),
        fork_point_oid: "1".into(),
        head_oid_at_creation: "1".into(),
        created_at_unix_secs: 1,
        archived,
    }
}

#[test]
fn builds_merge_tree_of_tracked_descendants() {
    let state = DigState {
        version: 1,
        nodes: vec![
            node(1, "feat/auth", ParentRef::Trunk, false),
            node(2, "feat/auth-api", ParentRef::Branch { node_id: 1 }, false),
            node(3, "feat/old", ParentRef::Branch { node_id: 1 }, true),
            node(4, "feat/auth-api-tests", ParentRef::Branch { node_id: 2 }, false),
            node(5, "feat/auth-ui", ParentRef::Branch { node_id: 1 }, false),
        ],
    };

    assert_eq!(
        build_merge_tree(&state, 1).unwrap(),
        MergeTreeNode {
            branch_name: "feat/auth".into(),
            children: vec![
                MergeTreeNode {
                    branch_name: "feat/auth-api".into(),
                    children: vec![MergeTreeNode {
                        branch_name: "feat/auth-api-tests".into(),
                        children: vec![],
                    }],
                },
                MergeTreeNode {
                    branch_name: "feat/auth-ui".into(),
                    children: vec![],
                },
            ],
        }
    );
    assert_eq!(build_merge_tree(&state, 3).unwrap_err().kind(), ErrorKind::NotFound);
}

fn plan() -> MergePlan {
    MergePlan {
        trunk_branch: "main".into(),
        current_branch: "feat/auth".into(),
        source_branch_name: "feat/auth".into(),
        target_branch_name: "main".into(),
        source_node_id: 1,
        mode: MergeMode::Normal,
        messages: vec![],
        tree: MergeTreeNode {
            branch_name: "feat/auth".into(),
            children: vec![MergeTreeNode {
                branch_name: "feat/auth-api".into(),
                children: vec![],
            }],
        },
        restack_plan: vec![],
    }
}

#[test]
fn requires_checkout_only_away_from_target() {
    let mut p = plan();
    assert!(p.requires_target_checkout());
    p.current_branch = "main".into();
    assert!(!p.requires_target_checkout());
}

#[test]
fn merge_animation_marks_events_and_renders() {
    let mut animation = MergeAnimation::new(&plan());
    assert_eq!(animation.render_active(), "main\n└── feat/auth\n    └── feat/auth-api");

    assert!(!animation.apply_event(&MergeEvent::SwitchingToTarget {
        from_branch: "feat/auth".into(),
        to_branch: "main".into(),
    }));
    assert!(animation.apply_event(&MergeEvent::MergeCompleted {
        source_branch: "feat/auth".into(),
        target_branch: "main".into(),
        mode: MergeMode::Normal,
    }));
    assert!(animation.apply_event(&MergeEvent::RebaseProgress {
        branch_name: "feat/auth-api".into(),
        onto_branch: "main".into(),
        current_commit: 2,
        total_commits: 12,
    }));
    assert!(!animation.apply_event(&MergeEvent::RebaseStarted {
        branch_name: "feat/unknown".into(),
        onto_branch: "main".into(),
    }));

    assert_eq!(
        animation.render_final(),
        "main\n└── \u{1b}[32m✓\u{1b}[0m feat/auth\n    └── \u{1b}[36m⠋\u{1b}[0m feat/auth-api [2/12]"
    );
}
