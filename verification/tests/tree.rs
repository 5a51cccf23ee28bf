use dig::error::ErrorKind;
use dig::store::{BranchNode, DigState, ParentRef, DIG_STATE_VERSION};
use dig::tree::{build_tree_view, filter_tree_view, TreeLabel, TreeNode, TreeView};
use uuid::Uuid;

fn leaf(name: &str, is_current: bool) -> TreeNode {
    TreeNode {
        branch_name: name.into(),
        is_current,
        children: vec![],
    }
}

fn node(id: u128, name: &str, parent: ParentRef, created: u64) -> BranchNode {
    BranchNode {
        id,
        branch_name: name.into(),
        parent,
        base_ref: "main".into(),
        fork_point_oid: "1".into(),
        head_oid_at_creation: "1".into(),
        created_at_unix_secs: created,
        archived: false,
    }
}

#[test]
fn builds_tree_view_from_shared_root_graph() {
    let auth_id = Uuid::new_v4().as_u128();
    let auth_api_id = Uuid::new_v4().as_u128();
    let billing_id = Uuid::new_v4().as_u128();
    let state = DigState {
        version: DIG_STATE_VERSION,
        nodes: vec![
            BranchNode {
                id: auth_id,
                branch_name: "feat/auth".into(),
                parent: ParentRef::Trunk,
                base_ref: "main".into(),
                fork_point_oid: "1".into(),
                head_oid_at_creation: "1".into(),
                created_at_unix_secs: 1,
                archived: false,
            },
            BranchNode {
                id: auth_api_id,
                branch_name: "feat/auth-api".into(),
                parent: ParentRef::Branch { node_id: auth_id },
                base_ref: "feat/auth".into(),
                fork_point_oid: "2".into(),
                head_oid_at_creation: "2".into(),
                created_at_unix_secs: 2,
                archived: false,
            },
            BranchNode {
                id: billing_id,
                branch_name: "feat/billing".into(),
                parent: ParentRef::Trunk,
                base_ref: "main".into(),
                fork_point_oid: "3".into(),
                head_oid_at_creation: "3".into(),
                created_at_unix_secs: 3,
                archived: false,
            },
        ],
    };

    assert_eq!(
        build_tree_view(&state, "main", Some("feat/auth-api")),
        TreeView {
            root_label: Some(TreeLabel {
                branch_name: "main".into(),
                is_current: false,
            }),
            roots: vec![
                TreeNode {
                    branch_name: "feat/auth".into(),
                    is_current: false,
                    children: vec![TreeNode {
                        branch_name: "feat/auth-api".into(),
                        is_current: true,
                        children: vec![],
                    }],
                },
                TreeNode {
                    branch_name: "feat/billing".into(),
                    is_current: false,
                    children: vec![],
                },
            ],
        }
    );
}

#[test]
fn filters_tree_to_selected_branch_subtree() {
    let view = TreeView {
        root_label: Some(TreeLabel {
            branch_name: "main".into(),
            is_current: false,
        }),
        roots: vec![TreeNode {
            branch_name: "feat/auth".into(),
            is_current: false,
            children: vec![
                TreeNode {
                    branch_name: "feat/auth-api".into(),
                    is_current: false,
                    children: vec![TreeNode {
                        branch_name: "feat/auth-api-tests".into(),
                        is_current: false,
                        children: vec![],
                    }],
                },
                TreeNode {
                    branch_name: "feat/auth-ui".into(),
                    is_current: true,
                    children: vec![],
                },
            ],
        }],
    };

    assert_eq!(
        filter_tree_view(view, Some("feat/auth")).unwrap(),
        TreeView {
            root_label: Some(TreeLabel {
                branch_name: "feat/auth".into(),
                is_current: false,
            }),
            roots: vec![
                TreeNode {
                    branch_name: "feat/auth-api".into(),
                    is_current: false,
                    children: vec![TreeNode {
                        branch_name: "feat/auth-api-tests".into(),
                        is_current: false,
                        children: vec![],
                    }],
                },
                TreeNode {
                    branch_name: "feat/auth-ui".into(),
                    is_current: true,
                    children: vec![],
                },
            ],
        }
    );
}

fn sample_view() -> TreeView {
    TreeView {
        root_label: Some(TreeLabel {
            branch_name: "main".into(),
            is_current: true,
        }),
        roots: vec![leaf("feat/a", false), leaf("feat/b", false)],
    }
}

#[test]
fn blank_filter_keeps_view() {
    assert_eq!(filter_tree_view(sample_view(), None).unwrap(), sample_view());
    assert_eq!(filter_tree_view(sample_view(), Some("   ")).unwrap(), sample_view());
}

#[test]
fn filtering_on_trunk_drops_the_label() {
    assert_eq!(
        filter_tree_view(sample_view(), Some(" main ")).unwrap(),
        TreeView {
            root_label: None,
            roots: vec![leaf("feat/a", false), leaf("feat/b", false)],
        }
    );
}

#[test]
fn filtering_on_unknown_branch_is_not_found() {
    let err = filter_tree_view(sample_view(), Some("feat/zzz")).unwrap_err();
    assert_eq!(err.kind(), ErrorKind::NotFound);
    assert_eq!(
        err.to_string(),
        "tracked branch 'feat/zzz' was not found in dig tree"
    );
}

#[test]
fn roots_sort_by_creation_then_store_order_and_skip_archived() {
    let mut archived = node(9, "feat/old", ParentRef::Trunk, 0);
    archived.archived = true;
    let state = DigState {
        version: DIG_STATE_VERSION,
        nodes: vec![
            node(1, "feat/late", ParentRef::Trunk, 5),
            archived,
            node(2, "feat/early-b", ParentRef::Trunk, 1),
            node(3, "feat/early-a", ParentRef::Trunk, 1),
            node(4, "feat/orphan", ParentRef::Branch { node_id: 9 }, 3),
        ],
    };

    let view = build_tree_view(&state, "main", Some("main"));
    let names: Vec<&str> = view.roots.iter().map(|n| n.branch_name.as_str()).collect();
    assert_eq!(names, vec!["feat/early-b", "feat/early-a", "feat/orphan", "feat/late"]);
    assert_eq!(view.root_label.unwrap().is_current, true);
}
