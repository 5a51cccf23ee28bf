use dig::render::{format_restacked_branches, join_sections, render_tree, DisplayNode, RestackPreview};

#[test]
fn formats_restacked_branches_section() {
    let rendered = format_restacked_branches(&vec![
        RestackPreview {
            branch_name: "feat/auth-api".into(),
            onto_branch: "feat/auth".into(),
            parent_changed: false,
        },
        RestackPreview {
            branch_name: "feat/auth-ui".into(),
            onto_branch: "main".into(),
            parent_changed: true,
        },
    ]);

    assert_eq!(
        rendered,
        "Restacked:\n- feat/auth-api onto feat/auth\n- feat/auth-ui onto main"
    );
}

#[test]
fn joins_sections_with_blank_lines() {
    assert_eq!(
        join_sections(&vec!["one".into(), "two".into(), "three".into()]),
        "one\n\ntwo\n\nthree"
    );
}

#[test]
fn renders_tree_lines_for_shared_cli_views() {
    let rendered = render_tree(
        Some("main".into()),
        &vec![DisplayNode {
            label: "feat/auth".into(),
            children: vec![
                DisplayNode {
                    label: "feat/auth-api".into(),
                    children: vec![],
                },
                DisplayNode {
                    label: "feat/auth-ui".into(),
                    children: vec![],
                },
            ],
        }],
    );

    assert_eq!(
        rendered,
        "main\n└── feat/auth\n    ├── feat/auth-api\n    └── feat/auth-ui"
    );
}

#[test]
fn renders_nested_non_last_branches_with_bars() {
    let rendered = render_tree(
        None,
        &vec![
            DisplayNode {
                label: "a".into(),
                children: vec![DisplayNode {
                    label: "a1".into(),
                    children: vec![],
                }],
            },
            DisplayNode {
                label: "b".into(),
                children: vec![],
            },
        ],
    );

    assert_eq!(rendered, "├── a\n│   └── a1\n└── b");
}

#[test]
fn restacked_section_without_branches_is_only_the_heading() {
    assert_eq!(format_restacked_branches(&vec![]), "Restacked:");
}
