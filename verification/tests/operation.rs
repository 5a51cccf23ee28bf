use dig::operation::{
    frame_line_count, render_sections, AnimationTerminal, BranchStatus, OperationSection,
    StatusChange, VisualNode,
};

#[test]
fn advances_spinner_and_records_progress() {
    let s = BranchStatus::start_in_flight();
    assert_eq!(
        s,
        BranchStatus::InFlight {
            frame_index: 0,
            current_commit: None,
            total_commits: None
        }
    );
    assert_eq!(
        s.advance_progress(1, 3),
        BranchStatus::InFlight {
            frame_index: 1,
            current_commit: Some(1),
            total_commits: Some(3)
        }
    );
    let last = BranchStatus::InFlight {
        frame_index: 9,
        current_commit: None,
        total_commits: None,
    };
    assert_eq!(
        last.advance_progress(4, 4),
        BranchStatus::InFlight {
            frame_index: 0,
            current_commit: Some(4),
            total_commits: Some(4)
        }
    );
    assert_eq!(
        BranchStatus::Succeeded.advance_progress(0, 1),
        BranchStatus::InFlight {
            frame_index: 0,
            current_commit: Some(0),
            total_commits: Some(1)
        }
    );
}

#[test]
fn deleted_root_promotes_children_in_final_view() {
    let mut root = VisualNode::new(
        "feat/auth".into(),
        vec![VisualNode::new("feat/users".into(), vec![])],
    );
    root.status = BranchStatus::Deleted;
    let sections = vec![OperationSection {
        root_label: "main".into(),
        root,
        promote_children_on_deleted_root: true,
    }];

    assert_eq!(render_sections(&sections, true), "main\n└── feat/users");
    assert_eq!(
        render_sections(&sections, false),
        "main\n└── \u{1b}[31m✗\u{1b}[0m \u{1b}[31;9mfeat/auth\u{1b}[0m\n    └── feat/users"
    );
}

#[test]
fn sections_are_separated_by_blank_lines() {
    let sections = vec![
        OperationSection {
            root_label: "main".into(),
            root: VisualNode::new("a".into(), vec![]),
            promote_children_on_deleted_root: false,
        },
        OperationSection {
            root_label: "dev".into(),
            root: VisualNode::new("b".into(), vec![]),
            promote_children_on_deleted_root: false,
        },
    ];
    assert_eq!(render_sections(&sections, false), "main\n└── a\n\ndev\n└── b");
}

#[test]
fn updates_first_matching_node_in_preorder() {
    let mut root = VisualNode::new(
        "a".into(),
        vec![
            VisualNode::new("b".into(), vec![VisualNode::new("c".into(), vec![])]),
            VisualNode::new("c".into(), vec![]),
        ],
    );
    assert!(root.update_status("c", StatusChange::Succeed));
    assert_eq!(root.children[0].children[0].status, BranchStatus::Succeeded);
    assert_eq!(root.children[1].status, BranchStatus::Pending);
    assert!(!root.update_status("zzz", StatusChange::Start));
}

#[test]
fn counts_frame_lines() {
    assert_eq!(frame_line_count(""), 1);
    assert_eq!(frame_line_count("a"), 1);
    assert_eq!(frame_line_count("a\nb"), 2);
    assert_eq!(frame_line_count("a\nb\n"), 2);
    assert_eq!(frame_line_count("a\n\nb"), 3);
}

#[test]
fn redraws_over_the_previous_frame() {
    let mut terminal = AnimationTerminal::started();
    assert_eq!(terminal.render("one\ntwo\nthree"), "\u{1b}[Jone\ntwo\nthree");
    assert_eq!(terminal.rendered_line_count, 3);
    assert_eq!(terminal.render("x"), "\r\u{1b}[2A\u{1b}[Jx");
    assert_eq!(terminal.render("y"), "\r\u{1b}[Jy");
    assert_eq!(terminal.cursor_restore(), Some("\u{1b}[?25h"));
    assert_eq!(terminal.finish("done"), "\r\u{1b}[Jdone\u{1b}[?25h\n");
    assert!(!terminal.active);
    assert_eq!(terminal.cursor_restore(), None);
}
