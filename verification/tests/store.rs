use dig::error::ErrorKind;
use dig::store::{BranchNode, DigConfig, DigState, ParentRef, DIG_STATE_VERSION};
use uuid::Uuid;

fn node(id: u128, name: &str, parent: ParentRef) -> BranchNode {
    BranchNode {
        id,
        branch_name: name.into(),
        parent,
        base_ref: "main".into(),
        fork_point_oid: "abc123".into(),
        head_oid_at_creation: "abc123".into(),
        created_at_unix_secs: 1,
        archived: false,
    }
}

#[test]
fn tracks_roots_with_union_parent_ref() {
    let node = BranchNode {
        id: Uuid::nil().as_u128(),
        branch_name: "feature/api".into(),
        parent: ParentRef::Trunk,
        base_ref: "main".into(),
        fork_point_oid: "abc123".into(),
        head_oid_at_creation: "abc123".into(),
        created_at_unix_secs: 1,
        archived: false,
    };

    let mut state = DigState::default();
    state.insert_branch(node.clone()).unwrap();

    assert_eq!(state.find_branch_by_name("feature/api"), Some(&node));
}

#[test]
fn builds_config_with_trunk_branch() {
    assert_eq!(DigConfig::new("main".into()).trunk_branch, "main");
}

#[test]
fn default_state_is_empty_at_current_version() {
    let state = DigState::default();
    assert_eq!(state.version, DIG_STATE_VERSION);
    assert!(state.nodes.is_empty());
}

#[test]
fn rejects_tracking_a_name_twice_and_keeps_state() {
    let mut state = DigState::default();
    state.insert_branch(node(1, "feat/auth", ParentRef::Trunk)).unwrap();
    let before = state.clone();

    let err = state.insert_branch(node(2, "feat/auth", ParentRef::Trunk)).unwrap_err();

    assert_eq!(err.kind(), ErrorKind::AlreadyExists);
    assert_eq!(err.to_string(), "branch 'feat/auth' is already tracked by dig");
    assert_eq!(state, before);
}

#[test]
fn archived_names_can_be_tracked_again() {
    let mut state = DigState::default();
    state.insert_branch(node(1, "feat/auth", ParentRef::Trunk)).unwrap();
    state.archive_branch(1).unwrap();

    assert_eq!(state.find_branch_by_name("feat/auth"), None);
    assert_eq!(state.find_branch_by_id(1), None);

    state.insert_branch(node(2, "feat/auth", ParentRef::Trunk)).unwrap();
    assert_eq!(state.find_branch_by_name("feat/auth").map(|n| n.id), Some(2));
    assert_eq!(state.nodes.len(), 2);
}

#[test]
fn archive_of_unknown_node_is_not_found() {
    let mut state = DigState::default();
    let err = state.archive_branch(7).unwrap_err();
    assert_eq!(err.kind(), ErrorKind::NotFound);
    assert_eq!(err.to_string(), "tracked branch was not found");
}

#[test]
fn reparent_returns_old_parent_and_undoes() {
    let mut state = DigState::default();
    state.insert_branch(node(1, "feat/auth", ParentRef::Trunk)).unwrap();
    state.insert_branch(node(2, "feat/ui", ParentRef::Trunk)).unwrap();
    let original = state.clone();

    let (old_parent, old_base) = state
        .reparent_branch(2, ParentRef::Branch { node_id: 1 }, "feat/auth".into())
        .unwrap();
    assert_eq!(old_parent, ParentRef::Trunk);
    assert_eq!(old_base, "main");
    let moved = state.find_branch_by_id(2).unwrap();
    assert_eq!(moved.parent, ParentRef::Branch { node_id: 1 });
    assert_eq!(moved.base_ref, "feat/auth");

    state.reparent_branch(2, old_parent, old_base).unwrap();
    assert_eq!(state, original);
}

#[test]
fn reparent_of_unknown_node_is_not_found() {
    let mut state = DigState::default();
    let err = state
        .reparent_branch(3, ParentRef::Trunk, "main".into())
        .unwrap_err();
    assert_eq!(err.kind(), ErrorKind::NotFound);
}
