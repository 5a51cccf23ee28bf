use dig::init::{build_git_init_args, InitOptions};
use dig::tree::{TreeArgs, TreeOptions};

#[test]
fn builds_git_init_command() {
    assert_eq!(build_git_init_args(&InitOptions::default()), vec!["init"]);
}

#[test]
fn converts_cli_args_into_core_tree_options() {
    let options = TreeOptions::from(TreeArgs {
        branch_name: Some("feat/auth".into()),
    });

    assert_eq!(options.branch_name.as_deref(), Some("feat/auth"));
}
