use buckets::worktree::{
    branch_delete_args, check_destination, check_repository, branch_exists_args, slugify, worktree_add_args, worktree_dest, worktree_parent,
    worktree_remove_args,
};

#[test]
fn slugify_replaces_unsafe_chars() {
    assert_eq!(slugify("feature/foo bar"), "feature-foo-bar");
    assert_eq!(slugify("agent/bot/EXO-47"), "agent-bot-EXO-47");
}

#[test]
fn worktree_goes_next_to_repo_by_default() {
    let parent = worktree_parent(None, Some("/outer".to_string()));
    assert_eq!(parent, "/outer");
    assert_eq!(worktree_dest(&parent, Some("myrepo"), "feature-sibling"), "/outer/myrepo-feature-sibling");
    assert_eq!(worktree_parent(Some("/x".to_string()), Some("/outer".to_string())), "/x");
    assert_eq!(worktree_parent(None, None), ".");
    assert_eq!(worktree_dest(".", None, "a/b"), "./repo-a-b");
}

#[test]
fn git_command_lines() {
    assert_eq!(worktree_add_args("/r", "/d", "b", true, Some("main")), vec!["-C", "/r", "worktree", "add", "/d", "b"]);
    assert_eq!(worktree_add_args("/r", "/d", "b", false, Some("main")), vec!["-C", "/r", "worktree", "add", "-b", "b", "/d", "main"]);
    assert_eq!(worktree_remove_args("/r", "/d", true), vec!["-C", "/r", "worktree", "remove", "--force", "/d"]);
    assert_eq!(branch_delete_args("/r", "b", false), vec!["-C", "/r", "branch", "-d", "b"]);
    assert_eq!(branch_exists_args("/r", "b"), vec!["-C", "/r", "show-ref", "--verify", "--quiet", "refs/heads/b"]);
}

#[test]
fn worktrees_need_a_repository_and_a_free_destination() {
    assert!(check_repository("/r/app", true).is_ok());
    assert_eq!(check_repository("/r/app", false).unwrap_err().message(), "/r/app is not a git repository (no .git)");
    assert!(check_destination("/r/app-x", false).is_ok());
    assert_eq!(
        check_destination("/r/app-x", true).unwrap_err().message(),
        "/r/app-x already exists — remove it first or pick a different branch name"
    );
}
