use gstat::status::{
    compute_status, detect_operation_state, parse_porcelain_v2, resolve_git_dirs, stash_count,
    OpMarkers,
};
use gstat::types::OperationState;

#[test]
fn parse_clean_repo() {
    let output = "\
# branch.oid abc1234567890
# branch.head main
# branch.upstream origin/main
# branch.ab +0 -0
";
    let (branch, ahead, behind, staged, modified, untracked, conflicted) =
        parse_porcelain_v2(output);
    assert_eq!(branch, "main");
    assert_eq!(ahead, 0);
    assert_eq!(behind, 0);
    assert_eq!(staged, 0);
    assert_eq!(modified, 0);
    assert_eq!(untracked, 0);
    assert_eq!(conflicted, 0);
}

#[test]
fn parse_mixed_changes() {
    let output = "\
# branch.oid abc1234567890
# branch.head feature/test
# branch.upstream origin/feature/test
# branch.ab +3 -1
1 M. N... 100644 100644 100644 abc123 def456 src/main.rs
1 .M N... 100644 100644 100644 abc123 def456 src/lib.rs
1 MM N... 100644 100644 100644 abc123 def456 src/both.rs
? new-file.txt
? another-new.txt
u UU N... 100755 100755 100755 100755 abc123 def456 ghi789 conflict.rs
";
    let (branch, ahead, behind, staged, modified, untracked, conflicted) =
        parse_porcelain_v2(output);
    assert_eq!(branch, "feature/test");
    assert_eq!(ahead, 3);
    assert_eq!(behind, 1);
    assert_eq!(staged, 2); // M. and MM
    assert_eq!(modified, 2); // .M and MM
    assert_eq!(untracked, 2);
    assert_eq!(conflicted, 1);
}

#[test]
fn parse_detached_head() {
    let output = "\
# branch.oid abc1234567890def
# branch.head (detached)
";
    let (branch, _, _, _, _, _, _) = parse_porcelain_v2(output);
    assert_eq!(branch, "abc1234");
}

#[test]
fn parse_renamed_file() {
    let output = "\
# branch.oid abc1234567890
# branch.head main
2 R. N... 100644 100644 100644 abc123 def456 R100 new.rs\told.rs
";
    let (_, _, _, staged, modified, _, _) = parse_porcelain_v2(output);
    assert_eq!(staged, 1);
    assert_eq!(modified, 0);
}

#[test]
fn parse_detached_short_oid() {
    let output = "\
# branch.oid ab12
# branch.head (detached)
";
    let (branch, _, _, _, _, _, _) = parse_porcelain_v2(output);
    assert_eq!(branch, "ab12");
}

#[test]
fn parse_detached_without_oid() {
    let output = "# branch.head (detached)\n";
    let (branch, _, _, _, _, _, _) = parse_porcelain_v2(output);
    assert_eq!(branch, "HEAD");
}

#[test]
fn parse_empty_listing() {
    let (branch, ahead, behind, staged, modified, untracked, conflicted) = parse_porcelain_v2("");
    assert_eq!(branch, "");
    assert_eq!(ahead, 0);
    assert_eq!(behind, 0);
    assert_eq!(staged, 0);
    assert_eq!(modified, 0);
    assert_eq!(untracked, 0);
    assert_eq!(conflicted, 0);
}

#[test]
fn parse_ab_unreadable_numbers() {
    let output = "# branch.ab +x -9999999999999\n";
    let (_, ahead, behind, _, _, _, _) = parse_porcelain_v2(output);
    assert_eq!(ahead, 0);
    assert_eq!(behind, 0);
}

fn no_markers() -> OpMarkers {
    OpMarkers {
        merge_head: false,
        rebase_merge: false,
        rebase_apply: false,
        cherry_pick_head: false,
        bisect_log: false,
        revert_head: false,
    }
}

#[test]
fn detect_marker_priority() {
    let mut m = no_markers();
    assert_eq!(detect_operation_state(&m), OperationState::Clean);
    m.revert_head = true;
    assert_eq!(detect_operation_state(&m), OperationState::Revert);
    m.bisect_log = true;
    assert_eq!(detect_operation_state(&m), OperationState::Bisect);
    m.cherry_pick_head = true;
    assert_eq!(detect_operation_state(&m), OperationState::CherryPick);
    m.rebase_apply = true;
    assert_eq!(detect_operation_state(&m), OperationState::Rebase);
    m.rebase_merge = true;
    assert_eq!(detect_operation_state(&m), OperationState::Rebase);
    m.merge_head = true;
    assert_eq!(detect_operation_state(&m), OperationState::Merge);
}

#[test]
fn stash_counts_log_lines() {
    assert_eq!(stash_count(None), 0);
    assert_eq!(stash_count(Some(b"".as_slice())), 0);
    assert_eq!(stash_count(Some(b"one entry\n".as_slice())), 1);
    assert_eq!(stash_count(Some(b"a\nb\n".as_slice())), 2);
    assert_eq!(stash_count(Some(b"unterminated".as_slice())), 0);
}

#[test]
fn compute_status_combines_sources() {
    let porcelain = "\
# branch.oid abc1234567890
# branch.head main
# branch.ab +2 -0
? new.txt
";
    let mut m = no_markers();
    m.merge_head = true;
    let s = compute_status(porcelain, Some(b"s1\ns2\n".as_slice()), &m);
    assert_eq!(s.branch, "main");
    assert_eq!(s.ahead, 2);
    assert_eq!(s.behind, 0);
    assert_eq!(s.untracked, 1);
    assert_eq!(s.stash, 2);
    assert_eq!(s.state, OperationState::Merge);
}

#[test]
fn resolve_plain_repository() {
    let (git_dir, common_dir) = resolve_git_dirs("/repo", None, None);
    assert_eq!(git_dir, "/repo/.git");
    assert_eq!(common_dir, "/repo/.git");
}

#[test]
fn resolve_worktree_pointer() {
    let (git_dir, common_dir) = resolve_git_dirs(
        "/wt",
        Some("gitdir: /main/.git/worktrees/wt\n"),
        Some("../..\n"),
    );
    assert_eq!(git_dir, "/main/.git/worktrees/wt");
    assert_eq!(common_dir, "/main/.git/worktrees/wt/../..");
}

#[test]
fn resolve_worktree_relative_pointer() {
    let (git_dir, common_dir) = resolve_git_dirs("/wt", Some("gitdir: sub/dir"), None);
    assert_eq!(git_dir, "/wt/sub/dir");
    assert_eq!(common_dir, "/wt/sub/dir");
}

#[test]
fn resolve_pointer_without_prefix() {
    let (git_dir, common_dir) = resolve_git_dirs("/repo", Some("something else"), None);
    assert_eq!(git_dir, "/repo/.git");
    assert_eq!(common_dir, "/repo/.git");
}

#[test]
fn resolve_absolute_commondir() {
    let (git_dir, common_dir) = resolve_git_dirs(
        "/wt",
        Some("gitdir: /main/.git/worktrees/wt"),
        Some("/main/.git\n"),
    );
    assert_eq!(git_dir, "/main/.git/worktrees/wt");
    assert_eq!(common_dir, "/main/.git");
}
