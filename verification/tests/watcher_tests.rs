use gstat::watcher::is_relevant;

#[test]
fn filter_git_objects() {
    let root = "/repo";
    assert!(!is_relevant("/repo/.git/objects/pack/something", root));
    assert!(!is_relevant("/repo/.git/logs/HEAD", root));
}

#[test]
fn filter_git_noise() {
    let root = "/repo";
    assert!(is_relevant("/repo/.git/COMMIT_EDITMSG", root));
    assert!(is_relevant("/repo/.git/index.lock", root));
    assert!(is_relevant("/repo/.git/config", root));
}

#[test]
fn allow_git_state_files() {
    let root = "/repo";
    assert!(is_relevant("/repo/.git/index", root));
    assert!(is_relevant("/repo/.git/HEAD", root));
    assert!(is_relevant("/repo/.git/refs/heads/main", root));
    assert!(is_relevant("/repo/.git/MERGE_HEAD", root));
    assert!(is_relevant("/repo/.git/rebase-merge/done", root));
}

#[test]
fn allow_worktree_files() {
    let root = "/repo";
    assert!(is_relevant("/repo/src/main.rs", root));
    assert!(is_relevant("/repo/Cargo.toml", root));
}

#[test]
fn filter_object_store_deep_path() {
    let root = "/repo";
    assert!(!is_relevant("/repo/.git/objects/ab/cdef0123456789", root));
    assert!(is_relevant("/repo/.git/HEAD", root));
    assert!(is_relevant("/repo/src/anyfile", root));
}

#[test]
fn paths_outside_root_are_relevant() {
    let root = "/repo";
    assert!(is_relevant("/repo", root));
    assert!(is_relevant("/elsewhere/file", root));
    assert!(is_relevant("/repofoo/file", root));
    assert!(is_relevant("/repo/.git", root));
}
