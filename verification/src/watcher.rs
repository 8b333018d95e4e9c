//! Relevance filtering of filesystem notifications.
//!
//! A watcher delivers debounced batches of changed paths; a batch matters
//! only if at least one path passes the relevance predicate below.  Paths
//! are modeled as `/`-separated character sequences.

use vstd::prelude::*;

use crate::chars::{find_from, first_idx, lemma_first_idx, seg_eq, to_chars, vec_eq_str};

verus! {

/// An event delivered by a watcher: a debounced batch held at least one
/// relevant path, or the notification subsystem reported a failure.
pub enum WatchEvent {
    Changed,
    Error(String),
}

/// The path of `p` relative to `root`: empty when they are equal, the
/// remainder after the separator when `root/` is a proper prefix, absent
/// otherwise.
pub open spec fn spec_rel_path(p: Seq<char>, root: Seq<char>) -> Option<Seq<char>> {
    if p == root {
        Some(Seq::<char>::empty())
    } else if p.len() > root.len() && p.take(root.len() as int) == root && p[root.len() as int]
        == '/' {
        Some(p.subrange((root.len() + 1) as int, p.len() as int))
    } else {
        None
    }
}

/// First path component: everything before the first separator.
pub open spec fn spec_first_component(s: Seq<char>) -> Seq<char> {
    s.take(first_idx(s, '/') as int)
}

/// Entries of the control directory that hold the bulk object store and
/// the reflogs.  Writes under them are high-volume noise that never
/// changes the reported snapshot.
pub open spec fn is_bulk_store_entry(s: Seq<char>) -> bool {
    s == "objects"@ || s == "logs"@
}

/// The relevance predicate.  A path is irrelevant exactly when it lies
/// under the control directory's bulk object store or reflog directories;
/// the control files that signal index, ref or operation-state changes
/// and all ordinary working-tree paths are relevant, as is every path
/// outside the root (the watcher may report the root itself or unrelated
/// locations).
pub open spec fn spec_is_relevant(p: Seq<char>, root: Seq<char>) -> bool {
    match spec_rel_path(p, root) {
        None => true,
        Some(rel) => {
            if rel.len() == 0 {
                true
            } else {
                let c1 = spec_first_component(rel);
                if c1 != ".git"@ {
                    true
                } else if c1.len() == rel.len() {
                    true
                } else {
                    let rest = rel.subrange((c1.len() + 1) as int, rel.len() as int);
                    !is_bulk_store_entry(spec_first_component(rest))
                }
            }
        },
    }
}

/// Decides whether a changed path should trigger recomputation.
pub fn is_relevant(path: &str, repo_root: &str) -> (r: bool)
    ensures
        r == spec_is_relevant(path@, repo_root@),
{
    let p = to_chars(path);
    if vec_eq_str(&p, repo_root) {
        return true;
    }
    let rootlen = repo_root.unicode_len();
    if p.len() <= rootlen {
        return true;
    }
    if !seg_eq(&p, 0, rootlen, repo_root) {
        return true;
    }
    if p[rootlen] != '/' {
        return true;
    }
    let rel_start = rootlen + 1;
    let ghost rel = path@.subrange(rel_start as int, path@.len() as int);
    if rel_start == p.len() {
        return true;
    }
    let slash = find_from(&p, rel_start, '/');
    proof {
        lemma_first_idx(rel, '/');
        assert(rel.take(first_idx(rel, '/') as int) =~= path@.subrange(
            rel_start as int,
            slash as int,
        ));
    }
    if !seg_eq(&p, rel_start, slash, ".git") {
        return true;
    }
    if slash == p.len() {
        assert(spec_first_component(rel).len() == rel.len());
        return true;
    }
    let ghost rest = rel.subrange((spec_first_component(rel).len() + 1) as int, rel.len() as int);
    proof {
        assert(rest =~= path@.subrange(slash + 1, path@.len() as int));
    }
    let start2 = slash + 1;
    let slash2 = find_from(&p, start2, '/');
    proof {
        lemma_first_idx(rest, '/');
        assert(rest.take(first_idx(rest, '/') as int) =~= path@.subrange(
            start2 as int,
            slash2 as int,
        ));
    }
    if seg_eq(&p, start2, slash2, "objects") {
        false
    } else if seg_eq(&p, start2, slash2, "logs") {
        false
    } else {
        true
    }
}

} // verus!
