//! The snapshot value type and its mathematical view.

use vstd::prelude::*;

verus! {

/// Which multi-step repository operation is currently in progress.
#[derive(Debug, Clone, Copy, PartialEq, Eq, Structural)]
pub enum OperationState {
    Clean,
    Merge,
    Rebase,
    CherryPick,
    Bisect,
    Revert,
}

/// Label used when rendering a snapshot for display; the quiescent state
/// renders as the empty string.
pub open spec fn spec_state_label(s: OperationState) -> Seq<char> {
    match s {
        OperationState::Clean => ""@,
        OperationState::Merge => "merge"@,
        OperationState::Rebase => "rebase"@,
        OperationState::CherryPick => "cherry-pick"@,
        OperationState::Bisect => "bisect"@,
        OperationState::Revert => "revert"@,
    }
}

/// Canonical name of each state; every state has a distinct, non-empty name.
pub open spec fn spec_state_name(s: OperationState) -> Seq<char> {
    match s {
        OperationState::Clean => "clean"@,
        OperationState::Merge => "merge"@,
        OperationState::Rebase => "rebase"@,
        OperationState::CherryPick => "cherry_pick"@,
        OperationState::Bisect => "bisect"@,
        OperationState::Revert => "revert"@,
    }
}

impl OperationState {
    /// Display label: empty for `Clean`, a short word otherwise.
    pub fn label(&self) -> (r: &'static str)
        ensures
            r@ == spec_state_label(*self),
    {
        match self {
            OperationState::Clean => "",
            OperationState::Merge => "merge",
            OperationState::Rebase => "rebase",
            OperationState::CherryPick => "cherry-pick",
            OperationState::Bisect => "bisect",
            OperationState::Revert => "revert",
        }
    }

    /// Canonical name, used by the snapshot codec and the JSON rendering.
    pub fn name(&self) -> (r: &'static str)
        ensures
            r@ == spec_state_name(*self),
    {
        match self {
            OperationState::Clean => "clean",
            OperationState::Merge => "merge",
            OperationState::Rebase => "rebase",
            OperationState::CherryPick => "cherry_pick",
            OperationState::Bisect => "bisect",
            OperationState::Revert => "revert",
        }
    }
}

/// An immutable summary of the working state of a repository.
/// A fresh one is built on every recomputation; two snapshots are compared
/// by full structural equality when deciding whether to emit.
#[derive(Debug, Clone)]
pub struct GitStatus {
    pub branch: String,
    pub staged: u32,
    pub modified: u32,
    pub untracked: u32,
    pub conflicted: u32,
    pub ahead: u32,
    pub behind: u32,
    pub stash: u32,
    pub state: OperationState,
}

/// The mathematical value of a snapshot: the branch as a character
/// sequence and the plain counters.
#[verifier::ext_equal]
pub ghost struct StatusView {
    pub branch: Seq<char>,
    pub staged: u32,
    pub modified: u32,
    pub untracked: u32,
    pub conflicted: u32,
    pub ahead: u32,
    pub behind: u32,
    pub stash: u32,
    pub state: OperationState,
}

impl View for GitStatus {
    type V = StatusView;

    open spec fn view(&self) -> StatusView {
        StatusView {
            branch: self.branch@,
            staged: self.staged,
            modified: self.modified,
            untracked: self.untracked,
            conflicted: self.conflicted,
            ahead: self.ahead,
            behind: self.behind,
            stash: self.stash,
            state: self.state,
        }
    }
}

impl PartialEq for GitStatus {
    fn eq(&self, other: &Self) -> (r: bool) {
        let r = self.branch == other.branch && self.staged == other.staged
            && self.modified == other.modified && self.untracked == other.untracked
            && self.conflicted == other.conflicted && self.ahead == other.ahead
            && self.behind == other.behind && self.stash == other.stash
            && self.state == other.state;
        proof {
            if r {
                assert(self@ =~= other@);
            }
        }
        r
    }
}

impl vstd::std_specs::cmp::PartialEqSpecImpl for GitStatus {
    open spec fn obeys_eq_spec() -> bool {
        true
    }

    open spec fn eq_spec(&self, other: &GitStatus) -> bool {
        self@ == other@
    }
}

} // verus!
