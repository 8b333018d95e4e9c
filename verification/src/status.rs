//! Interpreting the status provider's raw material: the porcelain listing,
//! the stash log, and the operation marker files.  All inputs arrive as
//! plain values; the caller performs the reads.

use vstd::prelude::*;

use crate::chars::{
    copy_range, chars_to_string, has_prefix, spec_trim, split_char, split_vec, tail_from,
    to_chars, trim_chars, vec_eq_str,
};
use crate::digits::{parse_or_zero_chars, spec_parse_or_zero};
use crate::types::{GitStatus, OperationState};

verus! {

/// Running totals while scanning the porcelain listing.
#[verifier::ext_equal]
pub ghost struct PorcelainAcc {
    pub branch: Seq<char>,
    pub oid: Seq<char>,
    pub ahead: u32,
    pub behind: u32,
    pub staged: u32,
    pub modified: u32,
    pub untracked: u32,
    pub conflicted: u32,
}

pub open spec fn acc_init() -> PorcelainAcc {
    PorcelainAcc {
        branch: Seq::<char>::empty(),
        oid: Seq::<char>::empty(),
        ahead: 0,
        behind: 0,
        staged: 0,
        modified: 0,
        untracked: 0,
        conflicted: 0,
    }
}

/// Counters saturate rather than wrap.
pub open spec fn sat_inc(x: u32) -> u32 {
    if x == u32::MAX {
        x
    } else {
        (x + 1) as u32
    }
}

/// A line with a trailing carriage return dropped.
pub open spec fn strip_cr(line: Seq<char>) -> Seq<char> {
    if line.len() > 0 && line.last() == '\r' {
        line.drop_last()
    } else {
        line
    }
}

/// The lines of a listing: pieces between newlines, with no empty piece
/// after a trailing newline, and any trailing carriage return removed.
pub open spec fn spec_lines(s: Seq<char>) -> Seq<Seq<char>> {
    let parts = split_char(s, '\n');
    let kept = if parts.last().len() == 0 {
        parts.drop_last()
    } else {
        parts
    };
    kept.map_values(|l: Seq<char>| strip_cr(l))
}

/// One ahead/behind token: `+N` sets ahead, `-N` sets behind.
pub open spec fn spec_ab_step(a: PorcelainAcc, t: Seq<char>) -> PorcelainAcc {
    if t.len() > 0 && t[0] == '+' {
        PorcelainAcc { ahead: spec_parse_or_zero(t.skip(1)), ..a }
    } else if t.len() > 0 && t[0] == '-' {
        PorcelainAcc { behind: spec_parse_or_zero(t.skip(1)), ..a }
    } else {
        a
    }
}

pub open spec fn spec_fold_ab(a: PorcelainAcc, ts: Seq<Seq<char>>) -> PorcelainAcc
    decreases ts.len(),
{
    if ts.len() == 0 {
        a
    } else {
        spec_fold_ab(spec_ab_step(a, ts[0]), ts.drop_first())
    }
}

/// The `# branch.ab` payload, split on spaces.
pub open spec fn spec_parse_ab(a: PorcelainAcc, rest: Seq<char>) -> PorcelainAcc {
    spec_fold_ab(a, split_char(rest, ' '))
}

/// Classification of one porcelain line.
pub open spec fn spec_line_step(a: PorcelainAcc, line: Seq<char>) -> PorcelainAcc {
    if line.len() < 2 {
        a
    } else if line[0] == '#' {
        if "# branch.head "@.is_prefix_of(line) {
            PorcelainAcc { branch: line.skip("# branch.head "@.len() as int), ..a }
        } else if "# branch.ab "@.is_prefix_of(line) {
            spec_parse_ab(a, line.skip("# branch.ab "@.len() as int))
        } else if "# branch.oid "@.is_prefix_of(line) {
            PorcelainAcc { oid: line.skip("# branch.oid "@.len() as int), ..a }
        } else {
            a
        }
    } else if line[0] == 'u' {
        PorcelainAcc { conflicted: sat_inc(a.conflicted), ..a }
    } else if (line[0] == '1' || line[0] == '2') && line.len() >= 4 && line[1] == ' ' {
        let a1 = if line[2] != '.' {
            PorcelainAcc { staged: sat_inc(a.staged), ..a }
        } else {
            a
        };
        if line[3] != '.' {
            PorcelainAcc { modified: sat_inc(a1.modified), ..a1 }
        } else {
            a1
        }
    } else if line[0] == '?' {
        PorcelainAcc { untracked: sat_inc(a.untracked), ..a }
    } else {
        a
    }
}

pub open spec fn spec_fold_lines(a: PorcelainAcc, ls: Seq<Seq<char>>) -> PorcelainAcc
    decreases ls.len(),
{
    if ls.len() == 0 {
        a
    } else {
        spec_fold_lines(spec_line_step(a, ls[0]), ls.drop_first())
    }
}

/// A detached head is reported as the first seven characters of the
/// commit id, the whole id when shorter, or a fixed fallback.
pub open spec fn spec_final_branch(a: PorcelainAcc) -> Seq<char> {
    if a.branch == "(detached)"@ {
        if a.oid.len() >= 7 {
            a.oid.take(7)
        } else if a.oid.len() > 0 {
            a.oid
        } else {
            "HEAD"@
        }
    } else {
        a.branch
    }
}

/// The complete interpretation of a porcelain listing.
pub open spec fn spec_parse_porcelain(s: Seq<char>) -> PorcelainAcc {
    let a = spec_fold_lines(acc_init(), spec_lines(s));
    PorcelainAcc { branch: spec_final_branch(a), ..a }
}

/// Exec accumulator mirroring `PorcelainAcc`.
struct Acc {
    branch: Vec<char>,
    oid: Vec<char>,
    ahead: u32,
    behind: u32,
    staged: u32,
    modified: u32,
    untracked: u32,
    conflicted: u32,
}

impl View for Acc {
    type V = PorcelainAcc;

    closed spec fn view(&self) -> PorcelainAcc {
        PorcelainAcc {
            branch: self.branch@,
            oid: self.oid@,
            ahead: self.ahead,
            behind: self.behind,
            staged: self.staged,
            modified: self.modified,
            untracked: self.untracked,
            conflicted: self.conflicted,
        }
    }
}

fn sat_inc_exec(x: u32) -> (r: u32)
    ensures
        r == sat_inc(x),
{
    if x == u32::MAX {
        x
    } else {
        x + 1
    }
}

/// Splits a listing into its lines.
fn split_lines(v: &Vec<char>) -> (lines: Vec<Vec<char>>)
    ensures
        lines@.map_values(|l: Vec<char>| l@) == spec_lines(v@),
{
    let mut parts = split_vec(v, '\n');
    let ghost sparts = split_char(v@, '\n');
    proof {
        assert forall|i: int| 0 <= i < parts@.len() implies parts@[i]@ == sparts[i] by {
            assert(parts@.map_values(|p: Vec<char>| p@)[i] == parts@[i]@);
        }
    }
    if parts[parts.len() - 1].len() == 0 {
        let _ = parts.pop();
    }
    let ghost kept = if sparts.last().len() == 0 {
        sparts.drop_last()
    } else {
        sparts
    };
    proof {
        assert forall|i: int| 0 <= i < parts@.len() implies parts@[i]@ == kept[i] by {}
        assert(parts@.len() == kept.len());
    }
    let mut out: Vec<Vec<char>> = Vec::new();
    let mut i: usize = 0;
    while i < parts.len()
        invariant
            i <= parts@.len(),
            parts@.len() == kept.len(),
            forall|j: int| 0 <= j < parts@.len() ==> parts@[j]@ == kept[j],
            out@.len() == i,
            forall|j: int| 0 <= j < i ==> out@[j]@ == strip_cr(kept[j]),
        decreases parts@.len() - i,
    {
        let line = &parts[i];
        let n = line.len();
        let stripped = if n > 0 && line[n - 1] == '\r' {
            copy_range(line, 0, n - 1)
        } else {
            copy_range(line, 0, n)
        };
        proof {
            if n > 0 && line@[n - 1] == '\r' {
                assert(line@.subrange(0, n - 1) =~= strip_cr(kept[i as int]));
            } else {
                assert(line@.subrange(0, n as int) =~= strip_cr(kept[i as int]));
            }
        }
        out.push(stripped);
        i = i + 1;
    }
    proof {
        assert(out@.map_values(|l: Vec<char>| l@) =~= spec_lines(v@));
    }
    out
}

/// Applies the ahead/behind payload to the accumulator.
fn apply_ab(a: &mut Acc, rest: &Vec<char>)
    ensures
        final(a)@ == spec_parse_ab(old(a)@, rest@),
{
    let tokens = split_vec(rest, ' ');
    let ghost stokens = split_char(rest@, ' ');
    proof {
        assert forall|i: int| 0 <= i < tokens@.len() implies tokens@[i]@ == stokens[i] by {
            assert(tokens@.map_values(|p: Vec<char>| p@)[i] == tokens@[i]@);
        }
    }
    let mut i: usize = 0;
    proof {
        assert(stokens.skip(0) =~= stokens);
    }
    while i < tokens.len()
        invariant
            i <= tokens@.len(),
            tokens@.len() == stokens.len(),
            forall|j: int| 0 <= j < tokens@.len() ==> tokens@[j]@ == stokens[j],
            spec_fold_ab(a@, stokens.skip(i as int)) == spec_fold_ab(old(a)@, stokens),
        decreases tokens@.len() - i,
    {
        let ghost remaining = stokens.skip(i as int);
        let ghost prev = a@;
        proof {
            assert(remaining[0] == stokens[i as int]);
            assert(remaining.drop_first() =~= stokens.skip(i + 1));
        }
        let t = &tokens[i];
        if t.len() > 0 {
            let c0 = t[0];
            if c0 == '+' {
                let digits = tail_from(t, 1);
                proof {
                    assert(digits@ =~= stokens[i as int].skip(1));
                }
                a.ahead = parse_or_zero_chars(&digits);
            } else if c0 == '-' {
                let digits = tail_from(t, 1);
                proof {
                    assert(digits@ =~= stokens[i as int].skip(1));
                }
                a.behind = parse_or_zero_chars(&digits);
            }
        }
        proof {
            assert(a@ =~= spec_ab_step(prev, stokens[i as int]));
        }
        i = i + 1;
    }
    proof {
        assert(stokens.skip(stokens.len() as int) =~= Seq::<Seq<char>>::empty());
    }
}

/// Applies one porcelain line to the accumulator.
fn step_line(a: &mut Acc, line: &Vec<char>)
    ensures
        final(a)@ == spec_line_step(old(a)@, line@),
{
    if line.len() < 2 {
        return;
    }
    let c0 = line[0];
    if c0 == '#' {
        if has_prefix(line, "# branch.head ") {
            let n = "# branch.head ".unicode_len();
            let rest = tail_from(line, n);
            proof {
                assert(rest@ =~= line@.skip("# branch.head "@.len() as int));
            }
            a.branch = rest;
        } else if has_prefix(line, "# branch.ab ") {
            let n = "# branch.ab ".unicode_len();
            let rest = tail_from(line, n);
            proof {
                assert(rest@ =~= line@.skip("# branch.ab "@.len() as int));
            }
            apply_ab(a, &rest);
        } else if has_prefix(line, "# branch.oid ") {
            let n = "# branch.oid ".unicode_len();
            let rest = tail_from(line, n);
            proof {
                assert(rest@ =~= line@.skip("# branch.oid "@.len() as int));
            }
            a.oid = rest;
        }
    } else if c0 == 'u' {
        a.conflicted = sat_inc_exec(a.conflicted);
    } else if (c0 == '1' || c0 == '2') && line.len() >= 4 && line[1] == ' ' {
        if line[2] != '.' {
            a.staged = sat_inc_exec(a.staged);
        }
        if line[3] != '.' {
            a.modified = sat_inc_exec(a.modified);
        }
    } else if c0 == '?' {
        a.untracked = sat_inc_exec(a.untracked);
    }
}

/// Interprets the porcelain listing: branch, ahead, behind, staged,
/// modified, untracked, conflicted.
pub fn parse_porcelain_v2(output: &str) -> (r: (String, u32, u32, u32, u32, u32, u32))
    ensures
        ({
            let a = spec_parse_porcelain(output@);
            r.0@ == a.branch && r.1 == a.ahead && r.2 == a.behind && r.3 == a.staged && r.4
                == a.modified && r.5 == a.untracked && r.6 == a.conflicted
        }),
{
    let v = to_chars(output);
    let lines = split_lines(&v);
    let ghost slines = spec_lines(output@);
    proof {
        assert forall|i: int| 0 <= i < lines@.len() implies lines@[i]@ == slines[i] by {
            assert(lines@.map_values(|l: Vec<char>| l@)[i] == lines@[i]@);
        }
    }
    let mut a = Acc {
        branch: Vec::new(),
        oid: Vec::new(),
        ahead: 0,
        behind: 0,
        staged: 0,
        modified: 0,
        untracked: 0,
        conflicted: 0,
    };
    proof {
        assert(a@ =~= acc_init());
        assert(slines.skip(0) =~= slines);
    }
    let mut i: usize = 0;
    while i < lines.len()
        invariant
            i <= lines@.len(),
            lines@.len() == slines.len(),
            forall|j: int| 0 <= j < lines@.len() ==> lines@[j]@ == slines[j],
            spec_fold_lines(a@, slines.skip(i as int)) == spec_fold_lines(acc_init(), slines),
        decreases lines@.len() - i,
    {
        let ghost remaining = slines.skip(i as int);
        proof {
            assert(remaining[0] == slines[i as int]);
            assert(remaining.drop_first() =~= slines.skip(i + 1));
        }
        step_line(&mut a, &lines[i]);
        i = i + 1;
    }
    proof {
        assert(slines.skip(slines.len() as int) =~= Seq::<Seq<char>>::empty());
        assert(a@ == spec_fold_lines(acc_init(), slines));
    }
    let branch = if vec_eq_str(&a.branch, "(detached)") {
        if a.oid.len() >= 7 {
            let short = copy_range(&a.oid, 0, 7);
            proof {
                assert(short@ =~= a@.oid.take(7));
            }
            short
        } else if a.oid.len() > 0 {
            a.oid
        } else {
            to_chars("HEAD")
        }
    } else {
        a.branch
    };
    let branch_s = chars_to_string(&branch);
    (branch_s, a.ahead, a.behind, a.staged, a.modified, a.untracked, a.conflicted)
}

/// Which operation marker files exist inside the control directory.
#[derive(Debug, Clone, Copy, PartialEq, Eq, Structural)]
pub struct OpMarkers {
    pub merge_head: bool,
    pub rebase_merge: bool,
    pub rebase_apply: bool,
    pub cherry_pick_head: bool,
    pub bisect_log: bool,
    pub revert_head: bool,
}

/// Marker priority: merge, then either rebase form, then cherry-pick,
/// bisect, revert; otherwise the repository is quiescent.
pub open spec fn spec_detect(m: OpMarkers) -> OperationState {
    if m.merge_head {
        OperationState::Merge
    } else if m.rebase_merge || m.rebase_apply {
        OperationState::Rebase
    } else if m.cherry_pick_head {
        OperationState::CherryPick
    } else if m.bisect_log {
        OperationState::Bisect
    } else if m.revert_head {
        OperationState::Revert
    } else {
        OperationState::Clean
    }
}

pub fn detect_operation_state(m: &OpMarkers) -> (r: OperationState)
    ensures
        r == spec_detect(*m),
{
    if m.merge_head {
        OperationState::Merge
    } else if m.rebase_merge || m.rebase_apply {
        OperationState::Rebase
    } else if m.cherry_pick_head {
        OperationState::CherryPick
    } else if m.bisect_log {
        OperationState::Bisect
    } else if m.revert_head {
        OperationState::Revert
    } else {
        OperationState::Clean
    }
}

/// Newlines in the stash log; one stash entry per line.
pub open spec fn count_newlines(b: Seq<u8>) -> nat
    decreases b.len(),
{
    if b.len() == 0 {
        0
    } else {
        (if b[0] == 10 {
            1nat
        } else {
            0nat
        }) + count_newlines(b.drop_first())
    }
}

/// The reported stash depth: one per log line, saturating at the counter
/// width.
pub open spec fn spec_stash_depth(log: Seq<u8>) -> u32 {
    if count_newlines(log) > u32::MAX {
        u32::MAX
    } else {
        count_newlines(log) as u32
    }
}

/// Counts stash entries; an absent log means no stashes.
pub fn stash_count(log: Option<&[u8]>) -> (r: u32)
    ensures
        log matches Some(b) ==> r == spec_stash_depth(b@),
        log is None ==> r == 0,
{
    match log {
        None => 0,
        Some(b) => {
            let mut cnt: usize = 0;
            let mut i: usize = 0;
            proof {
                assert(b@.skip(0) =~= b@);
            }
            while i < b.len()
                invariant
                    i <= b@.len(),
                    cnt <= i,
                    cnt + count_newlines(b@.skip(i as int)) == count_newlines(b@),
                decreases b@.len() - i,
            {
                let ghost remaining = b@.skip(i as int);
                proof {
                    assert(remaining[0] == b@[i as int]);
                    assert(remaining.drop_first() =~= b@.skip(i + 1));
                }
                if b[i] == 10 {
                    cnt = cnt + 1;
                }
                i = i + 1;
            }
            proof {
                assert(b@.skip(b@.len() as int) =~= Seq::<u8>::empty());
                assert(cnt == count_newlines(b@));
            }
            if cnt > u32::MAX as usize {
                u32::MAX
            } else {
                cnt as u32
            }
        },
    }
}

/// Builds the snapshot from the provider's raw material.
pub fn compute_status(porcelain: &str, stash_log: Option<&[u8]>, markers: &OpMarkers) -> (r:
    GitStatus)
    ensures
        ({
            let a = spec_parse_porcelain(porcelain@);
            r@.branch == a.branch && r@.staged == a.staged && r@.modified == a.modified
                && r@.untracked == a.untracked && r@.conflicted == a.conflicted && r@.ahead
                == a.ahead && r@.behind == a.behind
        }),
        stash_log matches Some(b) ==> r@.stash == spec_stash_depth(b@),
        stash_log is None ==> r@.stash == 0,
        r@.state == spec_detect(*markers),
{
    let (branch, ahead, behind, staged, modified, untracked, conflicted) = parse_porcelain_v2(
        porcelain,
    );
    let stash = stash_count(stash_log);
    let state = detect_operation_state(markers);
    GitStatus { branch, staged, modified, untracked, conflicted, ahead, behind, stash, state }
}

/// `base/rel` with no duplicated separator.
pub open spec fn spec_join(base: Seq<char>, rel: Seq<char>) -> Seq<char> {
    if base.len() > 0 && base.last() == '/' {
        base + rel
    } else {
        base + seq!['/'] + rel
    }
}

/// A `.git` entry that is a worktree pointer file rather than a directory.
pub open spec fn spec_is_worktree_ptr(dot_git: Option<Seq<char>>) -> bool {
    dot_git matches Some(c) && "gitdir: "@.is_prefix_of(c)
}

/// The control directory: `root/.git` for an ordinary repository; for a
/// worktree, the directory named by the pointer file, resolved against the
/// root when relative.
pub open spec fn spec_git_dir(root: Seq<char>, dot_git: Option<Seq<char>>) -> Seq<char> {
    if spec_is_worktree_ptr(dot_git) {
        let dir = spec_trim((dot_git->0).skip("gitdir: "@.len() as int));
        if dir.len() > 0 && dir[0] == '/' {
            dir
        } else {
            spec_join(root, dir)
        }
    } else {
        spec_join(root, ".git"@)
    }
}

/// The directory shared by all worktrees: the `commondir` pointer resolved
/// against the control directory when there is one, else the control
/// directory itself.
pub open spec fn spec_common_dir(
    root: Seq<char>,
    dot_git: Option<Seq<char>>,
    commondir: Option<Seq<char>>,
) -> Seq<char> {
    let gd = spec_git_dir(root, dot_git);
    if spec_is_worktree_ptr(dot_git) && commondir is Some {
        let c = spec_trim(commondir->0);
        if c.len() > 0 && c[0] == '/' {
            c
        } else {
            spec_join(gd, c)
        }
    } else {
        gd
    }
}

fn join_path(base: &Vec<char>, rel: &Vec<char>) -> (r: Vec<char>)
    ensures
        r@ == spec_join(base@, rel@),
{
    let mut out = copy_range(base, 0, base.len());
    proof {
        assert(out@ =~= base@);
    }
    if out.len() > 0 && out[out.len() - 1] == '/' {
    } else {
        out.push('/');
    }
    crate::chars::append_vec(&mut out, rel);
    proof {
        assert(out@ =~= spec_join(base@, rel@));
    }
    out
}

/// Resolves the worktree-aware control directory and common directory
/// from the repository root, the content of a `.git` pointer file (when
/// `.git` is a file and readable) and the content of its `commondir`
/// entry (when readable).
pub fn resolve_git_dirs(repo_root: &str, dot_git: Option<&str>, commondir: Option<&str>) -> (r: (
    String,
    String,
))
    ensures
        ({
            let dg = match dot_git {
                Some(s) => Some(s@),
                None => None::<Seq<char>>,
            };
            let cd = match commondir {
                Some(s) => Some(s@),
                None => None::<Seq<char>>,
            };
            r.0@ == spec_git_dir(repo_root@, dg) && r.1@ == spec_common_dir(repo_root@, dg, cd)
        }),
{
    let root = to_chars(repo_root);
    let ptr: Option<Vec<char>> = match dot_git {
        Some(content) => {
            let c = to_chars(content);
            if has_prefix(&c, "gitdir: ") {
                let rest = tail_from(&c, "gitdir: ".unicode_len());
                proof {
                    assert(rest@ =~= content@.skip("gitdir: "@.len() as int));
                }
                Some(trim_chars(&rest))
            } else {
                None
            }
        },
        None => None,
    };
    match ptr {
        Some(dir) => {
            let gd = if dir.len() > 0 && dir[0] == '/' {
                dir
            } else {
                join_path(&root, &dir)
            };
            match commondir {
                Some(cc) => {
                    let ccv = to_chars(cc);
                    let ct = trim_chars(&ccv);
                    let cd = if ct.len() > 0 && ct[0] == '/' {
                        ct
                    } else {
                        join_path(&gd, &ct)
                    };
                    (chars_to_string(&gd), chars_to_string(&cd))
                },
                None => (chars_to_string(&gd), chars_to_string(&gd)),
            }
        },
        None => {
            let dg = to_chars(".git");
            let gd = join_path(&root, &dg);
            (chars_to_string(&gd), chars_to_string(&gd))
        },
    }
}

} // verus!
