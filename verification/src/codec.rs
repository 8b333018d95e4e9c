//! Codec for the shared state resource.
//!
//! A published snapshot is a fixed-order positional record of the snapshot
//! fields (branch, staged, modified, untracked, conflicted, ahead, behind,
//! stash, operation state), joined by a single separator character that is
//! never expected inside a field value.  The unit-separator control
//! character is used: branch names cannot contain control characters, and
//! the remaining fields are decimal numerals and fixed state names.
//!
//! This module also derives the key under which the resource is stored:
//! the repository root with every path separator escaped.

use vstd::prelude::*;

use crate::chars::{
    append_str, append_vec, chars_to_string, lemma_split_char_concat, lemma_split_char_whole,
    split_char, split_vec, to_chars, vec_eq_str,
};
use crate::digits::{
    all_digits, is_digit, lemma_parse_of_dec, parse_u32_chars, spec_dec, spec_parse_u32,
    u32_to_dec,
};
use crate::types::{spec_state_name, GitStatus, OperationState, StatusView};

verus! {

/// Field delimiter of the positional record.
pub const FIELD_SEP: char = '\u{1f}';

pub open spec fn sep_seq() -> Seq<char> {
    seq![FIELD_SEP]
}

/// A snapshot can be published faithfully exactly when its branch name is
/// free of the field separator.
pub open spec fn snapshot_wf(v: StatusView) -> bool {
    !v.branch.contains(FIELD_SEP)
}

/// The byte-for-byte content of the shared state resource for a snapshot:
/// the nine fields in fixed order, joined by the separator.
pub open spec fn spec_encode(v: StatusView) -> Seq<char> {
    v.branch + sep_seq() + (spec_dec(v.staged as nat) + sep_seq() + (spec_dec(v.modified as nat)
        + sep_seq() + (spec_dec(v.untracked as nat) + sep_seq() + (spec_dec(v.conflicted as nat)
        + sep_seq() + (spec_dec(v.ahead as nat) + sep_seq() + (spec_dec(v.behind as nat)
        + sep_seq() + (spec_dec(v.stash as nat) + sep_seq() + spec_state_name(v.state))))))))
}

/// Which state a stored state-name denotes, if any.
pub open spec fn spec_state_of_name(s: Seq<char>) -> Option<OperationState> {
    if s == "clean"@ {
        Some(OperationState::Clean)
    } else if s == "merge"@ {
        Some(OperationState::Merge)
    } else if s == "rebase"@ {
        Some(OperationState::Rebase)
    } else if s == "cherry_pick"@ {
        Some(OperationState::CherryPick)
    } else if s == "bisect"@ {
        Some(OperationState::Bisect)
    } else if s == "revert"@ {
        Some(OperationState::Revert)
    } else {
        None
    }
}

/// Reading the shared state resource: defined exactly when the content
/// splits into nine fields whose numerals and state name all read back.
pub open spec fn spec_decode(s: Seq<char>) -> Option<StatusView> {
    let parts = split_char(s, FIELD_SEP);
    if parts.len() == 9 && spec_parse_u32(parts[1]) is Some && spec_parse_u32(parts[2]) is Some
        && spec_parse_u32(parts[3]) is Some && spec_parse_u32(parts[4]) is Some && spec_parse_u32(
        parts[5],
    ) is Some && spec_parse_u32(parts[6]) is Some && spec_parse_u32(parts[7]) is Some
        && spec_state_of_name(parts[8]) is Some {
        Some(
            StatusView {
                branch: parts[0],
                staged: spec_parse_u32(parts[1])->0,
                modified: spec_parse_u32(parts[2])->0,
                untracked: spec_parse_u32(parts[3])->0,
                conflicted: spec_parse_u32(parts[4])->0,
                ahead: spec_parse_u32(parts[5])->0,
                behind: spec_parse_u32(parts[6])->0,
                stash: spec_parse_u32(parts[7])->0,
                state: spec_state_of_name(parts[8])->0,
            },
        )
    } else {
        None
    }
}

/// Serializes a snapshot for publication.
pub fn encode_snapshot(g: &GitStatus) -> (r: String)
    ensures
        r@ == spec_encode(g@),
{
    let t8 = to_chars(g.state.name());
    let mut t7 = u32_to_dec(g.stash);
    proof {
        assert(t7@.push(FIELD_SEP) =~= t7@ + sep_seq());
    }
    t7.push(FIELD_SEP);
    append_vec(&mut t7, &t8);
    let mut t6 = u32_to_dec(g.behind);
    proof {
        assert(t6@.push(FIELD_SEP) =~= t6@ + sep_seq());
    }
    t6.push(FIELD_SEP);
    append_vec(&mut t6, &t7);
    let mut t5 = u32_to_dec(g.ahead);
    proof {
        assert(t5@.push(FIELD_SEP) =~= t5@ + sep_seq());
    }
    t5.push(FIELD_SEP);
    append_vec(&mut t5, &t6);
    let mut t4 = u32_to_dec(g.conflicted);
    proof {
        assert(t4@.push(FIELD_SEP) =~= t4@ + sep_seq());
    }
    t4.push(FIELD_SEP);
    append_vec(&mut t4, &t5);
    let mut t3 = u32_to_dec(g.untracked);
    proof {
        assert(t3@.push(FIELD_SEP) =~= t3@ + sep_seq());
    }
    t3.push(FIELD_SEP);
    append_vec(&mut t3, &t4);
    let mut t2 = u32_to_dec(g.modified);
    proof {
        assert(t2@.push(FIELD_SEP) =~= t2@ + sep_seq());
    }
    t2.push(FIELD_SEP);
    append_vec(&mut t2, &t3);
    let mut t1 = u32_to_dec(g.staged);
    proof {
        assert(t1@.push(FIELD_SEP) =~= t1@ + sep_seq());
    }
    t1.push(FIELD_SEP);
    append_vec(&mut t1, &t2);
    let mut out = to_chars(g.branch.as_str());
    proof {
        assert(out@.push(FIELD_SEP) =~= out@ + sep_seq());
    }
    out.push(FIELD_SEP);
    append_vec(&mut out, &t1);
    chars_to_string(&out)
}

/// Exec reading of a stored state name.
fn state_from_name(v: &Vec<char>) -> (r: Option<OperationState>)
    ensures
        r == spec_state_of_name(v@),
{
    if vec_eq_str(v, "clean") {
        Some(OperationState::Clean)
    } else if vec_eq_str(v, "merge") {
        Some(OperationState::Merge)
    } else if vec_eq_str(v, "rebase") {
        Some(OperationState::Rebase)
    } else if vec_eq_str(v, "cherry_pick") {
        Some(OperationState::CherryPick)
    } else if vec_eq_str(v, "bisect") {
        Some(OperationState::Bisect)
    } else if vec_eq_str(v, "revert") {
        Some(OperationState::Revert)
    } else {
        None
    }
}

/// Deserializes the content of the shared state resource.  `None` means
/// the content is not a complete record (for example a reader raced the
/// publication); callers treat that as "no update yet".
pub fn decode_snapshot(content: &str) -> (r: Option<GitStatus>)
    ensures
        r is Some <==> spec_decode(content@) is Some,
        r matches Some(g) ==> spec_decode(content@) == Some(g@),
{
    let v = to_chars(content);
    let parts = split_vec(&v, FIELD_SEP);
    let ghost sparts = split_char(content@, FIELD_SEP);
    proof {
        assert forall|i: int| 0 <= i < parts@.len() implies parts@[i]@ == sparts[i] by {
            assert(parts@.map_values(|p: Vec<char>| p@)[i] == parts@[i]@);
        }
    }
    if parts.len() != 9 {
        return None;
    }
    let staged = parse_u32_chars(&parts[1]);
    let modified = parse_u32_chars(&parts[2]);
    let untracked = parse_u32_chars(&parts[3]);
    let conflicted = parse_u32_chars(&parts[4]);
    let ahead = parse_u32_chars(&parts[5]);
    let behind = parse_u32_chars(&parts[6]);
    let stash = parse_u32_chars(&parts[7]);
    let state = state_from_name(&parts[8]);
    match (staged, modified, untracked, conflicted, ahead, behind, stash, state) {
        (
            Some(staged),
            Some(modified),
            Some(untracked),
            Some(conflicted),
            Some(ahead),
            Some(behind),
            Some(stash),
            Some(state),
        ) => {
            let branch = chars_to_string(&parts[0]);
            let g = GitStatus {
                branch,
                staged,
                modified,
                untracked,
                conflicted,
                ahead,
                behind,
                stash,
                state,
            };
            proof {
                assert(spec_decode(content@) matches Some(d) && d =~= g@);
            }
            Some(g)
        },
        _ => None,
    }
}

/// Digit strings never hold the separator.
proof fn lemma_digits_no_sep(s: Seq<char>)
    requires
        all_digits(s),
    ensures
        !s.contains(FIELD_SEP),
{
    if s.contains(FIELD_SEP) {
        let i = choose|i: int| 0 <= i < s.len() && s[i] == FIELD_SEP;
        assert(is_digit(s[i]));
    }
}

/// State names never hold the separator.
proof fn lemma_state_name_no_sep(st: OperationState)
    ensures
        !spec_state_name(st).contains(FIELD_SEP),
{
    reveal_strlit("clean");
    reveal_strlit("merge");
    reveal_strlit("rebase");
    reveal_strlit("cherry_pick");
    reveal_strlit("bisect");
    reveal_strlit("revert");
    let s = spec_state_name(st);
    if s.contains(FIELD_SEP) {
        let i = choose|i: int| 0 <= i < s.len() && s[i] == FIELD_SEP;
        assert(false);
    }
}

/// Every state is read back from its own name.
proof fn lemma_state_name_reads_back(st: OperationState)
    ensures
        spec_state_of_name(spec_state_name(st)) == Some(st),
{
    reveal_strlit("clean");
    reveal_strlit("merge");
    reveal_strlit("rebase");
    reveal_strlit("cherry_pick");
    reveal_strlit("bisect");
    reveal_strlit("revert");
    assert("merge"@ != "clean"@) by {
        assert("merge"@[0] == 'm' && "clean"@[0] == 'c');
    }
    assert("rebase"@.len() != "clean"@.len());
    assert("bisect"@ != "rebase"@) by {
        assert("bisect"@[0] == 'b' && "rebase"@[0] == 'r');
    }
    assert("revert"@ != "rebase"@) by {
        assert("revert"@[2] == 'v' && "rebase"@[2] == 'b');
    }
    assert("revert"@ != "bisect"@) by {
        assert("revert"@[0] == 'r' && "bisect"@[0] == 'b');
    }
    assert("cherry_pick"@.len() != "clean"@.len());
    match st {
        OperationState::Clean => {
            assert(spec_state_of_name(spec_state_name(st)) == Some(st));
        },
        OperationState::Merge => {
            assert(spec_state_of_name(spec_state_name(st)) == Some(st));
        },
        OperationState::Rebase => {
            assert(spec_state_of_name(spec_state_name(st)) == Some(st));
        },
        OperationState::CherryPick => {
            assert(spec_state_of_name(spec_state_name(st)) == Some(st));
        },
        OperationState::Bisect => {
            assert("bisect"@.len() == 6);
            assert("merge"@.len() == 5);
            assert("bisect"@ != "clean"@);
            assert("bisect"@ != "merge"@);
            assert("bisect"@ != "rebase"@);
            assert("bisect"@ != "cherry_pick"@);
            assert(spec_state_name(st) == "bisect"@);
            assert(spec_state_of_name(spec_state_name(st)) == Some(st));
        },
        OperationState::Revert => {
            assert("revert"@.len() == 6);
            assert("clean"@.len() == 5);
            assert("merge"@.len() == 5);
            assert("cherry_pick"@.len() == 11);
            assert(spec_state_of_name(spec_state_name(st)) == Some(st));
        },
    }
}

/// The codec round trip: any well-formed snapshot that is published is
/// read back unchanged by any complete read.
pub proof fn lemma_decode_of_encode(v: StatusView)
    requires
        snapshot_wf(v),
    ensures
        spec_decode(spec_encode(v)) == Some(v),
{
    let f1 = spec_dec(v.staged as nat);
    let f2 = spec_dec(v.modified as nat);
    let f3 = spec_dec(v.untracked as nat);
    let f4 = spec_dec(v.conflicted as nat);
    let f5 = spec_dec(v.ahead as nat);
    let f6 = spec_dec(v.behind as nat);
    let f7 = spec_dec(v.stash as nat);
    let f8 = spec_state_name(v.state);
    crate::digits::lemma_dec_shape(v.staged as nat);
    crate::digits::lemma_dec_shape(v.modified as nat);
    crate::digits::lemma_dec_shape(v.untracked as nat);
    crate::digits::lemma_dec_shape(v.conflicted as nat);
    crate::digits::lemma_dec_shape(v.ahead as nat);
    crate::digits::lemma_dec_shape(v.behind as nat);
    crate::digits::lemma_dec_shape(v.stash as nat);
    lemma_digits_no_sep(f1);
    lemma_digits_no_sep(f2);
    lemma_digits_no_sep(f3);
    lemma_digits_no_sep(f4);
    lemma_digits_no_sep(f5);
    lemma_digits_no_sep(f6);
    lemma_digits_no_sep(f7);
    lemma_state_name_no_sep(v.state);
    let t8 = f8;
    let t7 = f7 + sep_seq() + t8;
    let t6 = f6 + sep_seq() + t7;
    let t5 = f5 + sep_seq() + t6;
    let t4 = f4 + sep_seq() + t5;
    let t3 = f3 + sep_seq() + t4;
    let t2 = f2 + sep_seq() + t3;
    let t1 = f1 + sep_seq() + t2;
    assert(spec_encode(v) == v.branch + sep_seq() + t1);
    lemma_split_char_concat(v.branch, t1, FIELD_SEP);
    lemma_split_char_concat(f1, t2, FIELD_SEP);
    lemma_split_char_concat(f2, t3, FIELD_SEP);
    lemma_split_char_concat(f3, t4, FIELD_SEP);
    lemma_split_char_concat(f4, t5, FIELD_SEP);
    lemma_split_char_concat(f5, t6, FIELD_SEP);
    lemma_split_char_concat(f6, t7, FIELD_SEP);
    lemma_split_char_concat(f7, t8, FIELD_SEP);
    lemma_split_char_whole(f8, FIELD_SEP);
    let parts = split_char(spec_encode(v), FIELD_SEP);
    assert(parts =~= seq![v.branch, f1, f2, f3, f4, f5, f6, f7, f8]);
    lemma_parse_of_dec(v.staged);
    lemma_parse_of_dec(v.modified);
    lemma_parse_of_dec(v.untracked);
    lemma_parse_of_dec(v.conflicted);
    lemma_parse_of_dec(v.ahead);
    lemma_parse_of_dec(v.behind);
    lemma_parse_of_dec(v.stash);
    lemma_state_name_reads_back(v.state);
    assert(spec_decode(spec_encode(v)) matches Some(d) && d =~= v);
}

/// Distinct well-formed snapshots are published as distinct contents, so a
/// complete read identifies the snapshot it observed unambiguously.
pub proof fn lemma_encode_injective(a: StatusView, b: StatusView)
    requires
        snapshot_wf(a),
        snapshot_wf(b),
        a != b,
    ensures
        spec_encode(a) != spec_encode(b),
{
    lemma_decode_of_encode(a);
    lemma_decode_of_encode(b);
}

/// Escaping of the repository root used to key the shared state resource:
/// every path separator becomes the three characters `%2F`.
pub open spec fn spec_escape_key(s: Seq<char>) -> Seq<char>
    decreases s.len(),
{
    if s.len() == 0 {
        Seq::<char>::empty()
    } else if s[0] == '/' {
        "%2F"@ + spec_escape_key(s.drop_first())
    } else {
        seq![s[0]] + spec_escape_key(s.drop_first())
    }
}

/// The location of the shared state resource for a repository root: the
/// escaped root, placed directly inside the state directory.
pub open spec fn spec_state_file_path(dir: Seq<char>, root: Seq<char>) -> Seq<char> {
    if dir.len() == 0 {
        spec_escape_key(root)
    } else if dir.last() == '/' {
        dir + spec_escape_key(root)
    } else {
        dir + seq!['/'] + spec_escape_key(root)
    }
}

/// Exec escaping of a repository root.
pub fn escape_key(v: &Vec<char>) -> (r: Vec<char>)
    ensures
        r@ == spec_escape_key(v@),
{
    let mut out: Vec<char> = Vec::new();
    let mut i: usize = 0;
    proof {
        assert(v@.subrange(0, v@.len() as int) =~= v@);
        assert(out@ + spec_escape_key(v@) =~= spec_escape_key(v@));
    }
    while i < v.len()
        invariant
            i <= v@.len(),
            out@ + spec_escape_key(v@.subrange(i as int, v@.len() as int)) == spec_escape_key(v@),
        decreases v@.len() - i,
    {
        let ghost before = v@.subrange(i as int, v@.len() as int);
        proof {
            assert(before.drop_first() =~= v@.subrange(i + 1, v@.len() as int));
            assert(before[0] == v@[i as int]);
        }
        if v[i] == '/' {
            append_str(&mut out, "%2F");
        } else {
            out.push(v[i]);
        }
        i = i + 1;
        proof {
            assert(out@ + spec_escape_key(v@.subrange(i as int, v@.len() as int)) =~= spec_escape_key(
                v@,
            ));
        }
    }
    proof {
        assert(v@.subrange(v@.len() as int, v@.len() as int) =~= Seq::<char>::empty());
        assert(out@ =~= spec_escape_key(v@));
    }
    out
}

/// Where the shared state resource for `repo_root` lives under `state_dir`.
pub fn state_file_path(state_dir: &str, repo_root: &str) -> (r: String)
    ensures
        r@ == spec_state_file_path(state_dir@, repo_root@),
{
    let mut out = to_chars(state_dir);
    if out.len() > 0 {
        let last = out[out.len() - 1];
        if last != '/' {
            out.push('/');
        }
    }
    let root = to_chars(repo_root);
    let esc = escape_key(&root);
    append_vec(&mut out, &esc);
    proof {
        assert(out@ =~= spec_state_file_path(state_dir@, repo_root@));
    }
    chars_to_string(&out)
}

} // verus!
