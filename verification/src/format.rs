//! Rendering a snapshot as an output line: either through a user template
//! with `{key}` placeholders, or as a fixed JSON object.

use vstd::prelude::*;

use crate::chars::{
    append_str, append_vec, chars_to_string, copy_range, find_from, first_idx, seg_eq, to_chars,
};
use crate::digits::{spec_dec, u32_to_dec};
use crate::types::{spec_state_label, spec_state_name, GitStatus, StatusView};

verus! {

/// The rendering of one `{key}` placeholder; an unknown key is left as
/// written, braces included.
pub open spec fn spec_field(sv: StatusView, key: Seq<char>, literal: Seq<char>) -> Seq<char> {
    if key == "branch"@ {
        sv.branch
    } else if key == "staged"@ {
        spec_dec(sv.staged as nat)
    } else if key == "modified"@ {
        spec_dec(sv.modified as nat)
    } else if key == "untracked"@ {
        spec_dec(sv.untracked as nat)
    } else if key == "conflicted"@ {
        spec_dec(sv.conflicted as nat)
    } else if key == "ahead"@ {
        spec_dec(sv.ahead as nat)
    } else if key == "behind"@ {
        spec_dec(sv.behind as nat)
    } else if key == "stash"@ {
        spec_dec(sv.stash as nat)
    } else if key == "state"@ {
        spec_state_label(sv.state)
    } else {
        literal
    }
}

/// Template rendering from position `i`: a `{key}` placeholder up to the
/// next closing brace is substituted (an unclosed brace is literal), the
/// escapes `\t` and `\n` are decoded, and every other character is copied.
pub open spec fn spec_render_from(sv: StatusView, t: Seq<char>, i: nat) -> Seq<char>
    decreases t.len() - i,
{
    if i >= t.len() {
        Seq::<char>::empty()
    } else if t[i as int] == '{' {
        let j = i + 1 + first_idx(t.skip((i + 1) as int), '}');
        if j < t.len() {
            spec_field(sv, t.subrange((i + 1) as int, j as int), t.subrange(i as int, (j + 1) as int))
                + spec_render_from(sv, t, j + 1)
        } else {
            seq!['{'] + spec_render_from(sv, t, i + 1)
        }
    } else if t[i as int] == '\\' && i + 1 < t.len() {
        if t[(i + 1) as int] == 't' {
            seq!['\t'] + spec_render_from(sv, t, i + 2)
        } else if t[(i + 1) as int] == 'n' {
            seq!['\n'] + spec_render_from(sv, t, i + 2)
        } else {
            seq!['\\'] + spec_render_from(sv, t, i + 1)
        }
    } else {
        seq![t[i as int]] + spec_render_from(sv, t, i + 1)
    }
}

pub open spec fn spec_format_custom(sv: StatusView, t: Seq<char>) -> Seq<char> {
    spec_render_from(sv, t, 0)
}

/// Renders `status` through the template.
pub fn format_custom(status: &GitStatus, template: &str) -> (r: String)
    ensures
        r@ == spec_format_custom(status@, template@),
{
    let ghost sv = status@;
    let t = to_chars(template);
    let mut out: Vec<char> = Vec::new();
    let mut i: usize = 0;
    proof {
        assert(out@ + spec_render_from(sv, t@, 0) =~= spec_format_custom(sv, template@));
    }
    while i < t.len()
        invariant
            i <= t@.len(),
            t@ == template@,
            sv == status@,
            out@ + spec_render_from(sv, t@, i as nat) == spec_format_custom(sv, template@),
        decreases t@.len() - i,
    {
        let ghost old_out = out@;
        let ghost old_i = i as nat;
        let c = t[i];
        if c == '{' {
            let close = find_from(&t, i + 1, '}');
            proof {
                assert((i + 1) + first_idx(t@.skip((i + 1) as int), '}') == close as nat);
            }
            if close < t.len() {
                let ghost key = t@.subrange((i + 1) as int, close as int);
                let ghost lit = t@.subrange(i as int, (close + 1) as int);
                if seg_eq(&t, i + 1, close, "branch") {
                    append_str(&mut out, status.branch.as_str());
                } else if seg_eq(&t, i + 1, close, "staged") {
                    let d = u32_to_dec(status.staged);
                    append_vec(&mut out, &d);
                } else if seg_eq(&t, i + 1, close, "modified") {
                    let d = u32_to_dec(status.modified);
                    append_vec(&mut out, &d);
                } else if seg_eq(&t, i + 1, close, "untracked") {
                    let d = u32_to_dec(status.untracked);
                    append_vec(&mut out, &d);
                } else if seg_eq(&t, i + 1, close, "conflicted") {
                    let d = u32_to_dec(status.conflicted);
                    append_vec(&mut out, &d);
                } else if seg_eq(&t, i + 1, close, "ahead") {
                    let d = u32_to_dec(status.ahead);
                    append_vec(&mut out, &d);
                } else if seg_eq(&t, i + 1, close, "behind") {
                    let d = u32_to_dec(status.behind);
                    append_vec(&mut out, &d);
                } else if seg_eq(&t, i + 1, close, "stash") {
                    let d = u32_to_dec(status.stash);
                    append_vec(&mut out, &d);
                } else if seg_eq(&t, i + 1, close, "state") {
                    append_str(&mut out, status.state.label());
                } else {
                    let piece = copy_range(&t, i, close + 1);
                    append_vec(&mut out, &piece);
                }
                proof {
                    assert(out@ =~= old_out + spec_field(sv, key, lit));
                    assert(spec_render_from(sv, t@, old_i) == spec_field(sv, key, lit)
                        + spec_render_from(sv, t@, (close + 1) as nat));
                    assert(out@ + spec_render_from(sv, t@, (close + 1) as nat) =~= old_out
                        + spec_render_from(sv, t@, old_i));
                }
                i = close + 1;
            } else {
                out.push('{');
                proof {
                    assert(out@ =~= old_out + seq!['{']);
                    assert(out@ + spec_render_from(sv, t@, old_i + 1) =~= old_out
                        + spec_render_from(sv, t@, old_i));
                }
                i = i + 1;
            }
        } else if c == '\\' && i + 1 < t.len() {
            let c1 = t[i + 1];
            if c1 == 't' {
                out.push('\t');
                proof {
                    assert(out@ =~= old_out + seq!['\t']);
                    assert(out@ + spec_render_from(sv, t@, old_i + 2) =~= old_out
                        + spec_render_from(sv, t@, old_i));
                }
                i = i + 2;
            } else if c1 == 'n' {
                out.push('\n');
                proof {
                    assert(out@ =~= old_out + seq!['\n']);
                    assert(out@ + spec_render_from(sv, t@, old_i + 2) =~= old_out
                        + spec_render_from(sv, t@, old_i));
                }
                i = i + 2;
            } else {
                out.push('\\');
                proof {
                    assert(out@ =~= old_out + seq!['\\']);
                    assert(out@ + spec_render_from(sv, t@, old_i + 1) =~= old_out
                        + spec_render_from(sv, t@, old_i));
                }
                i = i + 1;
            }
        } else {
            out.push(c);
            proof {
                assert(out@ =~= old_out + seq![t@[old_i as int]]);
                assert(out@ + spec_render_from(sv, t@, old_i + 1) =~= old_out + spec_render_from(
                    sv,
                    t@,
                    old_i,
                ));
            }
            i = i + 1;
        }
    }
    proof {
        assert(out@ + spec_render_from(sv, t@, i as nat) =~= out@);
        assert(out@ =~= spec_format_custom(sv, template@));
    }
    chars_to_string(&out)
}

/// Hexadecimal digit character for a value below sixteen.
pub open spec fn spec_hex_digit(d: int) -> char {
    if d < 10 {
        crate::digits::spec_digit(d)
    } else if d == 10 {
        'a'
    } else if d == 11 {
        'b'
    } else if d == 12 {
        'c'
    } else if d == 13 {
        'd'
    } else if d == 14 {
        'e'
    } else {
        'f'
    }
}

/// JSON string escaping of one character: quote and backslash get a
/// backslash, control characters become `\u00XX`, the rest pass through.
pub open spec fn spec_json_escape_char(c: char) -> Seq<char> {
    if c == '"' {
        seq!['\\', '"']
    } else if c == '\\' {
        seq!['\\', '\\']
    } else if (c as u32) < 32 {
        seq!['\\', 'u', '0', '0', spec_hex_digit(c as u32 as int / 16), spec_hex_digit(
            c as u32 as int % 16,
        )]
    } else {
        seq![c]
    }
}

pub open spec fn spec_json_escape(s: Seq<char>) -> Seq<char>
    decreases s.len(),
{
    if s.len() == 0 {
        Seq::<char>::empty()
    } else {
        spec_json_escape_char(s[0]) + spec_json_escape(s.drop_first())
    }
}

fn hex_digit_of(d: u32) -> (c: char)
    requires
        d < 16,
    ensures
        c == spec_hex_digit(d as int),
{
    if d < 10 {
        crate::digits::digit_of(d)
    } else if d == 10 {
        'a'
    } else if d == 11 {
        'b'
    } else if d == 12 {
        'c'
    } else if d == 13 {
        'd'
    } else if d == 14 {
        'e'
    } else {
        'f'
    }
}

fn json_escape_chars(v: &Vec<char>) -> (r: Vec<char>)
    ensures
        r@ == spec_json_escape(v@),
{
    let mut out: Vec<char> = Vec::new();
    let mut i: usize = 0;
    proof {
        assert(v@.subrange(0, v@.len() as int) =~= v@);
        assert(out@ + spec_json_escape(v@) =~= spec_json_escape(v@));
    }
    while i < v.len()
        invariant
            i <= v@.len(),
            out@ + spec_json_escape(v@.subrange(i as int, v@.len() as int)) == spec_json_escape(
                v@,
            ),
        decreases v@.len() - i,
    {
        let ghost before = v@.subrange(i as int, v@.len() as int);
        proof {
            assert(before[0] == v@[i as int]);
            assert(before.drop_first() =~= v@.subrange(i + 1, v@.len() as int));
        }
        let c = v[i];
        if c == '"' {
            out.push('\\');
            out.push('"');
        } else if c == '\\' {
            out.push('\\');
            out.push('\\');
        } else if (c as u32) < 32 {
            out.push('\\');
            out.push('u');
            out.push('0');
            out.push('0');
            let hi = hex_digit_of(c as u32 / 16);
            let lo = hex_digit_of(c as u32 % 16);
            out.push(hi);
            out.push(lo);
        } else {
            out.push(c);
        }
        i = i + 1;
        proof {
            assert(out@ + spec_json_escape(v@.subrange(i as int, v@.len() as int))
                =~= spec_json_escape(v@));
        }
    }
    proof {
        assert(v@.subrange(v@.len() as int, v@.len() as int) =~= Seq::<char>::empty());
        assert(out@ =~= spec_json_escape(v@));
    }
    out
}

/// The JSON object line for a snapshot: every field in fixed order, the
/// branch escaped, the state under its canonical name.
pub open spec fn spec_format_json(sv: StatusView) -> Seq<char> {
    "{\"branch\":\""@ + (spec_json_escape(sv.branch) + ("\",\"staged\":"@ + (spec_dec(
        sv.staged as nat,
    ) + (",\"modified\":"@ + (spec_dec(sv.modified as nat) + (",\"untracked\":"@ + (spec_dec(
        sv.untracked as nat,
    ) + (",\"conflicted\":"@ + (spec_dec(sv.conflicted as nat) + (",\"ahead\":"@ + (spec_dec(
        sv.ahead as nat,
    ) + (",\"behind\":"@ + (spec_dec(sv.behind as nat) + (",\"stash\":"@ + (spec_dec(
        sv.stash as nat,
    ) + (",\"state\":\""@ + (spec_state_name(sv.state) + "\"}"@)))))))))))))))))
}

fn pre_lit(lit: &str, rest: Vec<char>) -> (r: Vec<char>)
    ensures
        r@ == lit@ + rest@,
{
    let mut x = to_chars(lit);
    append_vec(&mut x, &rest);
    x
}

fn pre_dec(n: u32, rest: Vec<char>) -> (r: Vec<char>)
    ensures
        r@ == spec_dec(n as nat) + rest@,
{
    let mut x = u32_to_dec(n);
    append_vec(&mut x, &rest);
    x
}

/// Renders `status` as one JSON object.
pub fn format_json(status: &GitStatus) -> (r: String)
    ensures
        r@ == spec_format_json(status@),
{
    let mut x = to_chars(status.state.name());
    append_str(&mut x, "\"}");
    let x = pre_lit(",\"state\":\"", x);
    let x = pre_dec(status.stash, x);
    let x = pre_lit(",\"stash\":", x);
    let x = pre_dec(status.behind, x);
    let x = pre_lit(",\"behind\":", x);
    let x = pre_dec(status.ahead, x);
    let x = pre_lit(",\"ahead\":", x);
    let x = pre_dec(status.conflicted, x);
    let x = pre_lit(",\"conflicted\":", x);
    let x = pre_dec(status.untracked, x);
    let x = pre_lit(",\"untracked\":", x);
    let x = pre_dec(status.modified, x);
    let x = pre_lit(",\"modified\":", x);
    let x = pre_dec(status.staged, x);
    let x = pre_lit("\",\"staged\":", x);
    let branch_chars = to_chars(status.branch.as_str());
    let mut esc = json_escape_chars(&branch_chars);
    append_vec(&mut esc, &x);
    let x = pre_lit("{\"branch\":\"", esc);
    chars_to_string(&x)
}

/// How an emitted line is rendered: through the template when one is
/// configured, as JSON otherwise.
pub open spec fn spec_format_output(sv: StatusView, template: Option<Seq<char>>) -> Seq<char> {
    match template {
        Some(t) => spec_format_custom(sv, t),
        None => spec_format_json(sv),
    }
}

pub fn format_output(status: &GitStatus, template: Option<&str>) -> (r: String)
    ensures
        ({
            let tv = match template {
                Some(t) => Some(t@),
                None => None::<Seq<char>>,
            };
            r@ == spec_format_output(status@, tv)
        }),
{
    match template {
        Some(t) => format_custom(status, t),
        None => format_json(status),
    }
}

} // verus!
