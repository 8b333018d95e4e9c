use gstat::format::{format_custom, format_json, format_output};
use gstat::types::{GitStatus, OperationState};

fn sample_status() -> GitStatus {
    GitStatus {
        branch: "main".to_string(),
        staged: 2,
        modified: 3,
        untracked: 1,
        conflicted: 0,
        ahead: 1,
        behind: 0,
        stash: 2,
        state: OperationState::Clean,
    }
}

#[test]
fn json_output() {
    let s = sample_status();
    let json = format_json(&s);
    let parsed: serde_json::Value = serde_json::from_str(&json).unwrap();
    assert_eq!(parsed["branch"], "main");
    assert_eq!(parsed["staged"], 2);
    assert_eq!(parsed["modified"], 3);
    assert_eq!(parsed["untracked"], 1);
    assert_eq!(parsed["conflicted"], 0);
    assert_eq!(parsed["ahead"], 1);
    assert_eq!(parsed["behind"], 0);
    assert_eq!(parsed["stash"], 2);
    assert_eq!(parsed["state"], "clean");
}

#[test]
fn custom_format() {
    let s = sample_status();
    let result = format_custom(&s, " {branch} +{staged} ~{modified} ?{untracked} ⇡{ahead}⇣{behind}");
    assert_eq!(result, " main +2 ~3 ?1 ⇡1⇣0");
}

#[test]
fn custom_format_with_state() {
    let mut s = sample_status();
    s.state = OperationState::Rebase;
    let result = format_custom(&s, "{branch}|{state}");
    assert_eq!(result, "main|rebase");
}

#[test]
fn custom_format_clean_state_empty() {
    let s = sample_status();
    let result = format_custom(&s, "{branch}{state}");
    assert_eq!(result, "main");
}

#[test]
fn custom_format_tab_separated() {
    let s = sample_status();
    let result = format_custom(
        &s,
        "{branch}\\t{staged}\\t{modified}\\t{untracked}\\t{conflicted}\\t{ahead}\\t{behind}\\t{stash}\\t{state}",
    );
    assert_eq!(result, "main\t2\t3\t1\t0\t1\t0\t2\t");
}

#[test]
fn json_exact_line() {
    let s = sample_status();
    assert_eq!(
        format_json(&s),
        "{\"branch\":\"main\",\"staged\":2,\"modified\":3,\"untracked\":1,\"conflicted\":0,\"ahead\":1,\"behind\":0,\"stash\":2,\"state\":\"clean\"}"
    );
}

#[test]
fn json_escapes_branch() {
    let mut s = sample_status();
    s.branch = "a\"b\\c\u{1}".to_string();
    let json = format_json(&s);
    let parsed: serde_json::Value = serde_json::from_str(&json).unwrap();
    assert_eq!(parsed["branch"], "a\"b\\c\u{1}");
}

#[test]
fn custom_format_unknown_key_kept() {
    let s = sample_status();
    assert_eq!(format_custom(&s, "x{unknown}y"), "x{unknown}y");
}

#[test]
fn custom_format_unclosed_brace() {
    let s = sample_status();
    assert_eq!(format_custom(&s, "a{branch"), "a{branch");
}

#[test]
fn custom_format_backslash_passthrough() {
    let s = sample_status();
    assert_eq!(format_custom(&s, "a\\x"), "a\\x");
    assert_eq!(format_custom(&s, "end\\"), "end\\");
    assert_eq!(format_custom(&s, "a\\nb"), "a\nb");
}

#[test]
fn format_output_dispatches() {
    let s = sample_status();
    assert_eq!(format_output(&s, Some("{branch}")), "main");
    assert_eq!(format_output(&s, None), format_json(&s));
}

#[test]
fn custom_format_empty_template() {
    let s = sample_status();
    assert_eq!(format_custom(&s, ""), "");
}

#[test]
fn state_labels() {
    assert_eq!(OperationState::Clean.label(), "");
    assert_eq!(OperationState::Merge.label(), "merge");
    assert_eq!(OperationState::Rebase.label(), "rebase");
    assert_eq!(OperationState::CherryPick.label(), "cherry-pick");
    assert_eq!(OperationState::Bisect.label(), "bisect");
    assert_eq!(OperationState::Revert.label(), "revert");
    assert_eq!(OperationState::CherryPick.name(), "cherry_pick");
}
