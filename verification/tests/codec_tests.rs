use gstat::codec::{decode_snapshot, encode_snapshot, state_file_path, FIELD_SEP};
use gstat::digits::{parse_u32_chars, u32_to_dec};
use gstat::types::{GitStatus, OperationState};

fn snap(branch: &str, state: OperationState) -> GitStatus {
    GitStatus {
        branch: branch.to_string(),
        staged: 1,
        modified: 2,
        untracked: 3,
        conflicted: 4,
        ahead: 5,
        behind: 6,
        stash: 7,
        state,
    }
}

#[test]
fn encode_exact_record() {
    let s = snap("main", OperationState::Clean);
    let sep = FIELD_SEP;
    let expected = format!(
        "main{sep}1{sep}2{sep}3{sep}4{sep}5{sep}6{sep}7{sep}clean",
        sep = sep
    );
    assert_eq!(encode_snapshot(&s), expected);
}

#[test]
fn decode_of_encode_round_trip() {
    let s = snap("feature/x.y", OperationState::CherryPick);
    let decoded = decode_snapshot(&encode_snapshot(&s)).unwrap();
    assert!(decoded == s);
}

#[test]
fn decode_rejects_wrong_field_count() {
    assert!(decode_snapshot("").is_none());
    assert!(decode_snapshot("main").is_none());
    let sep = FIELD_SEP;
    let short = format!("main{sep}1{sep}2", sep = sep);
    assert!(decode_snapshot(&short).is_none());
    let long = format!(
        "main{sep}1{sep}2{sep}3{sep}4{sep}5{sep}6{sep}7{sep}clean{sep}extra",
        sep = sep
    );
    assert!(decode_snapshot(&long).is_none());
}

#[test]
fn decode_rejects_bad_number() {
    let sep = FIELD_SEP;
    let bad = format!(
        "main{sep}x{sep}2{sep}3{sep}4{sep}5{sep}6{sep}7{sep}clean",
        sep = sep
    );
    assert!(decode_snapshot(&bad).is_none());
    let empty = format!(
        "main{sep}{sep}2{sep}3{sep}4{sep}5{sep}6{sep}7{sep}clean",
        sep = sep
    );
    assert!(decode_snapshot(&empty).is_none());
    let huge = format!(
        "main{sep}4294967296{sep}2{sep}3{sep}4{sep}5{sep}6{sep}7{sep}clean",
        sep = sep
    );
    assert!(decode_snapshot(&huge).is_none());
}

#[test]
fn decode_rejects_bad_state_name() {
    let sep = FIELD_SEP;
    let bad = format!(
        "main{sep}1{sep}2{sep}3{sep}4{sep}5{sep}6{sep}7{sep}merging",
        sep = sep
    );
    assert!(decode_snapshot(&bad).is_none());
}

#[test]
fn decode_every_state_name() {
    let states = [
        OperationState::Clean,
        OperationState::Merge,
        OperationState::Rebase,
        OperationState::CherryPick,
        OperationState::Bisect,
        OperationState::Revert,
    ];
    for st in states {
        let s = snap("b", st);
        let decoded = decode_snapshot(&encode_snapshot(&s)).unwrap();
        assert_eq!(decoded.state, st);
    }
}

#[test]
fn state_file_path_escapes_separators() {
    assert_eq!(
        state_file_path("/run/user/1000/gsw", "/home/me/repo"),
        "/run/user/1000/gsw/%2Fhome%2Fme%2Frepo"
    );
    assert_eq!(state_file_path("/tmp/", "/a"), "/tmp/%2Fa");
    assert_eq!(state_file_path("", "/a/b"), "%2Fa%2Fb");
}

#[test]
fn round_trip_empty_branch() {
    let s = snap("", OperationState::Clean);
    let decoded = decode_snapshot(&encode_snapshot(&s)).unwrap();
    assert!(decoded == s);
    assert_eq!(decoded.branch, "");
}

#[test]
fn distinct_snapshots_encode_distinctly() {
    let a = snap("main", OperationState::Clean);
    let mut b = snap("main", OperationState::Clean);
    b.stash = 8;
    assert_ne!(encode_snapshot(&a), encode_snapshot(&b));
}

#[test]
fn decimal_round_trip() {
    for n in [0u32, 1, 9, 10, 42, 999, 1000, 4294967295] {
        let digits = u32_to_dec(n);
        let text: String = digits.iter().collect();
        assert_eq!(text, n.to_string());
        assert_eq!(parse_u32_chars(&digits), Some(n));
    }
}

#[test]
fn decimal_parse_limits() {
    let max: Vec<char> = "4294967295".chars().collect();
    assert_eq!(parse_u32_chars(&max), Some(u32::MAX));
    let over: Vec<char> = "4294967296".chars().collect();
    assert_eq!(parse_u32_chars(&over), None);
    let empty: Vec<char> = Vec::new();
    assert_eq!(parse_u32_chars(&empty), None);
    let mixed: Vec<char> = "12a".chars().collect();
    assert_eq!(parse_u32_chars(&mixed), None);
    let leading: Vec<char> = "007".chars().collect();
    assert_eq!(parse_u32_chars(&leading), Some(7));
}
