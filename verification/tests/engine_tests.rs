use gstat::codec::decode_snapshot;
use gstat::engine::{
    decide_role, FollowerEvent, LeaderEvent, LoopCore, Role, StepAction,
};
use gstat::types::{GitStatus, OperationState};

fn snap(untracked: u32) -> GitStatus {
    GitStatus {
        branch: "master".to_string(),
        staged: 0,
        modified: 0,
        untracked,
        conflicted: 0,
        ahead: 0,
        behind: 0,
        stash: 0,
        state: OperationState::Clean,
    }
}

#[test]
fn election_outcome_maps_to_role() {
    assert_eq!(decide_role(true), Role::Leader);
    assert_eq!(decide_role(false), Role::Follower);
}

#[test]
fn leader_init_always_publishes() {
    let mut core = LoopCore::new(false, Some("?{untracked}".to_string()));
    match core.leader_init(snap(0)) {
        StepAction::Publish { line, payload } => {
            assert_eq!(line, "?0");
            let published = decode_snapshot(&payload).unwrap();
            assert!(published == snap(0));
        }
        _ => panic!("leader start must publish"),
    }
}

#[test]
fn leader_dedup_suppresses_unchanged() {
    let mut core = LoopCore::new(false, Some("?{untracked}".to_string()));
    let _ = core.leader_init(snap(0));
    // An identical recomputation is silently discarded.
    assert!(matches!(
        core.leader_step(LeaderEvent::Recomputed(snap(0))),
        StepAction::Skip
    ));
    // A different one is published and emitted.
    match core.leader_step(LeaderEvent::Recomputed(snap(1))) {
        StepAction::Publish { line, .. } => assert_eq!(line, "?1"),
        _ => panic!("changed snapshot must be published"),
    }
    // Consecutive emissions never repeat a snapshot.
    assert!(matches!(
        core.leader_step(LeaderEvent::Recomputed(snap(1))),
        StepAction::Skip
    ));
}

#[test]
fn leader_always_print_emits_unchanged() {
    let mut core = LoopCore::new(true, Some("?{untracked}".to_string()));
    let _ = core.leader_init(snap(0));
    assert!(matches!(
        core.leader_step(LeaderEvent::Recomputed(snap(0))),
        StepAction::Publish { .. }
    ));
}

#[test]
fn leader_feedback_yields_single_line() {
    // A provider whose own execution disturbs the watched tree makes the
    // watcher deliver one more signal; the recomputation it triggers
    // reproduces the same snapshot and must not be emitted again.
    let mut core = LoopCore::new(false, None);
    let _ = core.leader_init(snap(0));
    let external_change = core.leader_step(LeaderEvent::Recomputed(snap(1)));
    assert!(matches!(external_change, StepAction::Publish { .. }));
    let self_inflicted = core.leader_step(LeaderEvent::Recomputed(snap(1)));
    assert!(matches!(self_inflicted, StepAction::Skip));
}

#[test]
fn leader_absorbs_watcher_errors() {
    let mut core = LoopCore::new(false, None);
    let _ = core.leader_init(snap(0));
    match core.leader_step(LeaderEvent::WatcherError("backend hiccup".to_string())) {
        StepAction::Note { message } => assert_eq!(message, "backend hiccup"),
        _ => panic!("watcher errors are reported, not fatal"),
    }
    // The error must not disturb deduplication state.
    assert!(matches!(
        core.leader_step(LeaderEvent::Recomputed(snap(0))),
        StepAction::Skip
    ));
}

#[test]
fn leader_channel_closed_is_failure() {
    let mut core = LoopCore::new(false, None);
    match core.leader_step(LeaderEvent::ChannelClosed) {
        StepAction::Stop { failure } => assert!(failure),
        _ => panic!("closed channel must stop the loop"),
    }
}

#[test]
fn follower_reads_published_snapshot() {
    let mut leader = LoopCore::new(false, Some("?{untracked}".to_string()));
    let payload = match leader.leader_init(snap(2)) {
        StepAction::Publish { payload, .. } => payload,
        _ => panic!("leader start must publish"),
    };
    let mut follower = LoopCore::new(false, Some("?{untracked}".to_string()));
    match follower.follower_init(Some(payload.clone())) {
        StepAction::Emit { line } => assert_eq!(line, "?2"),
        _ => panic!("a readable resource is emitted at startup"),
    }
    // Re-reading the same published value is deduplicated.
    assert!(matches!(
        follower.follower_step(FollowerEvent::StateChanged(Some(payload))),
        StepAction::Skip
    ));
}

#[test]
fn follower_ignores_unreadable_resource() {
    let mut follower = LoopCore::new(false, None);
    assert!(matches!(follower.follower_init(None), StepAction::Skip));
    assert!(matches!(
        follower.follower_step(FollowerEvent::StateChanged(None)),
        StepAction::Skip
    ));
    assert!(matches!(
        follower.follower_step(FollowerEvent::StateChanged(Some("torn".to_string()))),
        StepAction::Skip
    ));
}

#[test]
fn follower_emits_updates_and_dedups() {
    let mut leader = LoopCore::new(false, Some("?{untracked}".to_string()));
    let mut follower = LoopCore::new(false, Some("?{untracked}".to_string()));
    let p0 = match leader.leader_init(snap(0)) {
        StepAction::Publish { payload, .. } => payload,
        _ => panic!("must publish"),
    };
    match follower.follower_step(FollowerEvent::StateChanged(Some(p0.clone()))) {
        StepAction::Emit { line } => assert_eq!(line, "?0"),
        _ => panic!("first read must emit"),
    }
    let p1 = match leader.leader_step(LeaderEvent::Recomputed(snap(1))) {
        StepAction::Publish { payload, .. } => payload,
        _ => panic!("must publish"),
    };
    match follower.follower_step(FollowerEvent::StateChanged(Some(p1))) {
        StepAction::Emit { line } => assert_eq!(line, "?1"),
        _ => panic!("update must emit"),
    }
    assert!(matches!(
        follower.follower_step(FollowerEvent::StateChanged(Some(p0))),
        StepAction::Emit { .. }
    ));
}

#[test]
fn follower_channel_closed_is_failure() {
    let mut follower = LoopCore::new(false, None);
    match follower.follower_step(FollowerEvent::ChannelClosed) {
        StepAction::Stop { failure } => assert!(failure),
        _ => panic!("closed channel must stop the loop"),
    }
}

#[test]
fn end_to_end_untracked_cycle() {
    // Clean tree, then one new untracked file, then its removal: three
    // distinct emitted lines whose decoded counts go 0, 1, 0.
    let clean = "\
# branch.oid 0000000000000000
# branch.head master
# branch.ab +0 -0
";
    let with_file = "\
# branch.oid 0000000000000000
# branch.head master
# branch.ab +0 -0
? newfile.txt
";
    let markers = gstat::status::OpMarkers {
        merge_head: false,
        rebase_merge: false,
        rebase_apply: false,
        cherry_pick_head: false,
        bisect_log: false,
        revert_head: false,
    };
    let s0 = gstat::status::compute_status(clean, None, &markers);
    let s1 = gstat::status::compute_status(with_file, None, &markers);
    let s2 = gstat::status::compute_status(clean, None, &markers);

    let mut core = LoopCore::new(false, None);
    let first = match core.leader_init(s0) {
        StepAction::Publish { payload, .. } => payload,
        _ => panic!("must publish"),
    };
    let d0 = decode_snapshot(&first).unwrap();
    assert_eq!(d0.branch, "master");
    assert_eq!(d0.staged, 0);
    assert_eq!(d0.modified, 0);
    assert_eq!(d0.untracked, 0);
    assert_eq!(d0.conflicted, 0);
    assert_eq!(d0.stash, 0);
    assert_eq!(d0.state, OperationState::Clean);

    let second = match core.leader_step(LeaderEvent::Recomputed(s1)) {
        StepAction::Publish { payload, .. } => payload,
        _ => panic!("new untracked file must be published"),
    };
    let d1 = decode_snapshot(&second).unwrap();
    assert_eq!(d1.untracked, 1);
    assert_eq!(d1.branch, d0.branch);
    assert_eq!(d1.staged, d0.staged);
    assert_eq!(d1.modified, d0.modified);
    assert_eq!(d1.conflicted, d0.conflicted);
    assert_eq!(d1.ahead, d0.ahead);
    assert_eq!(d1.behind, d0.behind);
    assert_eq!(d1.stash, d0.stash);
    assert_eq!(d1.state, d0.state);
    assert_ne!(first, second);

    let third = match core.leader_step(LeaderEvent::Recomputed(s2)) {
        StepAction::Publish { payload, .. } => payload,
        _ => panic!("removal must be published"),
    };
    let d2 = decode_snapshot(&third).unwrap();
    assert_eq!(d2.untracked, 0);
    assert_eq!(d2.branch, d1.branch);
    assert_eq!(d2.staged, d1.staged);
    assert_eq!(d2.modified, d1.modified);
    assert_eq!(d2.state, d1.state);
    assert_ne!(second, third);
}
