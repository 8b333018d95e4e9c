//! The coordination core: role election outcome, and the leader and
//! follower loop bodies as pure transition functions.
//!
//! The surrounding binary owns the watcher, the lock, the shared state
//! resource and the output stream.  It feeds each observation in as an
//! event and performs the returned action; every decision — relevance,
//! deduplication, what to publish, when to stop — is made here.

use vstd::prelude::*;

use crate::codec::{decode_snapshot, encode_snapshot, snapshot_wf, spec_decode, spec_encode};
use crate::format::{format_output, spec_format_output};
use crate::types::{GitStatus, StatusView};

verus! {

/// The two mutually exclusive process roles produced by election.
#[derive(Debug, Clone, Copy, PartialEq, Eq, Structural)]
pub enum Role {
    Leader,
    Follower,
}

pub open spec fn spec_role(lock_acquired: bool) -> Role {
    if lock_acquired {
        Role::Leader
    } else {
        Role::Follower
    }
}

/// Decides the role once, at startup, from the outcome of the single
/// non-blocking lock attempt.  Failing to take the lock is not an error;
/// it is the designed signal to run as a follower.
pub fn decide_role(lock_acquired: bool) -> (r: Role)
    ensures
        r == spec_role(lock_acquired),
{
    if lock_acquired {
        Role::Leader
    } else {
        Role::Follower
    }
}

/// Granted to at most one contender, the lock yields at most one leader.
pub proof fn lemma_role_exclusive(a: bool, b: bool)
    requires
        !(a && b),
    ensures
        !(spec_role(a) is Leader && spec_role(b) is Leader),
{
}

/// The per-process state a loop owns: configuration fixed at startup, and
/// the last emitted snapshot, private to this loop instance.
pub struct LoopCore {
    pub always_print: bool,
    pub template: Option<String>,
    pub last: Option<GitStatus>,
}

/// Mathematical state of a loop.
#[verifier::ext_equal]
pub ghost struct CoreView {
    pub always_print: bool,
    pub template: Option<Seq<char>>,
    pub last: Option<StatusView>,
}

impl View for LoopCore {
    type V = CoreView;

    open spec fn view(&self) -> CoreView {
        CoreView {
            always_print: self.always_print,
            template: match self.template {
                Some(t) => Some(t@),
                None => None,
            },
            last: match self.last {
                Some(g) => Some(g@),
                None => None,
            },
        }
    }
}

/// What a loop asks its surroundings to do after one event.
pub enum StepAction {
    /// Atomically replace the shared state resource with `payload`, then
    /// emit `line`.
    Publish { line: String, payload: String },
    /// Emit `line` only; followers never publish.
    Emit { line: String },
    /// Report a non-fatal watcher error and keep waiting.
    Note { message: String },
    /// Nothing to do.
    Skip,
    /// Stop the process; `failure` selects the exit status.
    Stop { failure: bool },
}

/// What the leader loop receives: a freshly recomputed snapshot after a
/// change signal, a watcher error, or a closed channel.
pub enum LeaderEvent {
    Recomputed(GitStatus),
    WatcherError(String),
    ChannelClosed,
}

/// What the follower loop receives: the content of the shared state
/// resource after a change signal (`None` when momentarily unreadable), a
/// watcher error, or a closed channel.
pub enum FollowerEvent {
    StateChanged(Option<String>),
    WatcherError(String),
    ChannelClosed,
}

/// The deduplication rule shared by both loops: emit when configured to
/// always print, or when the snapshot differs from the last one emitted.
pub open spec fn spec_should_emit(
    last: Option<StatusView>,
    next: StatusView,
    always_print: bool,
) -> bool {
    always_print || last != Some(next)
}

/// Leader reaction to a recomputed snapshot: the next core state, and the
/// emission — rendered line and encoded payload — if there is one.
pub open spec fn spec_leader_publish(c: CoreView, s: StatusView) -> (CoreView, Option<
    (Seq<char>, Seq<char>),
>) {
    if spec_should_emit(c.last, s, c.always_print) {
        (
            CoreView { last: Some(s), ..c },
            Some((spec_format_output(s, c.template), spec_encode(s))),
        )
    } else {
        (c, None)
    }
}

/// Follower reaction to a read of the shared state resource: unreadable
/// or undecodable content is "no update yet"; otherwise the same
/// deduplication as the leader.
pub open spec fn spec_follower_update(c: CoreView, content: Option<Seq<char>>) -> (CoreView, Option<
    Seq<char>,
>) {
    match content {
        None => (c, None),
        Some(text) => match spec_decode(text) {
            None => (c, None),
            Some(s) => if spec_should_emit(c.last, s, c.always_print) {
                (CoreView { last: Some(s), ..c }, Some(spec_format_output(s, c.template)))
            } else {
                (c, None)
            },
        },
    }
}

/// Startup reaction of a follower: a readable, decodable resource is
/// emitted unconditionally and remembered; anything else is skipped.
pub open spec fn spec_follower_boot(c: CoreView, content: Option<Seq<char>>) -> (CoreView, Option<
    Seq<char>,
>) {
    match content {
        None => (c, None),
        Some(text) => match spec_decode(text) {
            None => (c, None),
            Some(s) => (CoreView { last: Some(s), ..c }, Some(spec_format_output(s, c.template))),
        },
    }
}

impl LoopCore {
    /// A fresh loop core; nothing has been emitted yet.
    pub fn new(always_print: bool, template: Option<String>) -> (r: LoopCore)
        ensures
            r@.always_print == always_print,
            r@.template == (match template {
                Some(t) => Some(t@),
                None => None::<Seq<char>>,
            }),
            r@.last is None,
    {
        LoopCore { always_print, template, last: None }
    }

    fn template_ref(&self) -> (t: Option<&str>)
        ensures
            t matches Some(s) ==> self@.template == Some(s@),
            t is None ==> self@.template is None,
    {
        match &self.template {
            Some(s) => Some(s.as_str()),
            None => None,
        }
    }

    /// Startup publication of the leader: the first snapshot is always
    /// published and emitted, and becomes the last-emitted value.
    pub fn leader_init(&mut self, status: GitStatus) -> (a: StepAction)
        ensures
            final(self)@ == (CoreView { last: Some(status@), ..old(self)@ }),
            a matches StepAction::Publish { line, payload } && line@ == spec_format_output(
                status@,
                old(self)@.template,
            ) && payload@ == spec_encode(status@),
    {
        let payload = encode_snapshot(&status);
        let line = format_output(&status, self.template_ref());
        self.last = Some(status);
        StepAction::Publish { line, payload }
    }

    /// One leader transition: a recomputed snapshot is published and
    /// emitted exactly when the deduplication rule says so; watcher
    /// errors are reported and absorbed; a closed channel stops the
    /// process with failure.
    pub fn leader_step(&mut self, ev: LeaderEvent) -> (a: StepAction)
        ensures
            ev matches LeaderEvent::Recomputed(s) ==> ({
                let (c2, em) = spec_leader_publish(old(self)@, s@);
                &&& final(self)@ == c2
                &&& (match em {
                    Some(lp) => a matches StepAction::Publish { line, payload } && line@ == lp.0
                        && payload@ == lp.1,
                    None => a is Skip,
                })
            }),
            ev matches LeaderEvent::WatcherError(m) ==> final(self)@ == old(self)@ && (
            a matches StepAction::Note { message } && message@ == m@),
            ev is ChannelClosed ==> final(self)@ == old(self)@ && (a matches StepAction::Stop {
                failure,
            } && failure == true),
    {
        match ev {
            LeaderEvent::Recomputed(s) => {
                let same = match &self.last {
                    Some(l) => *l == s,
                    None => false,
                };
                if self.always_print || !same {
                    let payload = encode_snapshot(&s);
                    let line = format_output(&s, self.template_ref());
                    self.last = Some(s);
                    proof {
                        assert(final(self)@ =~= spec_leader_publish(old(self)@, s@).0);
                    }
                    StepAction::Publish { line, payload }
                } else {
                    StepAction::Skip
                }
            },
            LeaderEvent::WatcherError(m) => StepAction::Note { message: m },
            LeaderEvent::ChannelClosed => StepAction::Stop { failure: true },
        }
    }

    /// Startup read of a follower: emit whatever complete snapshot the
    /// shared state resource currently holds, if any.
    pub fn follower_init(&mut self, content: Option<String>) -> (a: StepAction)
        ensures
            ({
                let cv = match content {
                    Some(c) => Some(c@),
                    None => None::<Seq<char>>,
                };
                let (c2, em) = spec_follower_boot(old(self)@, cv);
                &&& final(self)@ == c2
                &&& (match em {
                    Some(l) => a matches StepAction::Emit { line } && line@ == l,
                    None => a is Skip,
                })
            }),
    {
        match content {
            None => StepAction::Skip,
            Some(text) => {
                match decode_snapshot(text.as_str()) {
                    None => StepAction::Skip,
                    Some(g) => {
                        let line = format_output(&g, self.template_ref());
                        self.last = Some(g);
                        proof {
                            assert(final(self)@ =~= spec_follower_boot(
                                old(self)@,
                                Some(text@),
                            ).0);
                        }
                        StepAction::Emit { line }
                    },
                }
            },
        }
    }

    /// One follower transition: a re-read of the shared state resource is
    /// deduplicated exactly as the leader's recomputation; read and parse
    /// failures are silently skipped (a reader may race the atomic
    /// replacement); watcher errors and channel closure behave as in the
    /// leader loop.
    pub fn follower_step(&mut self, ev: FollowerEvent) -> (a: StepAction)
        ensures
            ev matches FollowerEvent::StateChanged(content) ==> ({
                let cv = match content {
                    Some(c) => Some(c@),
                    None => None::<Seq<char>>,
                };
                let (c2, em) = spec_follower_update(old(self)@, cv);
                &&& final(self)@ == c2
                &&& (match em {
                    Some(l) => a matches StepAction::Emit { line } && line@ == l,
                    None => a is Skip,
                })
            }),
            ev matches FollowerEvent::WatcherError(m) ==> final(self)@ == old(self)@ && (
            a matches StepAction::Note { message } && message@ == m@),
            ev is ChannelClosed ==> final(self)@ == old(self)@ && (a matches StepAction::Stop {
                failure,
            } && failure == true),
    {
        match ev {
            FollowerEvent::StateChanged(content) => {
                match content {
                    None => StepAction::Skip,
                    Some(text) => {
                        match decode_snapshot(text.as_str()) {
                            None => StepAction::Skip,
                            Some(g) => {
                                let same = match &self.last {
                                    Some(l) => *l == g,
                                    None => false,
                                };
                                if self.always_print || !same {
                                    let line = format_output(&g, self.template_ref());
                                    self.last = Some(g);
                                    proof {
                                        assert(final(self)@ =~= spec_follower_update(
                                            old(self)@,
                                            Some(text@),
                                        ).0);
                                    }
                                    StepAction::Emit { line }
                                } else {
                                    StepAction::Skip
                                }
                            },
                        }
                    },
                }
            },
            FollowerEvent::WatcherError(m) => StepAction::Note { message: m },
            FollowerEvent::ChannelClosed => StepAction::Stop { failure: true },
        }
    }
}

/// With deduplication active, two consecutive leader emissions always
/// carry different snapshots.
pub proof fn lemma_dedup_consecutive(c: CoreView, s1: StatusView, s2: StatusView)
    requires
        !c.always_print,
        spec_leader_publish(c, s1).1 is Some,
        spec_leader_publish(spec_leader_publish(c, s1).0, s2).1 is Some,
    ensures
        s1 != s2,
{
}

/// With deduplication active, two consecutive leader publications carry
/// different payloads: what reaches the shared state resource never
/// repeats.
pub proof fn lemma_dedup_payloads(c: CoreView, s1: StatusView, s2: StatusView)
    requires
        !c.always_print,
        snapshot_wf(s1),
        snapshot_wf(s2),
        spec_leader_publish(c, s1).1 is Some,
        spec_leader_publish(spec_leader_publish(c, s1).0, s2).1 is Some,
    ensures
        (spec_leader_publish(c, s1).1->0).1 != (spec_leader_publish(
            spec_leader_publish(c, s1).0,
            s2,
        ).1->0).1,
{
    lemma_dedup_consecutive(c, s1, s2);
    crate::codec::lemma_encode_injective(s1, s2);
}

/// With deduplication active, two consecutive emitted lines differ
/// whenever the configured rendering tells the two snapshots apart.  (A
/// lossy template may render distinct snapshots alike; the rule
/// deduplicates snapshots, not their renderings.)
pub proof fn lemma_dedup_lines(c: CoreView, s1: StatusView, s2: StatusView)
    requires
        !c.always_print,
        spec_leader_publish(c, s1).1 is Some,
        spec_leader_publish(spec_leader_publish(c, s1).0, s2).1 is Some,
        spec_format_output(s1, c.template) == spec_format_output(s2, c.template) ==> s1 == s2,
    ensures
        (spec_leader_publish(c, s1).1->0).0 != (spec_leader_publish(
            spec_leader_publish(c, s1).0,
            s2,
        ).1->0).0,
{
    lemma_dedup_consecutive(c, s1, s2);
}

/// With deduplication active, two consecutive follower emissions decode
/// from contents that denote different snapshots.
pub proof fn lemma_follower_dedup(c: CoreView, t1: Seq<char>, t2: Seq<char>)
    requires
        !c.always_print,
        spec_follower_update(c, Some(t1)).1 is Some,
        spec_follower_update(spec_follower_update(c, Some(t1)).0, Some(t2)).1 is Some,
    ensures
        spec_decode(t1) != spec_decode(t2),
{
}

/// A recomputation that reproduces the snapshot just processed is never
/// emitted again: the loop's own side effects cannot sustain a refresh
/// loop once the drain has coalesced them into one extra recomputation.
pub proof fn lemma_feedback_suppressed(c: CoreView, s: StatusView)
    requires
        !c.always_print,
    ensures
        spec_leader_publish(spec_leader_publish(c, s).0, s).1 is None,
{
}

/// What the leader publishes is exactly what any follower that reads it
/// converges to: the payload decodes to the published snapshot, and after
/// processing it the follower's last-emitted value is that snapshot.
pub proof fn lemma_published_reaches_follower(lc: CoreView, fc: CoreView, s: StatusView)
    requires
        snapshot_wf(s),
        spec_leader_publish(lc, s).1 is Some,
    ensures
        spec_decode((spec_leader_publish(lc, s).1->0).1) == Some(s),
        spec_follower_update(fc, Some((spec_leader_publish(lc, s).1->0).1)).0.last == Some(s),
{
    crate::codec::lemma_decode_of_encode(s);
}

} // verus!
