//! One reconciliation round of the unfocused-mute feature. The reads and
//! mute calls on Windows sessions are handed in by the caller; the round
//! decides with the plans of `unfocused_mute` and applies each outcome to
//! the state with its step functions.
use vstd::prelude::*;

use crate::device::AudioSession;
use crate::unfocused_mute::{
    activity_plan, pending_restore_plan, restore_pending_plan, restore_step_outcome, session_for_pid,
    session_needs_mute, tracked_entry_plan, tracked_mute_call, PendingRestoreAction, RestoreEntry,
    RestoreStep, RuntimeState, TrackedPlan,
};

verus! {

/// A mute call the round made: the process, the endpoint (empty: every
/// endpoint) and the state set.
#[derive(Debug)]
pub struct MuteCall {
    pub pid: u32,
    pub device_id: String,
    pub muted: bool,
}

/// The call puts the session of record `e` back to its recorded state.
pub open spec fn restores(e: RestoreEntry, c: MuteCall) -> bool {
    c.pid == e.pid && c.device_id@ == e.device_id@ && c.muted == e.was_muted
}

/// `e` is one of the records.
pub open spec fn among(records: Seq<RestoreEntry>, e: RestoreEntry) -> bool {
    exists|j: int| 0 <= j < records.len() && records[j] == e
}

/// The call restores one of the records, current or pending, of `state`.
pub open spec fn restores_a_record(state: RuntimeState, c: MuteCall) -> bool {
    ||| exists|j: int| 0 <= j < state.auto_muted@.len() && restores(#[trigger] state.auto_muted@[j], c)
    ||| exists|j: int|
        0 <= j < state.pending_restores@.len() && restores(#[trigger] state.pending_restores@[j], c)
}

/// What a round does while the feature is paused: it only releases. Every
/// record left was there before (no process gains a record), every pending
/// record left was pending before, and every call made puts a recorded
/// session back to its recorded state.
pub open spec fn only_releases(before: RuntimeState, after: RuntimeState, calls: Seq<MuteCall>) -> bool {
    &&& after.auto_muted@.len() <= before.auto_muted@.len()
    &&& after.pending_restores@.len() <= before.pending_restores@.len()
    &&& forall|k: int|
        0 <= k < after.auto_muted@.len() ==> among(before.auto_muted@, #[trigger] after.auto_muted@[k])
    &&& forall|k: int|
        0 <= k < after.pending_restores@.len() ==> among(
            before.pending_restores@,
            #[trigger] after.pending_restores@[k],
        )
    &&& forall|k: int| 0 <= k < calls.len() ==> restores_a_record(before, #[trigger] calls[k])
}

/// `state` holds no more records, current or pending, than `start`, and
/// only records of `start`.
pub open spec fn within(start: RuntimeState, state: RuntimeState) -> bool {
    &&& state.auto_muted@.len() <= start.auto_muted@.len()
    &&& state.pending_restores@.len() <= start.pending_restores@.len()
    &&& forall|k: int|
        0 <= k < state.auto_muted@.len() ==> among(start.auto_muted@, #[trigger] state.auto_muted@[k])
    &&& forall|k: int|
        0 <= k < state.pending_restores@.len() ==> among(
            start.pending_restores@,
            #[trigger] state.pending_restores@[k],
        )
}

/// Removing an element keeps every other element of a sequence.
proof fn lemma_remove_keeps(s: Seq<RestoreEntry>, i: int, k: int)
    requires
        0 <= i < s.len(),
        0 <= k < s.len() - 1,
    ensures
        among(s, s.remove(i)[k]),
{
    if k < i {
        assert(s.remove(i)[k] == s[k]);
    } else {
        assert(s.remove(i)[k] == s[k + 1]);
    }
}

/// Membership carries over from a subset.
proof fn lemma_among_trans(start: Seq<RestoreEntry>, s: Seq<RestoreEntry>, e: RestoreEntry)
    requires
        among(s, e),
        forall|k: int| 0 <= k < s.len() ==> among(start, #[trigger] s[k]),
    ensures
        among(start, e),
{
    let j = choose|j: int| 0 <= j < s.len() && s[j] == e;
    assert(among(start, s[j]));
}

/// Runs one round over the sessions Windows reports now (each selected
/// application's session already taken on the endpoint it really plays
/// on). `read_state` reads the mute state of a record's session (`None`: the
/// read failed; `Some(None)`: the session is gone), `set_mute` sets the mute
/// state of a process on an endpoint (empty: every endpoint) and tells
/// whether it succeeded, and `is_active` asks whether a process still plays
/// on an endpoint. Returns whether the records changed, and the mute calls
/// made, in order.
pub fn reconcile<V, R, S, A>(
    state: &mut RuntimeState,
    foreground_key: Option<String>,
    sessions: &[AudioSession<V>],
    read_state: &R,
    set_mute: &S,
    is_active: &A,
) -> (res: (bool, Vec<MuteCall>)) where
    R: Fn(&RestoreEntry) -> Option<Option<bool>>,
    S: Fn(u32, &str, bool) -> bool,
    A: Fn(&str, u32) -> Option<Option<bool>>,

    requires
        old(state).wf(),
        forall|e: &RestoreEntry| #[trigger] call_requires(*read_state, (e,)),
        forall|p: u32, d: &str, m: bool| #[trigger] call_requires(*set_mute, (p, d, m)),
        forall|d: &str, p: u32| #[trigger] call_requires(*is_active, (d, p)),
    ensures
        final(state).wf(),
        final(state).applications == old(state).applications,
        final(state).paused == old(state).paused,
        final(state).foreground_key == foreground_key,
        old(state).paused ==> only_releases(*old(state), *final(state), res.1@),
{
    let ghost start = *state;
    let ghost fg = foreground_key;
    state.begin_round(foreground_key);
    proof {
        assert forall|k: int| 0 <= k < state.auto_muted@.len() implies among(
            start.auto_muted@,
            #[trigger] state.auto_muted@[k],
        ) by {
            assert(start.auto_muted@[k] == state.auto_muted@[k]);
        }
        assert forall|k: int| 0 <= k < state.pending_restores@.len() implies among(
            start.pending_restores@,
            #[trigger] state.pending_restores@[k],
        ) by {
            assert(start.pending_restores@[k] == state.pending_restores@[k]);
        }
    }
    let mut changed = false;
    let mut calls: Vec<MuteCall> = Vec::new();
    let mut pids: Vec<u32> = Vec::new();
    let mut n: usize = 0;
    while n < state.auto_muted.len()
        invariant
            n <= state.auto_muted@.len(),
        decreases state.auto_muted@.len() - n,
    {
        pids.push(state.auto_muted[n].pid);
        n += 1;
    }
    let mut n: usize = 0;
    while n < pids.len()
        invariant
            state.wf(),
            state.applications == start.applications,
            state.paused == start.paused,
            state.foreground_key == fg,
            start.paused ==> within(start, *state),
            start.paused ==> state.pending_restores == start.pending_restores,
            start.paused ==> forall|k: int| 0 <= k < calls@.len() ==> restores_a_record(start, #[trigger] calls@[k]),
            forall|e: &RestoreEntry| #[trigger] call_requires(*read_state, (e,)),
            forall|p: u32, d: &str, m: bool| #[trigger] call_requires(*set_mute, (p, d, m)),
        decreases pids@.len() - n,
    {
        let pid = pids[n];
        if let Some(i) = state.find_record(pid) {
            let entry = state.auto_muted[i].duplicate();
            let current = session_for_pid(sessions, pid);
            let observed = read_state(&entry);
            let plan = tracked_entry_plan(state, &entry, current, observed);
            let skip = match plan {
                TrackedPlan::HandOff { .. } => current.is_none(),
                _ => false,
            };
            if !skip {
                let call = tracked_mute_call(plan);
                let ghost before_calls = calls@;
                let call_ok = match call {
                    None => true,
                    Some(m) => {
                        let (p, d) = match plan {
                            TrackedPlan::HandOff { .. } => {
                                let t = current.unwrap();
                                (t.pid, t.device_id.clone())
                            },
                            _ => (entry.pid, entry.device_id.clone()),
                        };
                        let ok = set_mute(p, d.as_str(), m);
                        let c = MuteCall { pid: p, device_id: d, muted: m };
                        proof {
                            if start.paused {
                                assert(!state.keeps_muted(entry.key@));
                                assert(plan is Release);
                                assert(restores(entry, c));
                                assert(among(start.auto_muted@, state.auto_muted@[i as int]));
                                let j = choose|j: int|
                                    0 <= j < start.auto_muted@.len() && start.auto_muted@[j]
                                        == state.auto_muted@[i as int];
                                assert(restores(start.auto_muted@[j], c));
                            }
                        }
                        calls.push(c);
                        proof {
                            if start.paused {
                                assert forall|k: int| 0 <= k < calls@.len() implies restores_a_record(
                                    start,
                                    #[trigger] calls@[k],
                                ) by {
                                    if k < before_calls.len() {
                                        assert(calls@[k] == before_calls[k]);
                                    }
                                }
                            }
                        }
                        ok
                    },
                };
                changed = changed || match plan {
                    TrackedPlan::Retry => false,
                    TrackedPlan::KeepMuted { mute } => mute && call_ok,
                    _ => call.is_none() || call_ok,
                };
                let ghost prior = *state;
                state.after_tracked(pid, plan, current, call_ok);
                proof {
                    if start.paused {
                        assert(plan is Retry || plan is Release);
                        if *state != prior {
                            let idx = pid_index_of(prior, pid);
                            assert forall|k: int| 0 <= k < state.auto_muted@.len() implies among(
                                start.auto_muted@,
                                #[trigger] state.auto_muted@[k],
                            ) by {
                                lemma_remove_keeps(prior.auto_muted@, idx, k);
                                lemma_among_trans(start.auto_muted@, prior.auto_muted@, state.auto_muted@[k]);
                            }
                        }
                    }
                }
            }
        }
        n += 1;
    }
    let mut s: usize = 0;
    while s < sessions.len()
        invariant
            state.wf(),
            state.applications == start.applications,
            state.paused == start.paused,
            state.foreground_key == fg,
            start.paused ==> within(start, *state),
            start.paused ==> forall|k: int| 0 <= k < calls@.len() ==> restores_a_record(start, #[trigger] calls@[k]),
            forall|p: u32, d: &str, m: bool| #[trigger] call_requires(*set_mute, (p, d, m)),
        decreases sessions@.len() - s,
    {
        let session = &sessions[s];
        if session_needs_mute(state, session) {
            let mut call_ok = false;
            if !session.muted {
                call_ok = set_mute(session.pid, session.device_id.as_str(), true);
                calls.push(MuteCall { pid: session.pid, device_id: session.device_id.clone(), muted: true });
            }
            changed = changed || session.muted || call_ok;
            state.after_mute(session, call_ok);
        }
        s += 1;
    }
    let mut index: usize = 0;
    while index < state.pending_restores.len()
        invariant
            index <= state.pending_restores@.len(),
            state.wf(),
            state.applications == start.applications,
            state.paused == start.paused,
            state.foreground_key == fg,
            start.paused ==> within(start, *state),
            start.paused ==> forall|k: int| 0 <= k < calls@.len() ==> restores_a_record(start, #[trigger] calls@[k]),
            forall|e: &RestoreEntry| #[trigger] call_requires(*read_state, (e,)),
            forall|p: u32, d: &str, m: bool| #[trigger] call_requires(*set_mute, (p, d, m)),
            forall|d: &str, p: u32| #[trigger] call_requires(*is_active, (d, p)),
        decreases state.pending_restores@.len() - index,
    {
        let ghost prior = *state;
        if state.pending_covered(index) {
            state.drop_pending(index);
            changed = true;
            proof {
                if start.paused {
                    assert forall|k: int| 0 <= k < state.pending_restores@.len() implies among(
                        start.pending_restores@,
                        #[trigger] state.pending_restores@[k],
                    ) by {
                        lemma_remove_keeps(prior.pending_restores@, index as int, k);
                        lemma_among_trans(
                            start.pending_restores@,
                            prior.pending_restores@,
                            state.pending_restores@[k],
                        );
                    }
                }
            }
        } else {
            let entry = state.pending_restores[index].duplicate();
            let observed = read_state(&entry);
            let keep = state.should_keep_muted(entry.key.as_str());
            let mut step = if keep {
                pending_restore_plan(&entry, observed)
            } else {
                restore_pending_plan(&entry, observed)
            };
            if let RestoreStep::CheckActivity { muted_now } = step {
                let active = is_active(entry.device_id.as_str(), entry.pid);
                step = activity_plan(muted_now, active);
            }
            let action = match step {
                RestoreStep::Finish(a) => a,
                RestoreStep::SetMute { muted, .. } => {
                    let ok = set_mute(entry.pid, entry.device_id.as_str(), muted);
                    let c = MuteCall { pid: entry.pid, device_id: entry.device_id.clone(), muted };
                    let ghost before_calls = calls@;
                    proof {
                        if start.paused {
                            assert(!keep);
                            assert(restores(entry, c));
                            assert(among(start.pending_restores@, state.pending_restores@[index as int]));
                            let j = choose|j: int|
                                0 <= j < start.pending_restores@.len() && start.pending_restores@[j]
                                    == state.pending_restores@[index as int];
                            assert(restores(start.pending_restores@[j], c));
                        }
                    }
                    calls.push(c);
                    proof {
                        if start.paused {
                            assert forall|k: int| 0 <= k < calls@.len() implies restores_a_record(
                                start,
                                #[trigger] calls@[k],
                            ) by {
                                if k < before_calls.len() {
                                    assert(calls@[k] == before_calls[k]);
                                }
                            }
                        }
                    }
                    match restore_step_outcome(step, ok) {
                        Some(a) => a,
                        None => PendingRestoreAction::Keep,
                    }
                },
                RestoreStep::CheckActivity { .. } => PendingRestoreAction::Keep,
            };
            state.after_pending(index, action);
            if action == PendingRestoreAction::RestoredOrGone {
                changed = true;
                proof {
                    if start.paused {
                        assert forall|k: int| 0 <= k < state.pending_restores@.len() implies among(
                            start.pending_restores@,
                            #[trigger] state.pending_restores@[k],
                        ) by {
                            lemma_remove_keeps(prior.pending_restores@, index as int, k);
                            lemma_among_trans(
                                start.pending_restores@,
                                prior.pending_restores@,
                                state.pending_restores@[k],
                            );
                        }
                    }
                }
            } else {
                index += 1;
            }
        }
    }
    (changed, calls)
}

/// The position of the record of `pid` in a state.
pub open spec fn pid_index_of(state: RuntimeState, pid: u32) -> int {
    crate::unfocused_mute::pid_index(state.auto_muted@, pid)->0
}

/// Restoring one record at exit: the step its state asks for, then the
/// outcome once the call (if any) is made. Returns the outcome and the call.
fn restore_one<R, S>(entry: &RestoreEntry, read_state: &R, set_mute: &S) -> (res: (
    PendingRestoreAction,
    Option<MuteCall>,
)) where R: Fn(&RestoreEntry) -> Option<Option<bool>>, S: Fn(u32, &str, bool) -> bool,
    requires
        forall|e: &RestoreEntry| #[trigger] call_requires(*read_state, (e,)),
        forall|p: u32, d: &str, m: bool| #[trigger] call_requires(*set_mute, (p, d, m)),
    ensures
        res.1 matches Some(c) ==> restores(*entry, c),
{
    let observed = read_state(entry);
    let step = restore_pending_plan(entry, observed);
    match step {
        RestoreStep::SetMute { muted, .. } => {
            let ok = set_mute(entry.pid, entry.device_id.as_str(), muted);
            let c = MuteCall { pid: entry.pid, device_id: entry.device_id.clone(), muted };
            let a = match restore_step_outcome(step, ok) {
                Some(a) => a,
                None => PendingRestoreAction::Keep,
            };
            (a, Some(c))
        },
        RestoreStep::Finish(a) => (a, None),
        RestoreStep::CheckActivity { .. } => (PendingRestoreAction::Keep, None),
    }
}

/// Puts every session the feature changed back, before the program exits:
/// each record, current or pending, is restored to its recorded state and
/// dropped once that is done or its session is gone; records whose state
/// could not be read or set stay. Returns the mute calls made, in order;
/// each puts a recorded session back, and no record is added.
pub fn restore_all<R, S>(state: &mut RuntimeState, read_state: &R, set_mute: &S) -> (res: Vec<MuteCall>) where
    R: Fn(&RestoreEntry) -> Option<Option<bool>>,
    S: Fn(u32, &str, bool) -> bool,

    requires
        old(state).wf(),
        forall|e: &RestoreEntry| #[trigger] call_requires(*read_state, (e,)),
        forall|p: u32, d: &str, m: bool| #[trigger] call_requires(*set_mute, (p, d, m)),
    ensures
        final(state).wf(),
        final(state).same_settings(old(state)),
        only_releases(*old(state), *final(state), res@),
{
    let ghost start = *state;
    proof {
        assert forall|k: int| 0 <= k < state.auto_muted@.len() implies among(
            start.auto_muted@,
            #[trigger] state.auto_muted@[k],
        ) by {
            assert(start.auto_muted@[k] == state.auto_muted@[k]);
        }
        assert forall|k: int| 0 <= k < state.pending_restores@.len() implies among(
            start.pending_restores@,
            #[trigger] state.pending_restores@[k],
        ) by {
            assert(start.pending_restores@[k] == state.pending_restores@[k]);
        }
    }
    let mut calls: Vec<MuteCall> = Vec::new();
    let mut pids: Vec<u32> = Vec::new();
    let mut n: usize = 0;
    while n < state.auto_muted.len()
        invariant
            n <= state.auto_muted@.len(),
        decreases state.auto_muted@.len() - n,
    {
        pids.push(state.auto_muted[n].pid);
        n += 1;
    }
    let mut n: usize = 0;
    while n < pids.len()
        invariant
            state.wf(),
            state.same_settings(&start),
            within(start, *state),
            state.pending_restores == start.pending_restores,
            forall|k: int| 0 <= k < calls@.len() ==> restores_a_record(start, #[trigger] calls@[k]),
            forall|e: &RestoreEntry| #[trigger] call_requires(*read_state, (e,)),
            forall|p: u32, d: &str, m: bool| #[trigger] call_requires(*set_mute, (p, d, m)),
        decreases pids@.len() - n,
    {
        let pid = pids[n];
        if let Some(i) = state.find_record(pid) {
            let entry = state.auto_muted[i].duplicate();
            let (action, call) = restore_one(&entry, read_state, set_mute);
            if let Some(c) = call {
                let ghost before_calls = calls@;
                proof {
                    assert(among(start.auto_muted@, state.auto_muted@[i as int]));
                    let j = choose|j: int|
                        0 <= j < start.auto_muted@.len() && start.auto_muted@[j] == state.auto_muted@[i as int];
                    assert(restores(start.auto_muted@[j], c));
                }
                calls.push(c);
                proof {
                    assert forall|k: int| 0 <= k < calls@.len() implies restores_a_record(
                        start,
                        #[trigger] calls@[k],
                    ) by {
                        if k < before_calls.len() {
                            assert(calls@[k] == before_calls[k]);
                        }
                    }
                }
            }
            if action == PendingRestoreAction::RestoredOrGone {
                let ghost prior = *state;
                state.forget(pid);
                proof {
                    let idx = pid_index_of(prior, pid);
                    assert forall|k: int| 0 <= k < state.auto_muted@.len() implies among(
                        start.auto_muted@,
                        #[trigger] state.auto_muted@[k],
                    ) by {
                        lemma_remove_keeps(prior.auto_muted@, idx, k);
                        lemma_among_trans(start.auto_muted@, prior.auto_muted@, state.auto_muted@[k]);
                    }
                }
            }
        }
        n += 1;
    }
    let mut index: usize = 0;
    while index < state.pending_restores.len()
        invariant
            index <= state.pending_restores@.len(),
            state.wf(),
            state.same_settings(&start),
            within(start, *state),
            forall|k: int| 0 <= k < calls@.len() ==> restores_a_record(start, #[trigger] calls@[k]),
            forall|e: &RestoreEntry| #[trigger] call_requires(*read_state, (e,)),
            forall|p: u32, d: &str, m: bool| #[trigger] call_requires(*set_mute, (p, d, m)),
        decreases state.pending_restores@.len() - index,
    {
        let entry = state.pending_restores[index].duplicate();
        let (action, call) = restore_one(&entry, read_state, set_mute);
        if let Some(c) = call {
            let ghost before_calls = calls@;
            proof {
                assert(among(start.pending_restores@, state.pending_restores@[index as int]));
                let j = choose|j: int|
                    0 <= j < start.pending_restores@.len() && start.pending_restores@[j]
                        == state.pending_restores@[index as int];
                assert(restores(start.pending_restores@[j], c));
            }
            calls.push(c);
            proof {
                assert forall|k: int| 0 <= k < calls@.len() implies restores_a_record(
                    start,
                    #[trigger] calls@[k],
                ) by {
                    if k < before_calls.len() {
                        assert(calls@[k] == before_calls[k]);
                    }
                }
            }
        }
        if action == PendingRestoreAction::RestoredOrGone {
            let ghost prior = *state;
            state.drop_pending(index);
            proof {
                assert forall|k: int| 0 <= k < state.pending_restores@.len() implies among(
                    start.pending_restores@,
                    #[trigger] state.pending_restores@[k],
                ) by {
                    lemma_remove_keeps(prior.pending_restores@, index as int, k);
                    lemma_among_trans(start.pending_restores@, prior.pending_restores@, state.pending_restores@[k]);
                }
            }
        } else {
            index += 1;
        }
    }
    calls
}

/// Milliseconds between two rounds while the foreground stays the same.
pub const SESSION_REFRESH_MS: u64 = 1500;

/// Milliseconds between two looks at the foreground window.
pub const FOREGROUND_POLL_MS: u64 = 150;

/// What the monitor remembers between two looks at the foreground window.
#[derive(Debug, Clone, Copy, PartialEq, Eq, Structural)]
pub struct PollState {
    /// Process of the foreground window at the last look (`u32::MAX` before
    /// the first one).
    pub previous_foreground_pid: u32,
    /// When the last round started, if one did.
    pub last_refresh_ms: Option<u64>,
}

/// What to do after one look at the foreground window.
#[derive(Debug, Clone, Copy, PartialEq, Eq, Structural)]
pub struct PollDecision {
    /// The foreground process changed: read its application key again.
    pub foreground_changed: bool,
    /// Run a round now.
    pub reconcile: bool,
}

/// A round is due when none ran yet or the refresh interval has passed.
pub open spec fn refresh_due(last_refresh_ms: Option<u64>, now_ms: u64) -> bool {
    match last_refresh_ms {
        None => true,
        Some(l) => now_ms >= l && now_ms - l >= SESSION_REFRESH_MS,
    }
}

impl PollState {
    /// The state before the first look: any foreground counts as a change.
    pub fn new() -> (res: Self)
        ensures
            res.previous_foreground_pid == u32::MAX,
            res.last_refresh_ms is None,
    {
        PollState { previous_foreground_pid: u32::MAX, last_refresh_ms: None }
    }

    /// One look at the foreground window: a round runs when the foreground
    /// process changed or the refresh interval has passed since the last
    /// round, and then the round's time is remembered.
    pub fn poll(&mut self, foreground_pid: u32, now_ms: u64) -> (res: PollDecision)
        ensures
            res.foreground_changed == (foreground_pid != old(self).previous_foreground_pid),
            res.reconcile == (res.foreground_changed || refresh_due(old(self).last_refresh_ms, now_ms)),
            final(self).previous_foreground_pid == foreground_pid,
            final(self).last_refresh_ms == if res.reconcile {
                Some(now_ms)
            } else {
                old(self).last_refresh_ms
            },
    {
        let foreground_changed = foreground_pid != self.previous_foreground_pid;
        let due = match self.last_refresh_ms {
            None => true,
            Some(l) => now_ms >= l && now_ms - l >= SESSION_REFRESH_MS,
        };
        self.previous_foreground_pid = foreground_pid;
        let reconcile = foreground_changed || due;
        if reconcile {
            self.last_refresh_ms = Some(now_ms);
        }
        PollDecision { foreground_changed, reconcile }
    }
}

} // verus!
