//! Automatic muting of selected applications while they are not in the
//! Windows foreground: application keys, the runtime state that records which
//! sessions were muted by this feature, and the decisions that keep that state
//! consistent with the sessions Windows reports.
use vstd::prelude::*;

use crate::device::{opt_view, session_app_key, session_key, AudioSession};
use crate::settings::UnfocusedMuteApplication;
use crate::str_map::{text_less, StrMap};
use crate::text::{
    chars_of, ends_with_chars, str_equal, string_from_range, strip_suffix_or_keep, trim, trimmed,
};

verus! {

/// What `str::to_lowercase` returns for a text (Unicode lower-case mapping).
pub uninterp spec fn unicode_lowercase(s: Seq<char>) -> Seq<char>;

/// Unicode lower-case form of a string slice.
///
/// Trusted: calls `str::to_lowercase`. The contract only names the result: the
/// Unicode case tables are not restated here; the result depends on the
/// argument alone.
#[verifier::external_body]
fn lowercase(s: &str) -> (res: String)
    ensures
        res@ == unicode_lowercase(s@),
{
    s.to_lowercase()
}

/// The stable key of an application name: trimmed, lower-cased, and without a
/// trailing `.exe`.
pub open spec fn app_key(value: Seq<char>) -> Seq<char> {
    strip_suffix_or_keep(unicode_lowercase(trim(value)), ".exe"@)
}

/// Normalises a process or display name to the key used to match sessions,
/// settings and restore records.
pub fn normalize_app_key(value: &str) -> (res: String)
    ensures
        res@ == app_key(value@),
{
    let trimmed_value = trimmed(value);
    let lower = lowercase(trimmed_value.as_str());
    strip_exe_suffix(lower.as_str())
}

/// Removes one trailing `.exe` from an already lower-cased name.
pub fn strip_exe_suffix(lower: &str) -> (res: String)
    ensures
        res@ == strip_suffix_or_keep(lower@, ".exe"@),
{
    let chars = chars_of(lower);
    let suffix = chars_of(".exe");
    if ends_with_chars(chars.as_slice(), suffix.as_slice()) {
        string_from_range(chars.as_slice(), 0, chars.len() - suffix.len())
    } else {
        String::from_str(lower)
    }
}


// ---------------------------------------------------------------------------
// Restore records and the runtime state
// ---------------------------------------------------------------------------

/// What the feature remembers about a session it muted: the state to put
/// back (`was_muted`) and where. An empty `device_id` comes from records of
/// older versions and matches the session on any endpoint. A pending record
/// belongs to an endpoint the application left; it stays muted there until
/// it can be restored.
#[derive(Debug)]
pub struct RestoreEntry {
    pub pid: u32,
    pub key: String,
    pub device_id: String,
    pub was_muted: bool,
    pub pending_restore: bool,
}

impl RestoreEntry {
    /// A field-by-field copy.
    pub fn duplicate(&self) -> (res: Self)
        ensures
            res == *self,
    {
        RestoreEntry {
            pid: self.pid,
            key: self.key.clone(),
            device_id: self.device_id.clone(),
            was_muted: self.was_muted,
            pending_restore: self.pending_restore,
        }
    }
}

/// A record refers to a session when process, application and (for records
/// that name one) endpoint agree.
pub open spec fn entry_matches<V>(entry: RestoreEntry, session: AudioSession<V>) -> bool {
    &&& entry.pid == session.pid
    &&& entry.key@ == session_key(session)
    &&& (entry.device_id@.len() == 0 || entry.device_id@ == session.device_id@)
}

/// Whether a restore record refers to the given session.
pub fn restore_entry_matches_session<V>(entry: &RestoreEntry, session: &AudioSession<V>) -> (r: bool)
    ensures
        r == entry_matches(*entry, *session),
{
    if entry.pid != session.pid {
        return false;
    }
    let key = session_app_key(session);
    if entry.key != key {
        return false;
    }
    chars_of(entry.device_id.as_str()).len() == 0 || entry.device_id == session.device_id
}

/// The mute state of the first session a record refers to, if any.
pub open spec fn entry_session_state<V>(entry: RestoreEntry, sessions: Seq<AudioSession<V>>) -> Option<
    bool,
>
    decreases sessions.len(),
{
    if sessions.len() == 0 {
        None
    } else if entry_matches(entry, sessions[0]) {
        Some(sessions[0].muted)
    } else {
        entry_session_state(entry, sessions.drop_first())
    }
}

/// Reads, among the sessions of the record's endpoint, the mute state of
/// the session a record refers to; `None` when that session is gone.
pub fn entry_session_muted<V>(entry: &RestoreEntry, sessions: &[AudioSession<V>]) -> (res: Option<bool>)
    ensures
        res == entry_session_state(*entry, sessions@),
{
    let mut i: usize = 0;
    assert(sessions@.skip(0) =~= sessions@);
    while i < sessions.len()
        invariant
            i <= sessions@.len(),
            entry_session_state(*entry, sessions@) == entry_session_state(*entry, sessions@.skip(i as int)),
        decreases sessions@.len() - i,
    {
        assert(sessions@.skip(i as int)[0] == sessions@[i as int]);
        assert(sessions@.skip(i as int).drop_first() =~= sessions@.skip(i + 1));
        if restore_entry_matches_session(entry, &sessions[i]) {
            return Some(sessions[i].muted);
        }
        i += 1;
    }
    None
}

/// The session Windows reports last for a process (sessions of PID 0, the
/// system sounds, are never tracked).
pub open spec fn last_session_index<V>(sessions: Seq<AudioSession<V>>, pid: u32) -> Option<int>
    decreases sessions.len(),
{
    if pid == 0 || sessions.len() == 0 {
        None
    } else if sessions.last().pid == pid {
        Some(sessions.len() - 1)
    } else {
        last_session_index(sessions.drop_last(), pid)
    }
}

/// The current session of a tracked process.
pub fn session_for_pid<'a, V>(sessions: &'a [AudioSession<V>], pid: u32) -> (res: Option<
    &'a AudioSession<V>,
>)
    ensures
        match last_session_index(sessions@, pid) {
            Some(i) => res is Some && *res->0 == sessions@[i],
            None => res is None,
        },
{
    if pid == 0 {
        return None;
    }
    let mut i: usize = sessions.len();
    assert(sessions@.take(i as int) =~= sessions@);
    while i > 0
        invariant
            i <= sessions@.len(),
            pid != 0,
            last_session_index(sessions@, pid) == last_session_index(sessions@.take(i as int), pid),
        decreases i,
    {
        let ghost t = sessions@.take(i as int);
        assert(t.drop_last() =~= sessions@.take(i - 1));
        assert(t.last() == sessions@[i - 1]);
        if sessions[i - 1].pid == pid {
            return Some(&sessions[i - 1]);
        }
        i -= 1;
    }
    None
}

/// Every record of the list is a pending one.
pub open spec fn all_pending(entries: Seq<RestoreEntry>) -> bool {
    forall|i: int| 0 <= i < entries.len() ==> (#[trigger] entries[i]).pending_restore
}

/// Takes out the first pending record for this process, application and
/// endpoint, answering the state it kept.
fn take_target(pending: &mut Vec<RestoreEntry>, pid: u32, key: &String, device_id: &String) -> (res:
    Option<bool>)
    requires
        all_pending(old(pending)@),
    ensures
        all_pending(final(pending)@),
        match first_target(old(pending)@, pid, key@, device_id@) {
            Some(j) => final(pending)@ == old(pending)@.remove(j) && res == Some(old(pending)@[j].was_muted),
            None => final(pending)@ == old(pending)@ && res is None,
        },
{
    match find_target(pending, pid, key, device_id) {
        Some(j) => {
            let taken = pending.remove(j);
            proof {
                let o = old(pending)@;
                let p = pending@;
                assert forall|k: int| 0 <= k < p.len() implies (#[trigger] p[k]).pending_restore by {
                    if k < j {
                        assert(p[k] == o[k]);
                    } else {
                        assert(p[k] == o[k + 1]);
                    }
                }
            }
            Some(taken.was_muted)
        },
        None => None,
    }
}

/// What the feature keeps while it runs.
pub struct RuntimeState {
    /// Selected applications: key to display name.
    pub applications: StrMap<String>,
    /// Sessions muted now, one record per process.
    pub auto_muted: Vec<RestoreEntry>,
    /// Records of endpoints an application left, waiting to be restored.
    pub pending_restores: Vec<RestoreEntry>,
    /// Key of the foreground application at the last reconciliation.
    pub foreground_key: Option<String>,
    /// Whether automatic muting is paused.
    pub paused: bool,
}

/// The position of the record of a process among current records.
pub open spec fn pid_index(entries: Seq<RestoreEntry>, pid: u32) -> Option<int> {
    if exists|i: int| 0 <= i < entries.len() && #[trigger] entries[i].pid == pid {
        Some(choose|i: int| 0 <= i < entries.len() && #[trigger] entries[i].pid == pid)
    } else {
        None
    }
}

/// The record refers to this process, application and endpoint.
pub open spec fn same_target(e: RestoreEntry, pid: u32, key: Seq<char>, device_id: Seq<char>) -> bool {
    e.pid == pid && e.key@ == key && e.device_id@ == device_id
}

/// The first pending record for this process, application and endpoint.
pub open spec fn first_target(entries: Seq<RestoreEntry>, pid: u32, key: Seq<char>, device_id: Seq<char>) -> Option<int> {
    if exists|i: int| 0 <= i < entries.len() && #[trigger] same_target(entries[i], pid, key, device_id) {
        Some(choose|i: int|
            0 <= i < entries.len() && #[trigger] same_target(entries[i], pid, key, device_id) && forall|j: int|
                0 <= j < i ==> !same_target(#[trigger] entries[j], pid, key, device_id))
    } else {
        None
    }
}

impl RuntimeState {
    /// One current record per process; current records are not pending and
    /// pending ones are.
    pub open spec fn wf(&self) -> bool {
        &&& self.applications.wf()
        &&& forall|i: int, j: int|
            0 <= i < j < self.auto_muted@.len() ==> #[trigger] self.auto_muted@[i].pid
                != #[trigger] self.auto_muted@[j].pid
        &&& forall|i: int|
            0 <= i < self.auto_muted@.len() ==> !(#[trigger] self.auto_muted@[i]).pending_restore
        &&& all_pending(self.pending_restores@)
    }

    /// An application is kept muted when the feature is running, the
    /// application is selected and it is not in the foreground.
    pub open spec fn keeps_muted(&self, key: Seq<char>) -> bool {
        &&& !self.paused
        &&& self.applications.has(key)
        &&& opt_view(self.foreground_key) != Some(key)
    }

    /// The current record of a process.
    pub open spec fn record_of(&self, pid: u32) -> Option<RestoreEntry> {
        match pid_index(self.auto_muted@, pid) {
            Some(i) => Some(self.auto_muted@[i]),
            None => None,
        }
    }

    /// Whether an application is to be kept muted.
    pub fn should_keep_muted(&self, key: &str) -> (r: bool)
        requires
            self.wf(),
        ensures
            r == self.keeps_muted(key@),
    {
        if self.paused || !self.applications.contains_key(key) {
            return false;
        }
        match &self.foreground_key {
            Some(f) => !str_equal(f.as_str(), key),
            None => true,
        }
    }

    /// Position of the current record of a process.
    pub fn find_record(&self, pid: u32) -> (res: Option<usize>)
        requires
            self.wf(),
        ensures
            match res {
                Some(i) => pid_index(self.auto_muted@, pid) == Some(i as int),
                None => pid_index(self.auto_muted@, pid) is None,
            },
    {
        let mut i: usize = 0;
        while i < self.auto_muted.len()
            invariant
                self.wf(),
                i <= self.auto_muted@.len(),
                forall|j: int| 0 <= j < i ==> (#[trigger] self.auto_muted@[j]).pid != pid,
            decreases self.auto_muted@.len() - i,
        {
            if self.auto_muted[i].pid == pid {
                proof {
                    lemma_pid_index(self.auto_muted@, i as int);
                }
                return Some(i);
            }
            i += 1;
        }
        None
    }
}

/// With one record per process, a record's position is the position of its
/// process.
pub proof fn lemma_pid_index(entries: Seq<RestoreEntry>, i: int)
    requires
        0 <= i < entries.len(),
        forall|a: int, b: int|
            0 <= a < b < entries.len() ==> #[trigger] entries[a].pid != #[trigger] entries[b].pid,
    ensures
        pid_index(entries, entries[i].pid) == Some(i),
{
    let pid = entries[i].pid;
    assert(entries[i].pid == pid);
    let j = choose|j: int| 0 <= j < entries.len() && #[trigger] entries[j].pid == pid;
    if j < i {
        assert(entries[j].pid != entries[i].pid);
    } else if i < j {
        assert(entries[i].pid != entries[j].pid);
    }
}

/// What `first_target` picks: the first matching position, or none at all.
pub proof fn lemma_first_target(entries: Seq<RestoreEntry>, pid: u32, key: Seq<char>, device_id: Seq<char>)
    ensures
        match first_target(entries, pid, key, device_id) {
            Some(i) => 0 <= i < entries.len() && same_target(entries[i], pid, key, device_id)
                && forall|j: int| 0 <= j < i ==> !same_target(#[trigger] entries[j], pid, key, device_id),
            None => forall|j: int| 0 <= j < entries.len() ==> !same_target(#[trigger] entries[j], pid, key, device_id),
        },
{
    if exists|i: int| 0 <= i < entries.len() && #[trigger] same_target(entries[i], pid, key, device_id) {
        let w = choose|i: int| 0 <= i < entries.len() && #[trigger] same_target(entries[i], pid, key, device_id);
        lemma_first_exists(entries, pid, key, device_id, w);
    }
}

proof fn lemma_first_exists(entries: Seq<RestoreEntry>, pid: u32, key: Seq<char>, device_id: Seq<char>, w: int)
    requires
        0 <= w < entries.len(),
        same_target(entries[w], pid, key, device_id),
    ensures
        exists|i: int|
            0 <= i < entries.len() && #[trigger] same_target(entries[i], pid, key, device_id) && forall|j: int|
                0 <= j < i ==> !same_target(#[trigger] entries[j], pid, key, device_id),
    decreases w,
{
    if exists|j: int| 0 <= j < w && #[trigger] same_target(entries[j], pid, key, device_id) {
        let j = choose|j: int| 0 <= j < w && #[trigger] same_target(entries[j], pid, key, device_id);
        lemma_first_exists(entries, pid, key, device_id, j);
    } else {
        assert(0 <= w < entries.len() && same_target(entries[w], pid, key, device_id) && forall|j: int|
            0 <= j < w ==> !same_target(#[trigger] entries[j], pid, key, device_id));
    }
}

/// Position of the first record for this process, application and endpoint.
pub fn find_target(entries: &Vec<RestoreEntry>, pid: u32, key: &String, device_id: &String) -> (res:
    Option<usize>)
    ensures
        match res {
            Some(i) => first_target(entries@, pid, key@, device_id@) == Some(i as int) && i
                < entries@.len(),
            None => first_target(entries@, pid, key@, device_id@) is None,
        },
{
    proof {
        lemma_first_target(entries@, pid, key@, device_id@);
    }
    let mut i: usize = 0;
    while i < entries.len()
        invariant
            i <= entries@.len(),
            forall|j: int| 0 <= j < i ==> !same_target(#[trigger] entries@[j], pid, key@, device_id@),
        decreases entries@.len() - i,
    {
        let e = &entries[i];
        if e.pid == pid && e.key == *key && e.device_id == *device_id {
            proof {
                assert(same_target(entries@[i as int], pid, key@, device_id@));
                let k = choose|k: int|
                    0 <= k < entries@.len() && #[trigger] same_target(entries@[k], pid, key@, device_id@)
                        && forall|j: int| 0 <= j < k ==> !same_target(#[trigger] entries@[j], pid, key@, device_id@);
                if k < i {
                } else if k > i {
                    assert(!same_target(entries@[i as int], pid, key@, device_id@));
                }
            }
            return Some(i);
        }
        i += 1;
    }
    None
}

// ---------------------------------------------------------------------------
// Decisions of a reconciliation round
// ---------------------------------------------------------------------------

/// What to do with a session the feature muted, this round.
#[derive(Debug, Clone, Copy, PartialEq, Eq, Structural)]
pub enum TrackedPlan {
    /// Its state could not be read and nothing about it changed: try again
    /// next round.
    Retry,
    /// Keep the record; mute the session again first when `mute` (it was
    /// unmuted from elsewhere). The round changed something only if that
    /// mute succeeds.
    KeepMuted { mute: bool },
    /// The application now plays on another endpoint: mute it there first
    /// when `mute_target`, then hand the record over (`hand_off`). If that
    /// mute fails, the record stays as it is.
    HandOff { mute_target: bool },
    /// Stop tracking: put the session back to `restore` first when it is
    /// `Some`, then drop the record (`forget`). If putting back fails, the
    /// record stays for the next round.
    Release { restore: Option<bool> },
}

/// The decision for a tracked process, given its current session (the last
/// one Windows reports for the process) and the mute state read for its
/// record (`None`: the read failed; `Some(None)`: the session is gone).
pub open spec fn tracked_plan<V>(
    state: RuntimeState,
    entry: RestoreEntry,
    current: Option<AudioSession<V>>,
    observed: Option<Option<bool>>,
) -> TrackedPlan {
    let same_app = current is Some && session_key(current->0) == entry.key@;
    let same_device = current is Some && (entry.device_id@.len() == 0 || current->0.device_id@
        == entry.device_id@);
    let stay = same_app && state.keeps_muted(entry.key@);
    if observed is None && same_app && same_device {
        TrackedPlan::Retry
    } else {
        let muted_now = match observed {
            Some(v) => v,
            None => None,
        };
        if stay && same_device && muted_now is Some {
            TrackedPlan::KeepMuted { mute: muted_now == Some(false) }
        } else if stay && !same_device {
            TrackedPlan::HandOff { mute_target: !current->0.muted }
        } else {
            TrackedPlan::Release {
                restore: match muted_now {
                    Some(m) => if m != entry.was_muted {
                        Some(entry.was_muted)
                    } else {
                        None
                    },
                    None => None,
                },
            }
        }
    }
}

/// The view of an optional session reference.
pub open spec fn opt_session<V>(current: Option<&AudioSession<V>>) -> Option<AudioSession<V>> {
    match current {
        Some(s) => Some(*s),
        None => None,
    }
}

/// Decides what to do with a tracked process this round.
pub fn tracked_entry_plan<V>(
    state: &RuntimeState,
    entry: &RestoreEntry,
    current: Option<&AudioSession<V>>,
    observed: Option<Option<bool>>,
) -> (res: TrackedPlan)
    requires
        state.wf(),
    ensures
        res == tracked_plan(*state, *entry, opt_session(current), observed),
{
    let (same_app, same_device, muted) = match current {
        Some(session) => {
            let key = session_app_key(session);
            (
                key == entry.key,
                chars_of(entry.device_id.as_str()).len() == 0 || session.device_id == entry.device_id,
                session.muted,
            )
        },
        None => (false, false, false),
    };
    if observed.is_none() && same_app && same_device {
        return TrackedPlan::Retry;
    }
    let muted_now = match observed {
        Some(v) => v,
        None => None,
    };
    let stay = same_app && state.should_keep_muted(entry.key.as_str());
    if stay && same_device && muted_now.is_some() {
        TrackedPlan::KeepMuted { mute: muted_now == Some(false) }
    } else if stay && !same_device {
        TrackedPlan::HandOff { mute_target: !muted }
    } else {
        let restore = match muted_now {
            Some(m) => if m != entry.was_muted {
                Some(entry.was_muted)
            } else {
                None
            },
            None => None,
        };
        TrackedPlan::Release { restore }
    }
}

/// A session is to be muted now when it belongs to a process (not the
/// system sounds), its application is kept muted, and the feature does not
/// track the process yet.
pub open spec fn needs_mute<V>(state: RuntimeState, session: AudioSession<V>) -> bool {
    &&& session.pid != 0
    &&& state.keeps_muted(session_key(session))
    &&& state.record_of(session.pid) is None
}

/// Whether a session is to be muted now.
pub fn session_needs_mute<V>(state: &RuntimeState, session: &AudioSession<V>) -> (r: bool)
    requires
        state.wf(),
    ensures
        r == needs_mute(*state, *session),
{
    if session.pid == 0 {
        return false;
    }
    let key = session_app_key(session);
    state.should_keep_muted(key.as_str()) && state.find_record(session.pid).is_none()
}

/// The outcome of restoring a pending record.
#[derive(Debug, Clone, Copy, PartialEq, Eq, Structural)]
pub enum PendingRestoreAction {
    /// Keep the record for a later round.
    Keep,
    /// The session is back to its state, or gone: drop the record.
    RestoredOrGone,
}

/// One step of handling a pending record.
#[derive(Debug, Clone, Copy, PartialEq, Eq, Structural)]
pub enum RestoreStep {
    /// Done, with this outcome.
    Finish(PendingRestoreAction),
    /// Set the session's mute state to `muted`; the outcome depends on
    /// whether that succeeds.
    SetMute { muted: bool, on_success: PendingRestoreAction, on_failure: PendingRestoreAction },
    /// Ask whether the session is still active on its old endpoint, then
    /// decide with `activity_plan`.
    CheckActivity { muted_now: bool },
}

/// Restoring a record: put the session back to its state if it is not
/// there yet; a session that is gone needs nothing; a failed read keeps the
/// record.
pub open spec fn restore_plan(was_muted: bool, observed: Option<Option<bool>>) -> RestoreStep {
    match observed {
        Some(Some(m)) => if m == was_muted {
            RestoreStep::Finish(PendingRestoreAction::RestoredOrGone)
        } else {
            RestoreStep::SetMute {
                muted: was_muted,
                on_success: PendingRestoreAction::RestoredOrGone,
                on_failure: PendingRestoreAction::Keep,
            }
        },
        Some(None) => RestoreStep::Finish(PendingRestoreAction::RestoredOrGone),
        None => RestoreStep::Finish(PendingRestoreAction::Keep),
    }
}

/// Decides how to restore a record (when its application is no longer kept
/// muted, and when the program exits).
pub fn restore_pending_plan(entry: &RestoreEntry, observed: Option<Option<bool>>) -> (res: RestoreStep)
    ensures
        res == restore_plan(entry.was_muted, observed),
{
    match observed {
        Some(Some(m)) => if m == entry.was_muted {
            RestoreStep::Finish(PendingRestoreAction::RestoredOrGone)
        } else {
            RestoreStep::SetMute {
                muted: entry.was_muted,
                on_success: PendingRestoreAction::RestoredOrGone,
                on_failure: PendingRestoreAction::Keep,
            }
        },
        Some(None) => RestoreStep::Finish(PendingRestoreAction::RestoredOrGone),
        None => RestoreStep::Finish(PendingRestoreAction::Keep),
    }
}

/// A pending record whose application is still kept muted: the old endpoint
/// stays muted until its session is no longer active there. A record whose
/// state was muted anyway is done once the session is muted.
pub open spec fn muted_plan(was_muted: bool, observed: Option<Option<bool>>) -> RestoreStep {
    match observed {
        None => RestoreStep::Finish(PendingRestoreAction::Keep),
        Some(None) => RestoreStep::Finish(PendingRestoreAction::RestoredOrGone),
        Some(Some(m)) => if was_muted {
            if m {
                RestoreStep::Finish(PendingRestoreAction::RestoredOrGone)
            } else {
                RestoreStep::SetMute {
                    muted: true,
                    on_success: PendingRestoreAction::RestoredOrGone,
                    on_failure: PendingRestoreAction::Keep,
                }
            }
        } else {
            RestoreStep::CheckActivity { muted_now: m }
        },
    }
}

/// Decides how to handle a pending record whose application is still kept
/// muted.
pub fn pending_restore_plan(entry: &RestoreEntry, observed: Option<Option<bool>>) -> (res: RestoreStep)
    ensures
        res == muted_plan(entry.was_muted, observed),
{
    match observed {
        None => RestoreStep::Finish(PendingRestoreAction::Keep),
        Some(None) => RestoreStep::Finish(PendingRestoreAction::RestoredOrGone),
        Some(Some(m)) => if entry.was_muted {
            if m {
                RestoreStep::Finish(PendingRestoreAction::RestoredOrGone)
            } else {
                RestoreStep::SetMute {
                    muted: true,
                    on_success: PendingRestoreAction::RestoredOrGone,
                    on_failure: PendingRestoreAction::Keep,
                }
            }
        } else {
            RestoreStep::CheckActivity { muted_now: m }
        },
    }
}

/// After asking whether the old session is still active (`None`: the
/// question failed): while it is active it stays muted; once inactive it is
/// unmuted and the record is done.
pub open spec fn activity_step(muted_now: bool, active: Option<Option<bool>>) -> RestoreStep {
    match active {
        Some(Some(true)) => if !muted_now {
            RestoreStep::SetMute {
                muted: true,
                on_success: PendingRestoreAction::Keep,
                on_failure: PendingRestoreAction::Keep,
            }
        } else {
            RestoreStep::Finish(PendingRestoreAction::Keep)
        },
        Some(Some(false)) => if !muted_now {
            RestoreStep::Finish(PendingRestoreAction::RestoredOrGone)
        } else {
            RestoreStep::SetMute {
                muted: false,
                on_success: PendingRestoreAction::RestoredOrGone,
                on_failure: PendingRestoreAction::Keep,
            }
        },
        Some(None) => RestoreStep::Finish(PendingRestoreAction::RestoredOrGone),
        None => RestoreStep::Finish(PendingRestoreAction::Keep),
    }
}

/// Decides what follows the activity check of a pending record.
pub fn activity_plan(muted_now: bool, active: Option<Option<bool>>) -> (res: RestoreStep)
    ensures
        res == activity_step(muted_now, active),
{
    match active {
        Some(Some(true)) => if !muted_now {
            RestoreStep::SetMute {
                muted: true,
                on_success: PendingRestoreAction::Keep,
                on_failure: PendingRestoreAction::Keep,
            }
        } else {
            RestoreStep::Finish(PendingRestoreAction::Keep)
        },
        Some(Some(false)) => if !muted_now {
            RestoreStep::Finish(PendingRestoreAction::RestoredOrGone)
        } else {
            RestoreStep::SetMute {
                muted: false,
                on_success: PendingRestoreAction::RestoredOrGone,
                on_failure: PendingRestoreAction::Keep,
            }
        },
        Some(None) => RestoreStep::Finish(PendingRestoreAction::RestoredOrGone),
        None => RestoreStep::Finish(PendingRestoreAction::Keep),
    }
}

// ---------------------------------------------------------------------------
// Changes to the runtime state
// ---------------------------------------------------------------------------

/// A record with another pending flag.
pub open spec fn with_pending(e: RestoreEntry, pending: bool) -> RestoreEntry {
    RestoreEntry {
        pid: e.pid,
        key: e.key,
        device_id: e.device_id,
        was_muted: e.was_muted,
        pending_restore: pending,
    }
}

/// The state to restore on the new endpoint after a hand-over: the one a
/// pending record for that endpoint kept (the application came back to it),
/// else the one of the record handed over.
pub open spec fn handoff_baseline(pending: Seq<RestoreEntry>, entry: RestoreEntry, target_device: Seq<char>) -> bool {
    match first_target(pending, entry.pid, entry.key@, target_device) {
        Some(i) => pending[i].was_muted,
        None => entry.was_muted,
    }
}

/// The pending records after `entry` is handed over to `target_device`: a
/// pending record for the new endpoint is taken back, and the old endpoint
/// (when the record names one) is queued, unless it already is.
pub open spec fn handoff_pending(pending: Seq<RestoreEntry>, entry: RestoreEntry, target_device: Seq<char>) -> Seq<
    RestoreEntry,
> {
    let p1 = match first_target(pending, entry.pid, entry.key@, target_device) {
        Some(i) => pending.remove(i),
        None => pending,
    };
    if entry.device_id@.len() > 0 && entry.device_id@ != target_device && first_target(
        p1,
        entry.pid,
        entry.key@,
        entry.device_id@,
    ) is None {
        p1.push(with_pending(entry, true))
    } else {
        p1
    }
}

/// A pending record is covered when the current record of its process is
/// for the same application and endpoint.
pub open spec fn covered(state: RuntimeState, p: RestoreEntry) -> bool {
    match state.record_of(p.pid) {
        Some(e) => e.key@ == p.key@ && e.device_id@ == p.device_id@,
        None => false,
    }
}

impl RuntimeState {
    /// Nothing but the records changed.
    pub open spec fn same_settings(&self, other: &Self) -> bool {
        &&& self.applications == other.applications
        &&& self.foreground_key == other.foreground_key
        &&& self.paused == other.paused
    }

    /// Starts a reconciliation round with the current foreground application.
    pub fn begin_round(&mut self, foreground_key: Option<String>)
        ensures
            final(self).foreground_key == foreground_key,
            final(self).applications == old(self).applications,
            final(self).paused == old(self).paused,
            final(self).auto_muted == old(self).auto_muted,
            final(self).pending_restores == old(self).pending_restores,
    {
        self.foreground_key = foreground_key;
    }

    /// Pauses or resumes automatic muting. Once paused no application is
    /// kept muted, so the round that follows releases every record
    /// (`law_pausing_releases_every_record`).
    pub fn toggle_paused(&mut self)
        ensures
            final(self).paused == !old(self).paused,
            final(self).paused ==> forall|k: Seq<char>| !#[trigger] final(self).keeps_muted(k),
            final(self).applications == old(self).applications,
            final(self).foreground_key == old(self).foreground_key,
            final(self).auto_muted == old(self).auto_muted,
            final(self).pending_restores == old(self).pending_restores,
    {
        self.paused = !self.paused;
    }

    /// Hands the record of `pid` over to the session its application now
    /// plays through on another endpoint. The old endpoint is queued for
    /// restoring, and the record keeps the state to put back.
    pub fn hand_off<V>(&mut self, pid: u32, target: &AudioSession<V>)
        requires
            old(self).wf(),
            old(self).record_of(pid) is Some,
        ensures
            final(self).wf(),
            final(self).same_settings(old(self)),
            ({
                let i = pid_index(old(self).auto_muted@, pid)->0;
                let e = old(self).auto_muted@[i];
                &&& final(self).auto_muted@ == old(self).auto_muted@.update(
                    i,
                    RestoreEntry {
                        pid: pid,
                        key: e.key,
                        device_id: target.device_id,
                        was_muted: handoff_baseline(old(self).pending_restores@, e, target.device_id@),
                        pending_restore: false,
                    },
                )
                &&& final(self).pending_restores@ == handoff_pending(
                    old(self).pending_restores@,
                    e,
                    target.device_id@,
                )
            }),
    {
        let i = self.find_record(pid).unwrap();
        let entry = self.auto_muted[i].duplicate();
        let baseline = match take_target(&mut self.pending_restores, entry.pid, &entry.key, &target.device_id) {
            Some(b) => b,
            None => entry.was_muted,
        };
        if chars_of(entry.device_id.as_str()).len() != 0 && entry.device_id != target.device_id
            && find_target(&self.pending_restores, entry.pid, &entry.key, &entry.device_id).is_none() {
            let mut queued = entry.duplicate();
            queued.pending_restore = true;
            self.pending_restores.push(queued);
        }
        let record = RestoreEntry {
            pid,
            key: entry.key,
            device_id: target.device_id.clone(),
            was_muted: baseline,
            pending_restore: false,
        };
        self.auto_muted.set(i, record);
        proof {
            let o = old(self).auto_muted@;
            let am = self.auto_muted@;
            assert(o[i as int].pid == pid);
            assert forall|a: int, b: int| 0 <= a < b < am.len() implies #[trigger] am[a].pid
                != #[trigger] am[b].pid by {
                assert(o[a].pid != o[b].pid);
            }
        }
    }

    /// Drops the record of a process, once its session was put back or is
    /// gone.
    pub fn forget(&mut self, pid: u32)
        requires
            old(self).wf(),
            old(self).record_of(pid) is Some,
        ensures
            final(self).wf(),
            final(self).same_settings(old(self)),
            final(self).auto_muted@ == old(self).auto_muted@.remove(pid_index(old(self).auto_muted@, pid)->0),
            final(self).pending_restores == old(self).pending_restores,
            final(self).record_of(pid) is None,
    {
        let i = self.find_record(pid).unwrap();
        let _ = self.auto_muted.remove(i);
        proof {
            let o = old(self).auto_muted@;
            let am = self.auto_muted@;
            assert forall|a: int, b: int| 0 <= a < b < am.len() implies #[trigger] am[a].pid
                != #[trigger] am[b].pid by {
                let a2 = if a < i { a } else { a + 1 };
                let b2 = if b < i { b } else { b + 1 };
                assert(am[a] == o[a2]);
                assert(am[b] == o[b2]);
            }
            assert forall|a: int| 0 <= a < am.len() implies !(#[trigger] am[a]).pending_restore by {
                let a2 = if a < i { a } else { a + 1 };
                assert(am[a] == o[a2]);
            }
            if pid_index(am, pid) is Some {
                let a = choose|a: int| 0 <= a < am.len() && #[trigger] am[a].pid == pid;
                let a2 = if a < i { a } else { a + 1 };
                assert(am[a] == o[a2]);
                assert(o[i as int].pid == pid);
            }
        }
    }

    /// Records a session that was just muted (or already was), taking back
    /// the state a pending record kept for the same endpoint.
    pub fn record_muted<V>(&mut self, session: &AudioSession<V>)
        requires
            old(self).wf(),
            old(self).record_of(session.pid) is None,
        ensures
            final(self).wf(),
            final(self).same_settings(old(self)),
            ({
                let t = first_target(
                    old(self).pending_restores@,
                    session.pid,
                    session_key(*session),
                    session.device_id@,
                );
                let r = final(self).auto_muted@.last();
                &&& final(self).pending_restores@ == match t {
                    Some(j) => old(self).pending_restores@.remove(j),
                    None => old(self).pending_restores@,
                }
                &&& final(self).auto_muted@.drop_last() == old(self).auto_muted@
                &&& final(self).auto_muted@.len() == old(self).auto_muted@.len() + 1
                &&& r.pid == session.pid
                &&& r.key@ == session_key(*session)
                &&& r.device_id == session.device_id
                &&& r.was_muted == match t {
                    Some(j) => old(self).pending_restores@[j].was_muted,
                    None => session.muted,
                }
                &&& !r.pending_restore
            }),
    {
        let key = session_app_key(session);
        let was_muted = match take_target(&mut self.pending_restores, session.pid, &key, &session.device_id) {
            Some(b) => b,
            None => session.muted,
        };
        self.auto_muted.push(
            RestoreEntry {
                pid: session.pid,
                key,
                device_id: session.device_id.clone(),
                was_muted,
                pending_restore: false,
            },
        );
        proof {
            let o = old(self).auto_muted@;
            let am = self.auto_muted@;
            assert(am.drop_last() =~= o);
            assert forall|a: int, b: int| 0 <= a < b < am.len() implies #[trigger] am[a].pid
                != #[trigger] am[b].pid by {
                if b == o.len() {
                    assert(am[a] == o[a]);
                    assert(o[a].pid != session.pid);
                } else {
                    assert(am[a] == o[a]);
                    assert(am[b] == o[b]);
                }
            }
            assert forall|a: int| 0 <= a < am.len() implies !(#[trigger] am[a]).pending_restore by {
                if a < o.len() {
                    assert(am[a] == o[a]);
                }
            }
        }
    }

    /// Whether the pending record at `index` is covered by a current record.
    pub fn pending_covered(&self, index: usize) -> (r: bool)
        requires
            self.wf(),
            index < self.pending_restores@.len(),
        ensures
            r == covered(*self, self.pending_restores@[index as int]),
    {
        let p = &self.pending_restores[index];
        match self.find_record(p.pid) {
            Some(i) => {
                let e = &self.auto_muted[i];
                e.key == p.key && e.device_id == p.device_id
            },
            None => false,
        }
    }

    /// Drops the pending record at `index`.
    pub fn drop_pending(&mut self, index: usize)
        requires
            old(self).wf(),
            index < old(self).pending_restores@.len(),
        ensures
            final(self).wf(),
            final(self).same_settings(old(self)),
            final(self).auto_muted == old(self).auto_muted,
            final(self).pending_restores@ == old(self).pending_restores@.remove(index as int),
    {
        let _ = self.pending_restores.remove(index);
        proof {
            let o = old(self).pending_restores@;
            let p = self.pending_restores@;
            assert forall|k: int| 0 <= k < p.len() implies (#[trigger] p[k]).pending_restore by {
                if k < index {
                    assert(p[k] == o[k]);
                } else {
                    assert(p[k] == o[k + 1]);
                }
            }
        }
    }
}

// ---------------------------------------------------------------------------
// Steps of a reconciliation round: which call a decision asks for, and the
// state once that call succeeded or failed
// ---------------------------------------------------------------------------

/// The mute state that a tracked plan asks to set before its change is
/// made, if any: muting again (on the same endpoint), muting on the new
/// endpoint, or putting back the recorded state.
pub open spec fn tracked_call(plan: TrackedPlan) -> Option<bool> {
    match plan {
        TrackedPlan::Retry => None,
        TrackedPlan::KeepMuted { mute } => if mute {
            Some(true)
        } else {
            None
        },
        TrackedPlan::HandOff { mute_target } => if mute_target {
            Some(true)
        } else {
            None
        },
        TrackedPlan::Release { restore } => restore,
    }
}

/// The mute state to set for a tracked plan, if any.
pub fn tracked_mute_call(plan: TrackedPlan) -> (res: Option<bool>)
    ensures
        res == tracked_call(plan),
{
    match plan {
        TrackedPlan::Retry => None,
        TrackedPlan::KeepMuted { mute } => if mute {
            Some(true)
        } else {
            None
        },
        TrackedPlan::HandOff { mute_target } => if mute_target {
            Some(true)
        } else {
            None
        },
        TrackedPlan::Release { restore } => restore,
    }
}

/// `new` is `old` with the record of `pid` dropped.
pub open spec fn forgotten(old: RuntimeState, new: RuntimeState, pid: u32) -> bool {
    &&& new.same_settings(&old)
    &&& new.auto_muted@ == old.auto_muted@.remove(pid_index(old.auto_muted@, pid)->0)
    &&& new.pending_restores == old.pending_restores
    &&& new.record_of(pid) is None
}

/// `new` is `old` with the record of `pid` handed over to `target`.
pub open spec fn handed_off<V>(old: RuntimeState, new: RuntimeState, pid: u32, target: AudioSession<V>) -> bool {
    let i = pid_index(old.auto_muted@, pid)->0;
    let e = old.auto_muted@[i];
    &&& new.same_settings(&old)
    &&& new.auto_muted@ == old.auto_muted@.update(
        i,
        RestoreEntry {
            pid: pid,
            key: e.key,
            device_id: target.device_id,
            was_muted: handoff_baseline(old.pending_restores@, e, target.device_id@),
            pending_restore: false,
        },
    )
    &&& new.pending_restores@ == handoff_pending(old.pending_restores@, e, target.device_id@)
}

/// `new` is `old` with a record added for `session`, which is muted now: the
/// state to put back is the one a pending record for the same endpoint kept
/// (that record is taken back), else the session's state before muting.
pub open spec fn muted_recorded<V>(old: RuntimeState, new: RuntimeState, session: AudioSession<V>) -> bool {
    let t = first_target(old.pending_restores@, session.pid, session_key(session), session.device_id@);
    let r = new.auto_muted@.last();
    &&& new.same_settings(&old)
    &&& new.pending_restores@ == match t {
        Some(j) => old.pending_restores@.remove(j),
        None => old.pending_restores@,
    }
    &&& new.auto_muted@.len() == old.auto_muted@.len() + 1
    &&& new.auto_muted@.drop_last() == old.auto_muted@
    &&& r.pid == session.pid
    &&& r.key@ == session_key(session)
    &&& r.device_id == session.device_id
    &&& r.was_muted == match t {
        Some(j) => old.pending_restores@[j].was_muted,
        None => session.muted,
    }
    &&& !r.pending_restore
}

/// The state after handling a tracked process with `plan`, given whether the
/// call it asked for (`tracked_call`) succeeded: a hand-over or a release
/// takes effect only when it needed no call or its call succeeded; otherwise,
/// and for a retry or a kept record, nothing changes.
pub open spec fn after_tracked_state<V>(
    old: RuntimeState,
    new: RuntimeState,
    pid: u32,
    plan: TrackedPlan,
    current: Option<AudioSession<V>>,
    call_ok: bool,
) -> bool {
    let done = tracked_call(plan) is None || call_ok;
    match plan {
        TrackedPlan::HandOff { .. } => if done {
            handed_off(old, new, pid, current->0)
        } else {
            new == old
        },
        TrackedPlan::Release { .. } => if done {
            forgotten(old, new, pid)
        } else {
            new == old
        },
        _ => new == old,
    }
}

/// Whether muting a session needs a call: it is to be muted and is not
/// muted yet.
pub fn mute_call_needed<V>(state: &RuntimeState, session: &AudioSession<V>) -> (r: bool)
    requires
        state.wf(),
    ensures
        r == (needs_mute(*state, *session) && !session.muted),
{
    session_needs_mute(state, session) && !session.muted
}

impl RuntimeState {
    /// Applies the outcome of handling the tracked process `pid` with `plan`
    /// (`current`: its current session; `call_ok`: whether the call that
    /// `tracked_call(plan)` asked for succeeded, ignored when there was none).
    pub fn after_tracked<V>(
        &mut self,
        pid: u32,
        plan: TrackedPlan,
        current: Option<&AudioSession<V>>,
        call_ok: bool,
    )
        requires
            old(self).wf(),
            old(self).record_of(pid) is Some,
            plan is HandOff ==> current is Some,
        ensures
            final(self).wf(),
            after_tracked_state(*old(self), *final(self), pid, plan, opt_session(current), call_ok),
    {
        let done = tracked_mute_call(plan).is_none() || call_ok;
        match plan {
            TrackedPlan::HandOff { .. } => {
                if done {
                    self.hand_off(pid, current.unwrap());
                }
            },
            TrackedPlan::Release { .. } => {
                if done {
                    self.forget(pid);
                }
            },
            _ => {},
        }
    }

    /// Applies the outcome of muting a session that is to be muted: it is
    /// recorded when it was muted already (no call was made) or the mute call
    /// succeeded; after a failed call nothing changes.
    pub fn after_mute<V>(&mut self, session: &AudioSession<V>, call_ok: bool)
        requires
            old(self).wf(),
            needs_mute(*old(self), *session),
        ensures
            final(self).wf(),
            session.muted || call_ok ==> muted_recorded(*old(self), *final(self), *session),
            !session.muted && !call_ok ==> *final(self) == *old(self),
    {
        if session.muted || call_ok {
            self.record_muted(session);
        }
    }

    /// Applies the outcome of handling the pending record at `index`: a record
    /// that was restored (or whose session is gone) is dropped, one that is
    /// kept stays.
    pub fn after_pending(&mut self, index: usize, action: PendingRestoreAction)
        requires
            old(self).wf(),
            index < old(self).pending_restores@.len(),
        ensures
            final(self).wf(),
            final(self).same_settings(old(self)),
            final(self).auto_muted == old(self).auto_muted,
            action == PendingRestoreAction::RestoredOrGone ==> final(self).pending_restores@ == old(
                self,
            ).pending_restores@.remove(index as int),
            action == PendingRestoreAction::Keep ==> *final(self) == *old(self),
    {
        if action == PendingRestoreAction::RestoredOrGone {
            self.drop_pending(index);
        }
    }
}

/// The outcome of a step of a pending record once its call (if any) is
/// made: `None` when the step asks for the activity check first.
pub open spec fn step_outcome(step: RestoreStep, call_ok: bool) -> Option<PendingRestoreAction> {
    match step {
        RestoreStep::Finish(a) => Some(a),
        RestoreStep::SetMute { on_success, on_failure, .. } => Some(
            if call_ok {
                on_success
            } else {
                on_failure
            },
        ),
        RestoreStep::CheckActivity { .. } => None,
    }
}

/// The outcome of a step of a pending record, given whether its call
/// succeeded.
pub fn restore_step_outcome(step: RestoreStep, call_ok: bool) -> (res: Option<PendingRestoreAction>)
    ensures
        res == step_outcome(step, call_ok),
{
    match step {
        RestoreStep::Finish(a) => Some(a),
        RestoreStep::SetMute { on_success, on_failure, .. } => Some(
            if call_ok {
                on_success
            } else {
                on_failure
            },
        ),
        RestoreStep::CheckActivity { .. } => None,
    }
}

// ---------------------------------------------------------------------------
// Status, baselines, loading and the application list
// ---------------------------------------------------------------------------

/// What the interface shows about the feature.
#[derive(Debug)]
pub struct UnfocusedMuteStatus {
    pub applications: Vec<UnfocusedMuteApplication>,
    pub auto_muted_keys: Vec<String>,
    pub foreground_key: Option<String>,
    pub paused: bool,
}

/// The texts of a list of strings.
pub open spec fn texts(v: Seq<String>) -> Seq<Seq<char>> {
    v.map_values(|s: String| s@)
}

/// Some current record is for this application.
pub open spec fn has_muted_key(entries: Seq<RestoreEntry>, k: Seq<char>) -> bool {
    exists|i: int| 0 <= i < entries.len() && (#[trigger] entries[i]).key@ == k
}

/// Some current record for this application was muted before the feature
/// muted it.
pub open spec fn muted_before(entries: Seq<RestoreEntry>, k: Seq<char>) -> bool {
    exists|i: int| 0 <= i < entries.len() && (#[trigger] entries[i]).key@ == k && entries[i].was_muted
}

/// The list of selected applications, in key order, as stored in the
/// settings.
pub fn application_list(applications: &StrMap<String>) -> (res: Vec<UnfocusedMuteApplication>)
    requires
        applications.wf(),
    ensures
        res@.map_values(|a: UnfocusedMuteApplication| a.key@) == applications.key_list(),
        forall|i: int|
            0 <= i < res@.len() ==> (#[trigger] res@[i]).display_name@ == applications.value(
                res@[i].key@,
            )@,
{
    let mut out: Vec<UnfocusedMuteApplication> = Vec::new();
    let mut i: usize = 0;
    while i < applications.entries.len()
        invariant
            applications.wf(),
            i <= applications.entries@.len(),
            out@.map_values(|a: UnfocusedMuteApplication| a.key@) =~= applications.key_list().take(i as int),
            forall|j: int|
                0 <= j < out@.len() ==> (#[trigger] out@[j]).display_name@ == applications.value(
                    out@[j].key@,
                )@,
        decreases applications.entries@.len() - i,
    {
        let entry = &applications.entries[i];
        proof {
            applications.lemma_index_of(i as int);
        }
        out.push(UnfocusedMuteApplication { key: entry.0.clone(), display_name: entry.1.clone() });
        proof {
            assert(applications.key_list().take(i + 1) =~= applications.key_list().take(i as int).push(
                applications.entries@[i as int].0@,
            ));
        }
        i += 1;
    }
    assert(applications.key_list().take(applications.entries@.len() as int) =~= applications.key_list());
    out
}

/// The keys of the current records, each once, in ascending order.
pub fn muted_keys(entries: &Vec<RestoreEntry>) -> (res: Vec<String>)
    ensures
        forall|a: int, b: int|
            0 <= a < b < res@.len() ==> text_less(#[trigger] res@[a]@, #[trigger] res@[b]@),
        forall|k: Seq<char>|
            #[trigger] texts(res@).contains(k) == has_muted_key(entries@, k),
{
    let mut keys: StrMap<()> = StrMap::new();
    let mut i: usize = 0;
    while i < entries.len()
        invariant
            keys.wf(),
            i <= entries@.len(),
            forall|k: Seq<char>| #[trigger] keys.has(k) == has_muted_key(entries@.take(i as int), k),
        decreases entries@.len() - i,
    {
        keys.insert(entries[i].key.clone(), ());
        proof {
            let t = entries@.take(i + 1);
            assert forall|k: Seq<char>| #[trigger] keys.has(k) == has_muted_key(t, k) by {
                if has_muted_key(entries@.take(i as int), k) {
                    let j = choose|j: int| 0 <= j < i && (#[trigger] entries@.take(i as int)[j]).key@ == k;
                    assert(t[j] == entries@.take(i as int)[j]);
                }
                if has_muted_key(t, k) && k != entries@[i as int].key@ {
                    let j = choose|j: int| 0 <= j < t.len() && (#[trigger] t[j]).key@ == k;
                    assert(entries@.take(i as int)[j] == t[j]);
                }
                if k == entries@[i as int].key@ {
                    assert(t[i as int].key@ == k);
                }
            }
        }
        i += 1;
    }
    assert(entries@.take(entries@.len() as int) =~= entries@);
    let res = keys.keys();
    proof {
        assert forall|k: Seq<char>| #[trigger] texts(res@).contains(k)
            == has_muted_key(entries@, k) by {
            keys.lemma_key_list(k);
        }
        assert forall|a: int, b: int| 0 <= a < b < res@.len() implies text_less(
            #[trigger] res@[a]@,
            #[trigger] res@[b]@,
        ) by {
            assert(texts(res@) == keys.key_list());
            assert(texts(res@)[a] == keys.entries@[a].0@);
            assert(texts(res@)[b] == keys.entries@[b].0@);
        }
    }
    res
}

/// The status shown to the interface.
pub fn status_from_state(state: &RuntimeState) -> (res: UnfocusedMuteStatus)
    requires
        state.wf(),
    ensures
        res.applications@.map_values(|a: UnfocusedMuteApplication| a.key@)
            == state.applications.key_list(),
        forall|i: int|
            0 <= i < res.applications@.len() ==> (#[trigger] res.applications@[i]).display_name@
                == state.applications.value(res.applications@[i].key@)@,
        forall|a: int, b: int|
            0 <= a < b < res.auto_muted_keys@.len() ==> text_less(
                #[trigger] res.auto_muted_keys@[a]@,
                #[trigger] res.auto_muted_keys@[b]@,
            ),
        forall|k: Seq<char>|
            #[trigger] texts(res.auto_muted_keys@).contains(k) == has_muted_key(
                state.auto_muted@,
                k,
            ),
        res.foreground_key == state.foreground_key,
        res.paused == state.paused,
{
    let foreground_key = match &state.foreground_key {
        Some(k) => Some(k.clone()),
        None => None,
    };
    UnfocusedMuteStatus {
        applications: application_list(&state.applications),
        auto_muted_keys: muted_keys(&state.auto_muted),
        foreground_key,
        paused: state.paused,
    }
}

/// For each application with a current record, whether it was muted before
/// the feature muted it (any of its records); used so that volume snapshots
/// see the user's state, not the temporary one.
pub fn auto_muted_baselines(state: &RuntimeState) -> (res: StrMap<bool>)
    ensures
        res.wf(),
        forall|k: Seq<char>| #[trigger] res.has(k) == has_muted_key(state.auto_muted@, k),
        forall|k: Seq<char>| res.has(k) ==> #[trigger] res.value(k) == muted_before(state.auto_muted@, k),
{
    let entries = &state.auto_muted;
    let mut out: StrMap<bool> = StrMap::new();
    let mut i: usize = 0;
    while i < entries.len()
        invariant
            out.wf(),
            i <= entries@.len(),
            entries@ == state.auto_muted@,
            forall|k: Seq<char>| #[trigger] out.has(k) == has_muted_key(entries@.take(i as int), k),
            forall|k: Seq<char>| out.has(k) ==> #[trigger] out.value(k) == muted_before(entries@.take(i as int), k),
        decreases entries@.len() - i,
    {
        let e = &entries[i];
        let before = match out.get(e.key.as_str()) {
            Some(b) => *b,
            None => false,
        };
        out.insert(e.key.clone(), before || e.was_muted);
        proof {
            let p = entries@.take(i as int);
            let t = entries@.take(i + 1);
            assert(t[i as int] == entries@[i as int]);
            assert forall|k: Seq<char>| #[trigger] out.has(k) == has_muted_key(t, k) by {
                if has_muted_key(p, k) {
                    let j = choose|j: int| 0 <= j < p.len() && (#[trigger] p[j]).key@ == k;
                    assert(t[j] == p[j]);
                }
                if has_muted_key(t, k) && k != e.key@ {
                    let j = choose|j: int| 0 <= j < t.len() && (#[trigger] t[j]).key@ == k;
                    assert(p[j] == t[j]);
                }
            }
            assert forall|k: Seq<char>| out.has(k) implies #[trigger] out.value(k) == muted_before(t, k) by {
                if muted_before(p, k) {
                    let j = choose|j: int| 0 <= j < p.len() && (#[trigger] p[j]).key@ == k && p[j].was_muted;
                    assert(t[j] == p[j]);
                }
                if muted_before(t, k) {
                    let j = choose|j: int| 0 <= j < t.len() && (#[trigger] t[j]).key@ == k && t[j].was_muted;
                    if j < i {
                        assert(p[j] == t[j]);
                    }
                }
                if k == e.key@ && !has_muted_key(p, k) {
                    assert(!muted_before(p, k));
                }
            }
        }
        i += 1;
    }
    assert(entries@.take(entries@.len() as int) =~= entries@);
    out
}

/// The applications read from the settings: keys normalised, blank keys
/// dropped, display names trimmed; a later entry with the same key wins.
pub open spec fn saved_applications(apps: Seq<UnfocusedMuteApplication>) -> Map<Seq<char>, Seq<char>>
    decreases apps.len(),
{
    if apps.len() == 0 {
        Map::empty()
    } else {
        let m = saved_applications(apps.drop_last());
        let k = app_key(apps.last().key@);
        if k.len() > 0 {
            m.insert(k, trim(apps.last().display_name@))
        } else {
            m
        }
    }
}

/// The current records read from the restore file: the last non-pending
/// record of each process.
pub open spec fn saved_records(entries: Seq<RestoreEntry>) -> Map<u32, RestoreEntry>
    decreases entries.len(),
{
    if entries.len() == 0 {
        Map::empty()
    } else {
        let m = saved_records(entries.drop_last());
        if entries.last().pending_restore {
            m
        } else {
            m.insert(entries.last().pid, entries.last())
        }
    }
}

/// The pending records read from the restore file, in file order.
pub open spec fn saved_pending(entries: Seq<RestoreEntry>) -> Seq<RestoreEntry>
    decreases entries.len(),
{
    if entries.len() == 0 {
        seq![]
    } else {
        let p = saved_pending(entries.drop_last());
        if entries.last().pending_restore {
            p.push(entries.last())
        } else {
            p
        }
    }
}

impl RuntimeState {
    /// Sets the current record of a process, replacing the one it had.
    fn put_record(&mut self, e: RestoreEntry)
        requires
            old(self).wf(),
            !e.pending_restore,
        ensures
            final(self).wf(),
            final(self).same_settings(old(self)),
            final(self).pending_restores == old(self).pending_restores,
            final(self).record_of(e.pid) == Some(e),
            forall|p: u32| p != e.pid ==> #[trigger] final(self).record_of(p) == old(self).record_of(p),
    {
        let ghost ge = e;
        match self.find_record(e.pid) {
            Some(i) => {
                self.auto_muted.set(i, e);
                proof {
                    let o = old(self).auto_muted@;
                    let am = self.auto_muted@;
                    assert forall|a: int, b: int| 0 <= a < b < am.len() implies #[trigger] am[a].pid
                        != #[trigger] am[b].pid by {
                        assert(o[a].pid != o[b].pid);
                    }
                    lemma_pid_index(am, i as int);
                    assert forall|p: u32| p != ge.pid implies #[trigger] self.record_of(p) == old(self).record_of(p) by {
                        if pid_index(o, p) is Some {
                            let j = pid_index(o, p)->0;
                            assert(o[j].pid == p);
                            assert(am[j] == o[j]);
                            lemma_pid_index(o, j);
                            lemma_pid_index(am, j);
                        } else if pid_index(am, p) is Some {
                            let j = choose|j: int| 0 <= j < am.len() && #[trigger] am[j].pid == p;
                            assert(am[j] == o[j]);
                        }
                    }
                }
            },
            None => {
                self.auto_muted.push(e);
                proof {
                    let o = old(self).auto_muted@;
                    let am = self.auto_muted@;
                    assert forall|a: int, b: int| 0 <= a < b < am.len() implies #[trigger] am[a].pid
                        != #[trigger] am[b].pid by {
                        assert(am[a] == o[a]);
                        if b < o.len() {
                            assert(am[b] == o[b]);
                        }
                    }
                    assert forall|a: int| 0 <= a < am.len() implies !(#[trigger] am[a]).pending_restore by {
                        if a < o.len() {
                            assert(am[a] == o[a]);
                        }
                    }
                    lemma_pid_index(am, o.len() as int);
                    assert forall|p: u32| p != ge.pid implies #[trigger] self.record_of(p) == old(self).record_of(p) by {
                        if pid_index(o, p) is Some {
                            let j = pid_index(o, p)->0;
                            assert(am[j] == o[j]);
                            lemma_pid_index(o, j);
                            lemma_pid_index(am, j);
                        } else if pid_index(am, p) is Some {
                            let j = choose|j: int| 0 <= j < am.len() && #[trigger] am[j].pid == p;
                            assert(am[j] == o[j]);
                        }
                    }
                }
            },
        }
    }

    /// The state at start-up, from the saved applications and the restore
    /// file: not paused, no foreground application yet.
    pub fn from_saved(applications: &Vec<UnfocusedMuteApplication>, entries: Vec<RestoreEntry>) -> (res: Self)
        ensures
            res.wf(),
            !res.paused,
            res.foreground_key is None,
            forall|k: Seq<char>|
                #[trigger] res.applications.has(k) == saved_applications(applications@).dom().contains(k),
            forall|k: Seq<char>|
                res.applications.has(k) ==> #[trigger] res.applications.value(k)@ == saved_applications(
                    applications@,
                )[k],
            forall|p: u32|
                #[trigger] res.record_of(p) == if saved_records(entries@).dom().contains(p) {
                    Some(saved_records(entries@)[p])
                } else {
                    None
                },
            res.pending_restores@ == saved_pending(entries@),
    {
        let mut state = RuntimeState {
            applications: StrMap::new(),
            auto_muted: Vec::new(),
            pending_restores: Vec::new(),
            foreground_key: None,
            paused: false,
        };
        let mut i: usize = 0;
        while i < applications.len()
            invariant
                state.wf(),
                !state.paused,
                state.foreground_key is None,
                state.auto_muted@.len() == 0,
                state.pending_restores@.len() == 0,
                i <= applications@.len(),
                forall|k: Seq<char>|
                    #[trigger] state.applications.has(k) == saved_applications(applications@.take(i as int)).dom().contains(k),
                forall|k: Seq<char>|
                    state.applications.has(k) ==> #[trigger] state.applications.value(k)@ == saved_applications(
                        applications@.take(i as int),
                    )[k],
            decreases applications@.len() - i,
        {
            let app = &applications[i];
            let key = normalize_app_key(app.key.as_str());
            proof {
                let t = applications@.take(i + 1);
                assert(t.drop_last() =~= applications@.take(i as int));
                assert(t.last() == applications@[i as int]);
            }
            if chars_of(key.as_str()).len() > 0 {
                state.applications.insert(key, trimmed(app.display_name.as_str()));
            }
            i += 1;
        }
        assert(applications@.take(applications@.len() as int) =~= applications@);
        let mut j: usize = 0;
        while j < entries.len()
            invariant
                state.wf(),
                !state.paused,
                state.foreground_key is None,
                j <= entries@.len(),
                forall|k: Seq<char>|
                    #[trigger] state.applications.has(k) == saved_applications(applications@).dom().contains(k),
                forall|k: Seq<char>|
                    state.applications.has(k) ==> #[trigger] state.applications.value(k)@ == saved_applications(
                        applications@,
                    )[k],
                forall|p: u32|
                    #[trigger] state.record_of(p) == if saved_records(entries@.take(j as int)).dom().contains(p) {
                        Some(saved_records(entries@.take(j as int))[p])
                    } else {
                        None
                    },
                state.pending_restores@ == saved_pending(entries@.take(j as int)),
            decreases entries@.len() - j,
        {
            let e = entries[j].duplicate();
            proof {
                let t = entries@.take(j + 1);
                assert(t.drop_last() =~= entries@.take(j as int));
                assert(t.last() == entries@[j as int]);
            }
            proof {
                let t = entries@.take(j + 1);
                if e.pending_restore {
                    assert(saved_records(t) == saved_records(entries@.take(j as int)));
                    assert(saved_pending(t) == saved_pending(entries@.take(j as int)).push(e));
                } else {
                    assert(saved_records(t) == saved_records(entries@.take(j as int)).insert(e.pid, e));
                    assert(saved_pending(t) == saved_pending(entries@.take(j as int)));
                }
            }
            if e.pending_restore {
                let ghost before = state;
                state.pending_restores.push(e);
                proof {
                    assert forall|p: u32| #[trigger] state.record_of(p) == before.record_of(p) by {}
                    let p = state.pending_restores@;
                    assert forall|k: int| 0 <= k < p.len() implies (#[trigger] p[k]).pending_restore by {
                        if k < p.len() - 1 {
                            assert(p[k] == before.pending_restores@[k]);
                        }
                    }
                }
            } else {
                let ghost before = state;
                state.put_record(e);
                proof {
                    let m = saved_records(entries@.take(j + 1));
                    assert forall|p: u32| #[trigger] state.record_of(p) == if m.dom().contains(p) {
                        Some(m[p])
                    } else {
                        None
                    } by {
                        if p != entries@[j as int].pid {
                            assert(state.record_of(p) == before.record_of(p));
                            assert(m.dom().contains(p) == saved_records(entries@.take(j as int)).dom().contains(p));
                        } else {
                            assert(m.dom().contains(p));
                            assert(m[p] == entries@[j as int]);
                        }
                    }
                }
            }
            j += 1;
        }
        assert(entries@.take(entries@.len() as int) =~= entries@);
        state
    }

    /// The selected applications after selecting (`enabled`) or deselecting
    /// one, without changing the state: the caller saves the settings first
    /// and then takes the new list. The key is normalised and the display
    /// name trimmed; the system sounds cannot be selected.
    pub fn applications_after(&self, key: &str, display_name: &str, enabled: bool) -> (res: Result<
        StrMap<String>,
        String,
    >)
        requires
            self.wf(),
        ensures
            match res {
                Ok(m) => {
                    &&& selectable_key(app_key(key@))
                    &&& m.wf()
                    &&& m.has(app_key(key@)) == enabled
                    &&& enabled ==> m.value(app_key(key@))@ == trim(display_name@)
                    &&& forall|k: Seq<char>| k != app_key(key@) ==> {
                        &&& #[trigger] m.has(k) == self.applications.has(k)
                        &&& m.has(k) ==> m.value(k) == self.applications.value(k)
                    }
                },
                Err(e) => !selectable_key(app_key(key@)) && e@ == invalid_application_message(),
            },
    {
        let display = trimmed(display_name);
        let normalized = normalize_app_key(key);
        if chars_of(normalized.as_str()).len() == 0 || str_equal(normalized.as_str(), "system sounds")
            || str_equal(normalized.as_str(), "系统音效") {
            return Err(String::from_str("请选择一个有效的应用音频会话"));
        }
        let mut next = copy_text_map(&self.applications);
        if enabled {
            next.insert(normalized, display);
        } else {
            let _ = next.remove(normalized.as_str());
        }
        Ok(next)
    }
}

/// Message when an application cannot be selected.
pub open spec fn invalid_application_message() -> Seq<char> {
    "请选择一个有效的应用音频会话"@
}

/// A key that can be selected: not blank and not the system sounds.
pub open spec fn selectable_key(k: Seq<char>) -> bool {
    k.len() > 0 && k != "system sounds"@ && k != "系统音效"@
}

/// A copy of a text map.
pub fn copy_text_map(m: &StrMap<String>) -> (res: StrMap<String>)
    ensures
        res.entries@ == m.entries@,
{
    let mut entries: Vec<(String, String)> = Vec::new();
    let mut i: usize = 0;
    while i < m.entries.len()
        invariant
            i <= m.entries@.len(),
            entries@ =~= m.entries@.take(i as int),
        decreases m.entries@.len() - i,
    {
        entries.push((m.entries[i].0.clone(), m.entries[i].1.clone()));
        i += 1;
    }
    assert(m.entries@.take(m.entries@.len() as int) =~= m.entries@);
    StrMap { entries }
}

/// The endpoint a selected application's sound really plays on, when that is
/// not the endpoint its session was found on: the endpoint the application is
/// routed to (`Ok(Some(..))`, non-empty), else the default output when it is
/// not routed (`Ok(..)`); nothing when the routing query failed (`Err`), for
/// system sounds (PID 0) and for applications that are not selected.
pub open spec fn effective_output_target(
    pid: u32,
    session_device_id: Seq<char>,
    selected: bool,
    routed_device: Result<Option<Seq<char>>, ()>,
    default_device_id: Option<Seq<char>>,
) -> Option<Seq<char>> {
    if pid == 0 || !selected {
        None
    } else {
        let target = match routed_device {
            Ok(Some(d)) => if d.len() > 0 {
                Some(d)
            } else {
                default_device_id
            },
            Ok(None) => default_device_id,
            Err(()) => None,
        };
        match target {
            Some(t) => if t == session_device_id {
                None
            } else {
                Some(t)
            },
            None => None,
        }
    }
}

/// Decides on which other endpoint the session of a selected application must
/// be looked up again, given what the per-application routing query answered.
pub fn effective_output_device<V>(
    session: &AudioSession<V>,
    selected: bool,
    routed_device: Result<Option<String>, ()>,
    default_device_id: Option<&str>,
) -> (res: Option<String>)
    ensures
        opt_view(res) == effective_output_target(
            session.pid,
            session.device_id@,
            selected,
            match routed_device {
                Ok(r) => Ok(opt_view(r)),
                Err(()) => Err(()),
            },
            match default_device_id {
                Some(d) => Some(d@),
                None => None,
            },
        ),
{
    if session.pid == 0 || !selected {
        return None;
    }
    let target: Option<String> = match routed_device {
        Ok(Some(d)) => {
            if chars_of(d.as_str()).len() > 0 {
                Some(d)
            } else {
                match default_device_id {
                    Some(x) => Some(String::from_str(x)),
                    None => None,
                }
            }
        },
        Ok(None) => match default_device_id {
            Some(x) => Some(String::from_str(x)),
            None => None,
        },
        Err(()) => None,
    };
    match target {
        Some(t) => {
            if str_equal(t.as_str(), session.device_id.as_str()) {
                None
            } else {
                Some(t)
            }
        },
        None => None,
    }
}

// ---------------------------------------------------------------------------
// Laws
// ---------------------------------------------------------------------------

/// Only applications that are to be kept muted (feature running, application
/// selected, not in the foreground) are ever muted or kept muted.
pub proof fn law_only_kept_applications_stay_muted<V>(
    state: RuntimeState,
    entry: RestoreEntry,
    current: Option<AudioSession<V>>,
    observed: Option<Option<bool>>,
    session: AudioSession<V>,
)
    ensures
        (tracked_plan(state, entry, current, observed) is KeepMuted || tracked_plan(
            state,
            entry,
            current,
            observed,
        ) is HandOff) ==> state.keeps_muted(entry.key@),
        needs_mute(state, session) ==> state.keeps_muted(session_key(session)),
{
}

/// The application in the foreground is never muted, and the records of its
/// sessions are released (or retried when their state cannot be read).
pub proof fn law_foreground_application_is_released<V>(
    state: RuntimeState,
    entry: RestoreEntry,
    current: Option<AudioSession<V>>,
    observed: Option<Option<bool>>,
    session: AudioSession<V>,
)
    requires
        opt_view(state.foreground_key) == Some(entry.key@),
        opt_view(state.foreground_key) == Some(session_key(session)),
    ensures
        tracked_plan(state, entry, current, observed) is Retry || tracked_plan(
            state,
            entry,
            current,
            observed,
        ) is Release,
        !needs_mute(state, session),
{
}

/// While the feature is paused nothing is muted, and every record is
/// released (or retried when its state cannot be read).
pub proof fn law_paused_mutes_nothing<V>(
    state: RuntimeState,
    entry: RestoreEntry,
    current: Option<AudioSession<V>>,
    observed: Option<Option<bool>>,
    session: AudioSession<V>,
)
    requires
        state.paused,
    ensures
        tracked_plan(state, entry, current, observed) is Retry || tracked_plan(
            state,
            entry,
            current,
            observed,
        ) is Release,
        !needs_mute(state, session),
{
}

/// Releasing a record puts the session back to the state it had before the
/// feature muted it: the state to set is the recorded one, and nothing is
/// set only when the session is gone, its state is unknown, or it is
/// already in the recorded state.
pub proof fn law_release_restores_recorded_state<V>(
    state: RuntimeState,
    entry: RestoreEntry,
    current: Option<AudioSession<V>>,
    observed: Option<Option<bool>>,
)
    ensures
        tracked_plan(state, entry, current, observed) matches TrackedPlan::Release { restore } ==> {
            &&& restore matches Some(b) ==> b == entry.was_muted && observed == Some(
                Some(!entry.was_muted),
            )
            &&& restore is None ==> observed != Some(Some(!entry.was_muted))
        },
{
}

/// Restoring a pending record sets, when it sets anything, the recorded
/// state, and it is done without setting only when the session is gone or
/// already in that state.
pub proof fn law_restore_plan_targets_recorded_state(was_muted: bool, observed: Option<Option<bool>>)
    ensures
        restore_plan(was_muted, observed) matches RestoreStep::SetMute { muted, .. } ==> muted
            == was_muted,
        restore_plan(was_muted, observed) == RestoreStep::Finish(PendingRestoreAction::RestoredOrGone)
            ==> observed == Some(None::<bool>) || observed == Some(Some(was_muted)),
        !(restore_plan(was_muted, observed) is CheckActivity),
{
}

/// A pending record whose old session is still active is never dropped:
/// the old endpoint stays muted until the session stops there.
pub proof fn law_active_old_session_stays_muted(muted_now: bool)
    ensures
        activity_step(muted_now, Some(Some(true))) matches RestoreStep::Finish(a) ==> a
            == PendingRestoreAction::Keep,
        activity_step(muted_now, Some(Some(true))) matches RestoreStep::SetMute {
            muted,
            on_success,
            on_failure,
        } ==> muted && on_success == PendingRestoreAction::Keep && on_failure
            == PendingRestoreAction::Keep,
{
}

/// When a record is handed over from a named endpoint to another one, the
/// old endpoint is left with a pending record, so that its session is
/// restored later.
pub proof fn law_handoff_queues_old_endpoint(
    pending: Seq<RestoreEntry>,
    entry: RestoreEntry,
    target_device: Seq<char>,
)
    requires
        entry.device_id@.len() > 0,
        entry.device_id@ != target_device,
    ensures
        exists|j: int|
            0 <= j < handoff_pending(pending, entry, target_device).len() && #[trigger] same_target(
                handoff_pending(pending, entry, target_device)[j],
                entry.pid,
                entry.key@,
                entry.device_id@,
            ),
{
    let p1 = match first_target(pending, entry.pid, entry.key@, target_device) {
        Some(i) => pending.remove(i),
        None => pending,
    };
    lemma_first_target(p1, entry.pid, entry.key@, entry.device_id@);
    let r = handoff_pending(pending, entry, target_device);
    if first_target(p1, entry.pid, entry.key@, entry.device_id@) is None {
        assert(r == p1.push(with_pending(entry, true)));
        assert(same_target(r[p1.len() as int], entry.pid, entry.key@, entry.device_id@));
    } else {
        let j = first_target(p1, entry.pid, entry.key@, entry.device_id@)->0;
        assert(r == p1);
        assert(same_target(r[j], entry.pid, entry.key@, entry.device_id@));
    }
}


/// Right after pausing, every record is released by the next round: with its
/// state read, its plan is a release that puts back the recorded state (or
/// nothing when the session is already there or gone), and once that call
/// succeeds the record is gone.
pub proof fn law_pausing_releases_every_record<V>(
    state: RuntimeState,
    pid: u32,
    current: Option<AudioSession<V>>,
    observed: Option<Option<bool>>,
    next: RuntimeState,
)
    requires
        state.wf(),
        state.paused,
        state.record_of(pid) is Some,
        observed is Some,
        after_tracked_state(
            state,
            next,
            pid,
            tracked_plan(state, state.record_of(pid)->0, current, observed),
            current,
            true,
        ),
    ensures
        tracked_plan(state, state.record_of(pid)->0, current, observed) matches TrackedPlan::Release {
            restore,
        } && (restore is None || restore == Some(state.record_of(pid)->0.was_muted)),
        next.record_of(pid) is None,
{
}

/// A round while paused only releases: no record is added (nothing is to be
/// muted), handling a record never adds a pending one and never grows the
/// records, and every call it makes puts back the recorded state.
pub proof fn law_paused_round_only_releases<V>(
    state: RuntimeState,
    pid: u32,
    current: Option<AudioSession<V>>,
    observed: Option<Option<bool>>,
    call_ok: bool,
    next: RuntimeState,
    session: AudioSession<V>,
)
    requires
        state.wf(),
        state.paused,
        state.record_of(pid) is Some,
        after_tracked_state(
            state,
            next,
            pid,
            tracked_plan(state, state.record_of(pid)->0, current, observed),
            current,
            call_ok,
        ),
    ensures
        !needs_mute(state, session),
        next.pending_restores == state.pending_restores,
        next.auto_muted@.len() <= state.auto_muted@.len(),
        tracked_call(tracked_plan(state, state.record_of(pid)->0, current, observed)) matches Some(b)
            ==> b == state.record_of(pid)->0.was_muted,
{
    let i = pid_index(state.auto_muted@, pid)->0;
    assert(0 <= i < state.auto_muted@.len());
}

} // verus!
