//! Application volumes that follow the default speaker: for each output
//! device a snapshot of the volume and mute state of each application, taken
//! while it plays there and put back when that device becomes the default
//! again. Volumes are carried as given (`V`, a linear level); the caller
//! clamps them to 0..1 before they are stored.
use vstd::prelude::*;

use crate::device::{session_app_key, session_key, AudioDevice, AudioSession};
use crate::str_map::StrMap;
use crate::text::{chars_of, str_equal};

verus! {

/// What is remembered of one application on one device.
#[derive(Debug)]
pub struct SessionVolumeSnapshot<V> {
    pub display_name: String,
    pub volume: V,
    pub muted: bool,
}

/// What is remembered of one device.
#[derive(Debug)]
pub struct DeviceVolumeSnapshot<V> {
    pub device_name: String,
    /// Milliseconds since the Unix epoch of the last update.
    pub updated_at: u64,
    /// Per application key.
    pub sessions: StrMap<SessionVolumeSnapshot<V>>,
}

/// The status shown to the interface.
#[derive(Debug)]
pub struct DeviceVolumeFollowStatus {
    pub enabled: bool,
    pub current_device_id: Option<String>,
    pub current_device_name: Option<String>,
}

/// Reported when the default speaker changed and its snapshot was handled.
#[derive(Debug)]
pub struct DeviceVolumeFollowEvent {
    pub device_id: String,
    pub device_name: String,
    pub snapshot_found: bool,
    pub applied: usize,
}

/// The persisted state of the feature.
pub struct VolumeFollowState<V> {
    pub enabled: bool,
    pub current_device_id: Option<String>,
    pub current_device_name: Option<String>,
    /// Per device identifier.
    pub snapshots: StrMap<DeviceVolumeSnapshot<V>>,
}

/// Whether a key is among the keys of sessions muted by the unfocused-mute
/// feature.
pub open spec fn listed(keys: Seq<String>, k: Seq<char>) -> bool {
    exists|i: int| 0 <= i < keys.len() && (#[trigger] keys[i])@ == k
}

fn is_listed(keys: &Vec<String>, k: &str) -> (r: bool)
    ensures
        r == listed(keys@, k@),
{
    let mut i: usize = 0;
    while i < keys.len()
        invariant
            i <= keys@.len(),
            forall|j: int| 0 <= j < i ==> (#[trigger] keys@[j])@ != k@,
        decreases keys@.len() - i,
    {
        if str_equal(keys[i].as_str(), k) {
            return true;
        }
        i += 1;
    }
    false
}

/// What a snapshot remembers of a session: its name, its volume, and its
/// mute state unless that mute is a temporary one from the unfocused-mute
/// feature.
pub open spec fn remembered<V>(session: AudioSession<V>, auto_muted: Seq<String>) -> (Seq<char>, V, bool) {
    (session.display_name@, session.volume, session.muted && !listed(auto_muted, session_key(session)))
}

/// The view of a remembered session.
pub open spec fn entry_view<V>(e: SessionVolumeSnapshot<V>) -> (Seq<char>, V, bool) {
    (e.display_name@, e.volume, e.muted)
}

/// The sessions of a snapshot built from a session list: one entry per
/// application key, the last session of that application winning.
pub open spec fn snapshot_of<V>(sessions: Seq<AudioSession<V>>, auto_muted: Seq<String>) -> Map<
    Seq<char>,
    (Seq<char>, V, bool),
>
    decreases sessions.len(),
{
    if sessions.len() == 0 {
        Map::empty()
    } else {
        snapshot_of(sessions.drop_last(), auto_muted).insert(
            session_key(sessions.last()),
            remembered(sessions.last(), auto_muted),
        )
    }
}

/// The map of remembered sessions equals `m` plus the entries of `extra`,
/// which win.
pub open spec fn holds<V>(
    sessions: StrMap<SessionVolumeSnapshot<V>>,
    base: StrMap<SessionVolumeSnapshot<V>>,
    extra: Map<Seq<char>, (Seq<char>, V, bool)>,
) -> bool {
    &&& sessions.wf()
    &&& forall|k: Seq<char>| #[trigger]
        sessions.has(k) == (base.has(k) || extra.dom().contains(k))
    &&& forall|k: Seq<char>|
        sessions.has(k) ==> #[trigger] entry_view(sessions.value(k)) == if extra.dom().contains(k) {
            extra[k]
        } else {
            entry_view(base.value(k))
        }
}

/// Adds the sessions of a list to remembered sessions, the list winning.
pub fn remember_sessions<V: Copy>(
    target: &mut StrMap<SessionVolumeSnapshot<V>>,
    sessions: &[AudioSession<V>],
    auto_muted_keys: &Vec<String>,
)
    requires
        old(target).wf(),
    ensures
        holds(*final(target), *old(target), snapshot_of(sessions@, auto_muted_keys@)),
{
    let ghost base = *target;
    let mut i: usize = 0;
    while i < sessions.len()
        invariant
            i <= sessions@.len(),
            holds(*target, base, snapshot_of(sessions@.take(i as int), auto_muted_keys@)),
        decreases sessions@.len() - i,
    {
        let session = &sessions[i];
        let key = session_app_key(session);
        let muted = session.muted && !is_listed(auto_muted_keys, key.as_str());
        let ghost before = *target;
        target.insert(
            key,
            SessionVolumeSnapshot {
                display_name: session.display_name.clone(),
                volume: session.volume,
                muted,
            },
        );
        proof {
            let t = sessions@.take(i + 1);
            assert(t.drop_last() =~= sessions@.take(i as int));
            assert(t.last() == sessions@[i as int]);
            let m = snapshot_of(t, auto_muted_keys@);
            assert(m == snapshot_of(sessions@.take(i as int), auto_muted_keys@).insert(
                session_key(sessions@[i as int]),
                remembered(sessions@[i as int], auto_muted_keys@),
            ));
            assert forall|k: Seq<char>| target.has(k) implies #[trigger] entry_view(target.value(k))
                == if m.dom().contains(k) {
                m[k]
            } else {
                entry_view(base.value(k))
            } by {
                if k != session_key(sessions@[i as int]) {
                    assert(before.has(k));
                }
            }
        }
        i += 1;
    }
    assert(sessions@.take(sessions@.len() as int) =~= sessions@);
}

/// The map of remembered sessions holds exactly the entries of `m`.
pub open spec fn holds_exactly<V>(sessions: StrMap<SessionVolumeSnapshot<V>>, m: Map<Seq<char>, (Seq<char>, V, bool)>) -> bool {
    &&& sessions.wf()
    &&& forall|k: Seq<char>| #[trigger] sessions.has(k) == m.dom().contains(k)
    &&& forall|k: Seq<char>| sessions.has(k) ==> #[trigger] entry_view(sessions.value(k)) == m[k]
}

/// A snapshot of the sessions playing on a device.
pub fn build_snapshot<V: Copy>(
    device_name: &str,
    sessions: &[AudioSession<V>],
    auto_muted_keys: &Vec<String>,
    now_ms: u64,
) -> (res: DeviceVolumeSnapshot<V>)
    ensures
        res.device_name@ == device_name@,
        res.updated_at == now_ms,
        holds_exactly(res.sessions, snapshot_of(sessions@, auto_muted_keys@)),
{
    let mut map: StrMap<SessionVolumeSnapshot<V>> = StrMap::new();
    let ghost empty = map;
    remember_sessions(&mut map, sessions, auto_muted_keys);
    proof {
        assert forall|k: Seq<char>| #[trigger] map.has(k) == snapshot_of(sessions@, auto_muted_keys@).dom().contains(k) by {
            assert(!empty.has(k));
        }
    }
    DeviceVolumeSnapshot { device_name: String::from_str(device_name), updated_at: now_ms, sessions: map }
}

/// Refreshes a device's snapshot with the sessions playing now: its name
/// and time are updated, and applications not playing now keep what was
/// remembered of them.
pub fn merge_snapshot<V: Copy>(
    snapshot: &mut DeviceVolumeSnapshot<V>,
    device_name: &str,
    sessions: &[AudioSession<V>],
    auto_muted_keys: &Vec<String>,
    now_ms: u64,
)
    requires
        old(snapshot).sessions.wf(),
    ensures
        final(snapshot).device_name@ == device_name@,
        final(snapshot).updated_at == now_ms,
        holds(final(snapshot).sessions, old(snapshot).sessions, snapshot_of(sessions@, auto_muted_keys@)),
{
    snapshot.device_name = String::from_str(device_name);
    snapshot.updated_at = now_ms;
    remember_sessions(&mut snapshot.sessions, sessions, auto_muted_keys);
}

// ---------------------------------------------------------------------------
// Putting a snapshot back
// ---------------------------------------------------------------------------

/// A session to set back: its process, volume and mute state.
#[derive(Debug, Clone, Copy)]
pub struct ApplyTarget<V> {
    pub pid: u32,
    pub volume: V,
    pub muted: bool,
}

/// The view of an apply target.
pub open spec fn target_view<V>(t: ApplyTarget<V>) -> (u32, V, bool) {
    (t.pid, t.volume, t.muted)
}

/// The sessions to set back from a snapshot, in order: the first session of
/// each process, when the snapshot remembers its application.
pub open spec fn apply_list<V>(sessions: Seq<AudioSession<V>>, snapshot: StrMap<SessionVolumeSnapshot<V>>) -> Seq<
    (u32, V, bool),
>
    decreases sessions.len(),
{
    if sessions.len() == 0 {
        seq![]
    } else {
        let rest = apply_list(sessions.drop_last(), snapshot);
        let s = sessions.last();
        let first_of_pid = forall|j: int| 0 <= j < sessions.len() - 1 ==> (#[trigger] sessions[j]).pid != s.pid;
        if first_of_pid && snapshot.has(session_key(s)) {
            let e = snapshot.value(session_key(s));
            rest.push((s.pid, e.volume, e.muted))
        } else {
            rest
        }
    }
}

/// The sessions to set back from a snapshot.
pub fn apply_targets<V: Copy>(sessions: &[AudioSession<V>], snapshot: &DeviceVolumeSnapshot<V>) -> (res: Vec<
    ApplyTarget<V>,
>)
    requires
        snapshot.sessions.wf(),
    ensures
        res@.map_values(|t: ApplyTarget<V>| target_view(t)) == apply_list(sessions@, snapshot.sessions),
{
    let mut out: Vec<ApplyTarget<V>> = Vec::new();
    let mut i: usize = 0;
    while i < sessions.len()
        invariant
            i <= sessions@.len(),
            snapshot.sessions.wf(),
            out@.map_values(|t: ApplyTarget<V>| target_view(t)) == apply_list(
                sessions@.take(i as int),
                snapshot.sessions,
            ),
        decreases sessions@.len() - i,
    {
        let s = &sessions[i];
        let mut seen = false;
        let mut j: usize = 0;
        while j < i
            invariant
                j <= i < sessions@.len(),
                s.pid == sessions@[i as int].pid,
                seen == exists|k: int| 0 <= k < j && (#[trigger] sessions@[k]).pid == sessions@[i as int].pid,
            decreases i - j,
        {
            if sessions[j].pid == s.pid {
                seen = true;
            }
            j += 1;
        }
        let ghost t = sessions@.take(i + 1);
        proof {
            assert(t.drop_last() =~= sessions@.take(i as int));
            assert(t.last() == sessions@[i as int]);
            assert((forall|k: int| 0 <= k < t.len() - 1 ==> (#[trigger] t[k]).pid != t.last().pid) == !seen) by {
                if seen {
                    let k = choose|k: int| 0 <= k < i && (#[trigger] sessions@[k]).pid == sessions@[i as int].pid;
                    assert(t[k] == sessions@[k]);
                } else {
                    assert forall|k: int| 0 <= k < t.len() - 1 implies (#[trigger] t[k]).pid != t.last().pid by {
                        assert(t[k] == sessions@[k]);
                    }
                }
            }
        }
        if !seen {
            let key = session_app_key(s);
            match snapshot.sessions.get(key.as_str()) {
                Some(e) => {
                    let ghost before = out@;
                    out.push(ApplyTarget { pid: s.pid, volume: e.volume, muted: e.muted });
                    assert(out@.map_values(|t: ApplyTarget<V>| target_view(t)) =~= before.map_values(
                        |t: ApplyTarget<V>| target_view(t),
                    ).push((s.pid, e.volume, e.muted)));
                },
                None => {},
            }
        }
        i += 1;
    }
    assert(sessions@.take(sessions@.len() as int) =~= sessions@);
    out
}

// ---------------------------------------------------------------------------
// The state
// ---------------------------------------------------------------------------

/// The outcome of a change of the default speaker.
#[derive(Debug)]
pub enum OutputChange<V> {
    /// The feature is off: the new default was recorded (save the state).
    Recorded,
    /// The default is the device already followed: nothing to do.
    Unchanged,
    /// The state now follows the new default (save the state). When it had a
    /// snapshot, its sessions are to be set back (`targets`, and the event
    /// counts those set); otherwise a snapshot of it was taken.
    Switched { snapshot_found: bool, targets: Vec<ApplyTarget<V>> },
}

impl<V: Copy> VolumeFollowState<V> {
    /// Snapshots are well ordered.
    pub open spec fn wf(&self) -> bool {
        &&& self.snapshots.wf()
        &&& forall|k: Seq<char>| #[trigger] self.snapshots.has(k) ==> self.snapshots.value(k).sessions.wf()
    }

    /// The followed device is `id`.
    pub open spec fn follows(&self, id: Seq<char>) -> bool {
        self.current_device_id matches Some(c) && c@ == id
    }

    /// The state read when nothing was saved: off, no device, no snapshot.
    pub fn new() -> (res: Self)
        ensures
            res.wf(),
            !res.enabled,
            res.current_device_id is None,
            res.current_device_name is None,
            res.snapshots.size() == 0,
    {
        VolumeFollowState {
            enabled: false,
            current_device_id: None,
            current_device_name: None,
            snapshots: StrMap::new(),
        }
    }

    /// The status shown to the interface.
    pub fn status(&self) -> (res: DeviceVolumeFollowStatus)
        ensures
            res.enabled == self.enabled,
            res.current_device_id == self.current_device_id,
            res.current_device_name == self.current_device_name,
    {
        DeviceVolumeFollowStatus {
            enabled: self.enabled,
            current_device_id: copy_text(&self.current_device_id),
            current_device_name: copy_text(&self.current_device_name),
        }
    }

    /// Turns the feature on or off while `device` is the default speaker.
    /// Snapshots from an older version are taken over when there are none
    /// yet; when turning on, `sessions` (those playing on the device) give
    /// it a fresh snapshot.
    pub fn configure(
        &mut self,
        enabled: bool,
        legacy_snapshots: Option<StrMap<DeviceVolumeSnapshot<V>>>,
        device: &AudioDevice,
        sessions: Option<&[AudioSession<V>]>,
        auto_muted_keys: &Vec<String>,
        now_ms: u64,
    )
        requires
            old(self).wf(),
            legacy_snapshots matches Some(l) ==> l.wf() && forall|k: Seq<char>| #[trigger] l.has(k) ==> l.value(
                k,
            ).sessions.wf(),
        ensures
            final(self).wf(),
            final(self).enabled == enabled,
            final(self).current_device_id == Some(device.device_id),
            final(self).current_device_name == Some(device.name),
            ({
                let base = if old(self).snapshots.size() == 0 && legacy_snapshots is Some {
                    legacy_snapshots->0
                } else {
                    old(self).snapshots
                };
                &&& forall|k: Seq<char>| k != device.device_id@ ==> {
                    &&& #[trigger] final(self).snapshots.has(k) == base.has(k)
                    &&& base.has(k) ==> final(self).snapshots.value(k) == base.value(k)
                }
                &&& sessions is None ==> final(self).snapshots.has(device.device_id@) == base.has(
                    device.device_id@,
                ) && (base.has(device.device_id@) ==> final(self).snapshots.value(device.device_id@)
                    == base.value(device.device_id@))
                &&& sessions matches Some(list) ==> {
                    &&& final(self).snapshots.has(device.device_id@)
                    &&& final(self).snapshots.value(device.device_id@).device_name@ == device.name@
                    &&& final(self).snapshots.value(device.device_id@).updated_at == now_ms
                    &&& holds_exactly(
                        final(self).snapshots.value(device.device_id@).sessions,
                        snapshot_of(list@, auto_muted_keys@),
                    )
                }
            }),
    {
        if self.snapshots.len() == 0 {
            if let Some(legacy) = legacy_snapshots {
                self.snapshots = legacy;
            }
        }
        self.enabled = enabled;
        self.current_device_id = Some(device.device_id.clone());
        self.current_device_name = Some(device.name.clone());
        let ghost base = self.snapshots;
        if let Some(list) = sessions {
            let snapshot = build_snapshot(device.name.as_str(), list, auto_muted_keys, now_ms);
            self.snapshots.insert(device.device_id.clone(), snapshot);
            proof {
                assert forall|k: Seq<char>| #[trigger] self.snapshots.has(k) implies self.snapshots.value(
                    k,
                ).sessions.wf() by {
                    if k != device.device_id@ {
                        assert(base.has(k));
                    }
                }
            }
        }
    }

    /// The device whose snapshot a capture refreshes, and its name when it
    /// is the followed device: the requested device when one is named, else
    /// the followed one; none while the feature is off.
    pub fn capture_target(&self, requested_device_id: Option<&str>) -> (res: Option<(String, Option<String>)>)
        ensures
            !self.enabled ==> res is None,
            self.enabled ==> match requested_device_id {
                Some(r) if r@.len() > 0 => res matches Some((id, _)) && id@ == r@,
                _ => match self.current_device_id {
                    Some(c) => res matches Some((id, _)) && id == c,
                    None => res is None,
                },
            },
            res matches Some((id, name)) ==> name == if self.follows(id@) {
                self.current_device_name
            } else {
                None
            },
    {
        if !self.enabled {
            return None;
        }
        let device_id = match requested_device_id {
            Some(r) if chars_of(r).len() > 0 => String::from_str(r),
            _ => match &self.current_device_id {
                Some(c) => c.clone(),
                None => {
                    return None;
                },
            },
        };
        let name = match &self.current_device_id {
            Some(c) => if *c == device_id {
                copy_text(&self.current_device_name)
            } else {
                None
            },
            None => None,
        };
        Some((device_id, name))
    }

    /// Refreshes the snapshot of a device with the sessions playing on it
    /// now (a new snapshot when it had none); nothing while the feature is
    /// off.
    pub fn record_capture(
        &mut self,
        device_id: &str,
        device_name: &str,
        sessions: &[AudioSession<V>],
        auto_muted_keys: &Vec<String>,
        now_ms: u64,
    )
        requires
            old(self).wf(),
        ensures
            final(self).wf(),
            final(self).enabled == old(self).enabled,
            final(self).current_device_id == old(self).current_device_id,
            final(self).current_device_name == old(self).current_device_name,
            !old(self).enabled ==> final(self).snapshots == old(self).snapshots,
            old(self).enabled ==> {
                &&& forall|k: Seq<char>| k != device_id@ ==> {
                    &&& #[trigger] final(self).snapshots.has(k) == old(self).snapshots.has(k)
                    &&& old(self).snapshots.has(k) ==> final(self).snapshots.value(k) == old(
                        self,
                    ).snapshots.value(k)
                }
                &&& final(self).snapshots.has(device_id@)
                &&& final(self).snapshots.value(device_id@).device_name@ == device_name@
                &&& final(self).snapshots.value(device_id@).updated_at == now_ms
                &&& old(self).snapshots.has(device_id@) ==> holds(
                    final(self).snapshots.value(device_id@).sessions,
                    old(self).snapshots.value(device_id@).sessions,
                    snapshot_of(sessions@, auto_muted_keys@),
                )
                &&& !old(self).snapshots.has(device_id@) ==> holds_exactly(
                    final(self).snapshots.value(device_id@).sessions,
                    snapshot_of(sessions@, auto_muted_keys@),
                )
            },
    {
        if !self.enabled {
            return;
        }
        let ghost before = self.snapshots;
        let mut snapshot = match self.snapshots.remove(device_id) {
            Some(existing) => existing,
            None => DeviceVolumeSnapshot {
                device_name: String::from_str(device_name),
                updated_at: now_ms,
                sessions: StrMap::new(),
            },
        };
        let ghost old_sessions = snapshot.sessions;
        merge_snapshot(&mut snapshot, device_name, sessions, auto_muted_keys, now_ms);
        let ghost merged = snapshot;
        let ghost removed = self.snapshots;
        self.snapshots.insert(String::from_str(device_id), snapshot);
        proof {
            assert forall|k: Seq<char>| #[trigger] self.snapshots.has(k) implies self.snapshots.value(
                k,
            ).sessions.wf() by {
                if k != device_id@ {
                    assert(removed.has(k));
                    assert(before.has(k));
                }
            }
            if !before.has(device_id@) {
                assert forall|k: Seq<char>| #[trigger] merged.sessions.has(k) == snapshot_of(
                    sessions@,
                    auto_muted_keys@,
                ).dom().contains(k) by {
                    assert(!old_sessions.has(k));
                }
            }
        }
    }

    /// The snapshot to set back for the followed device, when the feature
    /// is on and it has one.
    pub fn current_snapshot(&self) -> (res: Option<(&String, &DeviceVolumeSnapshot<V>)>)
        requires
            self.wf(),
        ensures
            match res {
                Some((id, snap)) => self.enabled && self.current_device_id == Some(*id)
                    && self.snapshots.has(id@) && *snap == self.snapshots.value(id@),
                None => !self.enabled || self.current_device_id is None || !self.snapshots.has(
                    self.current_device_id->0@,
                ),
            },
    {
        if !self.enabled {
            return None;
        }
        match &self.current_device_id {
            None => None,
            Some(id) => match self.snapshots.get(id.as_str()) {
                Some(snap) => Some((id, snap)),
                None => None,
            },
        }
    }

    /// The name the followed device's snapshot is saved under.
    pub open spec fn followed_name(&self) -> Seq<char> {
        match self.current_device_name {
            Some(n) => n@,
            None => Seq::empty(),
        }
    }

    /// `fin` holds, for the device followed in `self`, the snapshot refreshed
    /// with `sessions` (its current state), saved under its name at `now_ms`.
    pub open spec fn saved_followed(
        &self,
        fin: &Self,
        sessions: Seq<AudioSession<V>>,
        auto_muted_keys: Seq<String>,
        now_ms: u64,
    ) -> bool {
        match self.current_device_id {
            Some(o) => {
                &&& fin.snapshots.has(o@)
                &&& fin.snapshots.value(o@).device_name@ == self.followed_name()
                &&& fin.snapshots.value(o@).updated_at == now_ms
                &&& self.snapshots.has(o@) ==> holds(
                    fin.snapshots.value(o@).sessions,
                    self.snapshots.value(o@).sessions,
                    snapshot_of(sessions, auto_muted_keys),
                )
                &&& !self.snapshots.has(o@) ==> holds_exactly(
                    fin.snapshots.value(o@).sessions,
                    snapshot_of(sessions, auto_muted_keys),
                )
            },
            None => true,
        }
    }

    /// Follows a change of the default speaker to `device`, whose sessions
    /// are `sessions`. The speaker followed until now, whose sessions are
    /// `previous_sessions`, first has its current state saved; then the new
    /// speaker's snapshot is set back (or, the first time, taken).
    pub fn default_output_changed(
        &mut self,
        device: &AudioDevice,
        sessions: &[AudioSession<V>],
        previous_sessions: &[AudioSession<V>],
        auto_muted_keys: &Vec<String>,
        now_ms: u64,
    ) -> (res: OutputChange<V>)
        requires
            old(self).wf(),
        ensures
            final(self).wf(),
            final(self).enabled == old(self).enabled,
            !old(self).enabled ==> {
                &&& res is Recorded
                &&& final(self).current_device_id == Some(device.device_id)
                &&& final(self).current_device_name == Some(device.name)
                &&& final(self).snapshots == old(self).snapshots
            },
            old(self).enabled && old(self).follows(device.device_id@) ==> res is Unchanged
                && *final(self) == *old(self),
            old(self).enabled && !old(self).follows(device.device_id@) ==> {
                &&& final(self).current_device_id == Some(device.device_id)
                &&& final(self).current_device_name == Some(device.name)
                &&& old(self).saved_followed(&*final(self), previous_sessions@, auto_muted_keys@, now_ms)
                &&& forall|k: Seq<char>| k != device.device_id@ && !old(self).follows(k) ==> {
                    &&& #[trigger] final(self).snapshots.has(k) == old(self).snapshots.has(k)
                    &&& old(self).snapshots.has(k) ==> final(self).snapshots.value(k) == old(
                        self,
                    ).snapshots.value(k)
                }
                &&& res matches OutputChange::Switched { snapshot_found, targets } && {
                    &&& snapshot_found == old(self).snapshots.has(device.device_id@)
                    &&& snapshot_found ==> {
                        &&& targets@.map_values(|t: ApplyTarget<V>| target_view(t)) == apply_list(
                            sessions@,
                            old(self).snapshots.value(device.device_id@).sessions,
                        )
                        &&& final(self).snapshots.has(device.device_id@)
                        &&& final(self).snapshots.value(device.device_id@) == old(
                            self,
                        ).snapshots.value(device.device_id@)
                    }
                    &&& !snapshot_found ==> {
                        &&& targets@.len() == 0
                        &&& final(self).snapshots.has(device.device_id@)
                        &&& final(self).snapshots.value(device.device_id@).device_name@ == device.name@
                        &&& holds_exactly(
                            final(self).snapshots.value(device.device_id@).sessions,
                            snapshot_of(sessions@, auto_muted_keys@),
                        )
                    }
                }
            },
    {
        if !self.enabled {
            self.current_device_id = Some(device.device_id.clone());
            self.current_device_name = Some(device.name.clone());
            return OutputChange::Recorded;
        }
        if let Some(c) = &self.current_device_id {
            if *c == device.device_id {
                return OutputChange::Unchanged;
            }
        }
        let ghost start = *self;
        if let Some(previous_id) = copy_text(&self.current_device_id) {
            let previous_name = match &self.current_device_name {
                Some(n) => n.clone(),
                None => String::new(),
            };
            self.record_capture(
                previous_id.as_str(),
                previous_name.as_str(),
                previous_sessions,
                auto_muted_keys,
                now_ms,
            );
        }
        let ghost saved = self.snapshots;
        self.current_device_id = Some(device.device_id.clone());
        self.current_device_name = Some(device.name.clone());
        let found = self.snapshots.contains_key(device.device_id.as_str());
        assert(found == start.snapshots.has(device.device_id@));
        if found {
            let snapshot = self.snapshots.get(device.device_id.as_str()).unwrap();
            let targets = apply_targets(sessions, snapshot);
            OutputChange::Switched { snapshot_found: true, targets }
        } else {
            let snapshot = build_snapshot(device.name.as_str(), sessions, auto_muted_keys, now_ms);
            self.snapshots.insert(device.device_id.clone(), snapshot);
            proof {
                assert forall|k: Seq<char>| #[trigger] self.snapshots.has(k) implies self.snapshots.value(
                    k,
                ).sessions.wf() by {
                    if k != device.device_id@ {
                        assert(saved.has(k));
                    }
                }
            }
            OutputChange::Switched { snapshot_found: false, targets: Vec::new() }
        }
    }
}

/// A copy of an optional text.
pub fn copy_text(value: &Option<String>) -> (res: Option<String>)
    ensures
        res == *value,
{
    match value {
        Some(s) => Some(s.clone()),
        None => None,
    }
}

// ---------------------------------------------------------------------------
// Laws
// ---------------------------------------------------------------------------

/// A snapshot never records a mute that the unfocused-mute feature made:
/// an application it muted is remembered as unmuted.
pub proof fn law_temporary_mute_is_not_remembered<V>(
    sessions: Seq<AudioSession<V>>,
    auto_muted: Seq<String>,
    k: Seq<char>,
)
    requires
        listed(auto_muted, k),
        snapshot_of(sessions, auto_muted).dom().contains(k),
    ensures
        !snapshot_of(sessions, auto_muted)[k].2,
    decreases sessions.len(),
{
    if sessions.len() > 0 {
        if session_key(sessions.last()) != k {
            law_temporary_mute_is_not_remembered(sessions.drop_last(), auto_muted, k);
        }
    }
}

/// Refreshing a snapshot keeps what it remembered of applications that are
/// not playing now, and takes the current state of those that are.
pub proof fn law_merge_keeps_inactive_applications<V>(
    merged: StrMap<SessionVolumeSnapshot<V>>,
    before: StrMap<SessionVolumeSnapshot<V>>,
    playing: Map<Seq<char>, (Seq<char>, V, bool)>,
    k: Seq<char>,
)
    requires
        holds(merged, before, playing),
    ensures
        before.has(k) && !playing.dom().contains(k) ==> merged.has(k) && entry_view(merged.value(k))
            == entry_view(before.value(k)),
        playing.dom().contains(k) ==> merged.has(k) && entry_view(merged.value(k)) == playing[k],
{
}

/// Only the first session of a process is set back, so a process is never
/// set twice from one snapshot.
pub proof fn law_each_process_set_once<V>(
    sessions: Seq<AudioSession<V>>,
    snapshot: StrMap<SessionVolumeSnapshot<V>>,
)
    ensures
        forall|a: int, b: int|
            0 <= a < b < apply_list(sessions, snapshot).len() ==> #[trigger] apply_list(sessions, snapshot)[a].0
                != #[trigger] apply_list(sessions, snapshot)[b].0,
        forall|a: int|
            #![trigger apply_list(sessions, snapshot)[a]]
            0 <= a < apply_list(sessions, snapshot).len() ==> exists|i: int|
                0 <= i < sessions.len() && #[trigger] sessions[i].pid == apply_list(sessions, snapshot)[a].0,
    decreases sessions.len(),
{
    if sessions.len() > 0 {
        let p = sessions.drop_last();
        law_each_process_set_once(p, snapshot);
        let rest = apply_list(p, snapshot);
        let l = apply_list(sessions, snapshot);
        assert forall|a: int| #![trigger rest[a]] 0 <= a < rest.len() implies exists|i: int|
            0 <= i < sessions.len() && #[trigger] sessions[i].pid == rest[a].0 by {
            let i = choose|i: int| 0 <= i < p.len() && #[trigger] p[i].pid == rest[a].0;
            assert(sessions[i] == p[i]);
        }
        if l.len() > rest.len() {
            assert(l == rest.push(l.last()));
            assert(l.last().0 == sessions.last().pid);
            assert forall|a: int, b: int| 0 <= a < b < l.len() implies #[trigger] l[a].0 != #[trigger] l[b].0 by {
                if b == l.len() - 1 {
                    assert(l[a] == rest[a]);
                    let i = choose|i: int| 0 <= i < p.len() && #[trigger] p[i].pid == rest[a].0;
                    assert(sessions[i] == p[i]);
                } else {
                    assert(l[a] == rest[a]);
                    assert(l[b] == rest[b]);
                }
            }
            assert(sessions[sessions.len() - 1].pid == l.last().0);
        } else {
            assert(l == rest);
        }
    }
}

/// Every target sets a process back to exactly what the snapshot remembers
/// of its application: the remembered volume and the remembered mute state,
/// whatever state the session is in now.
pub proof fn law_targets_take_remembered_state<V>(
    sessions: Seq<AudioSession<V>>,
    snapshot: StrMap<SessionVolumeSnapshot<V>>,
)
    ensures
        forall|a: int|
            #![trigger apply_list(sessions, snapshot)[a]]
            0 <= a < apply_list(sessions, snapshot).len() ==> exists|i: int|
                0 <= i < sessions.len() && #[trigger] sessions[i].pid == apply_list(sessions, snapshot)[a].0
                    && snapshot.has(session_key(sessions[i]))
                    && apply_list(sessions, snapshot)[a].1 == snapshot.value(session_key(sessions[i])).volume
                    && apply_list(sessions, snapshot)[a].2 == snapshot.value(session_key(sessions[i])).muted
                    && forall|j: int| 0 <= j < i ==> sessions[j].pid != sessions[i].pid,
    decreases sessions.len(),
{
    if sessions.len() > 0 {
        let p = sessions.drop_last();
        law_targets_take_remembered_state(p, snapshot);
        let rest = apply_list(p, snapshot);
        let l = apply_list(sessions, snapshot);
        assert forall|a: int| #![trigger l[a]] 0 <= a < l.len() implies exists|i: int|
            0 <= i < sessions.len() && #[trigger] sessions[i].pid == l[a].0
                && snapshot.has(session_key(sessions[i]))
                && l[a].1 == snapshot.value(session_key(sessions[i])).volume
                && l[a].2 == snapshot.value(session_key(sessions[i])).muted
                && forall|j: int| 0 <= j < i ==> sessions[j].pid != sessions[i].pid by {
            if a < rest.len() {
                assert(l[a] == rest[a]);
                let i = choose|i: int|
                    0 <= i < p.len() && #[trigger] p[i].pid == rest[a].0 && snapshot.has(session_key(p[i]))
                        && rest[a].1 == snapshot.value(session_key(p[i])).volume
                        && rest[a].2 == snapshot.value(session_key(p[i])).muted
                        && forall|j: int| 0 <= j < i ==> p[j].pid != p[i].pid;
                assert(sessions[i] == p[i]);
                assert forall|j: int| 0 <= j < i implies sessions[j].pid != sessions[i].pid by {
                    assert(sessions[j] == p[j]);
                }
            } else {
                let n = sessions.len() - 1;
                assert(sessions[n] == sessions.last());
                assert forall|j: int| 0 <= j < n implies sessions[j].pid != sessions[n].pid by {
                    assert(sessions[j] == p[j]);
                }
            }
        }
    }
}

} // verus!
