//! Coalescing of Windows audio notifications: the signals that arrive within
//! one short window are merged into a single refresh of the interface.
use vstd::prelude::*;

verus! {

/// A notification from the audio system.
#[derive(Debug, Clone, Copy, PartialEq, Eq, Structural)]
pub enum WatchSignal {
    /// A session's volume, mute or state changed.
    SessionValuesChanged,
    /// A session appeared or went away.
    SessionTopologyChanged,
    /// An endpoint was added, removed, enabled or made default.
    DevicesChanged,
    /// The watcher is asked to stop.
    Shutdown,
}

/// What the watcher does after a window of signals. When `rebuild_managers`
/// is set the watcher first gives the driver a moment to settle.
#[derive(Debug, Clone, Copy, PartialEq, Eq, Structural)]
pub struct RefreshPlan {
    /// Stop watching; nothing else is done.
    pub stop: bool,
    /// Register again with every endpoint and its sessions.
    pub rebuild_managers: bool,
    /// Register again with the sessions of the known endpoints.
    pub rebuild_session_events: bool,
    /// Tell the interface that the device list changed.
    pub emit_devices: bool,
    /// Tell the interface that the sessions changed.
    pub emit_sessions: bool,
}

/// The plan for the signals of one window: stop on any shutdown; a device
/// change rebuilds everything and refreshes both lists; otherwise a session
/// appearing or leaving rebuilds the session listeners, and any session
/// change refreshes the session list.
pub open spec fn window_plan(signals: Seq<WatchSignal>) -> RefreshPlan {
    let stop = signals.contains(WatchSignal::Shutdown);
    let devices = signals.contains(WatchSignal::DevicesChanged);
    let topology = signals.contains(WatchSignal::SessionTopologyChanged);
    let values = signals.contains(WatchSignal::SessionValuesChanged);
    if stop {
        RefreshPlan {
            stop: true,
            rebuild_managers: false,
            rebuild_session_events: false,
            emit_devices: false,
            emit_sessions: false,
        }
    } else if devices {
        RefreshPlan {
            stop: false,
            rebuild_managers: true,
            rebuild_session_events: false,
            emit_devices: true,
            emit_sessions: true,
        }
    } else {
        RefreshPlan {
            stop: false,
            rebuild_managers: false,
            rebuild_session_events: topology,
            emit_devices: false,
            emit_sessions: topology || values,
        }
    }
}

/// A sequence with one more signal holds a signal when it held it before
/// or the new one is it.
proof fn lemma_push_contains(s: Seq<WatchSignal>, a: WatchSignal, x: WatchSignal)
    ensures
        s.push(a).contains(x) == (s.contains(x) || a == x),
{
    let t = s.push(a);
    if s.contains(x) {
        let j = choose|j: int| 0 <= j < s.len() && s[j] == x;
        assert(t[j] == x);
    }
    if a == x {
        assert(t[s.len() as int] == x);
    }
    if t.contains(x) {
        let j = choose|j: int| 0 <= j < t.len() && t[j] == x;
        if j < s.len() {
            assert(s[j] == x);
        }
    }
}

/// Merges the first signal of a window with those that followed it within
/// the window into one refresh.
pub fn coalesce(first: WatchSignal, more: &[WatchSignal]) -> (res: RefreshPlan)
    ensures
        res == window_plan(seq![first] + more@),
{
    let ghost all = seq![first] + more@;
    let mut stop = first == WatchSignal::Shutdown;
    let mut devices = first == WatchSignal::DevicesChanged;
    let mut topology = first == WatchSignal::SessionTopologyChanged;
    let mut values = first == WatchSignal::SessionValuesChanged;
    proof {
        let e = Seq::<WatchSignal>::empty();
        assert(all.take(1) =~= e.push(first));
        lemma_push_contains(e, first, WatchSignal::Shutdown);
        lemma_push_contains(e, first, WatchSignal::DevicesChanged);
        lemma_push_contains(e, first, WatchSignal::SessionTopologyChanged);
        lemma_push_contains(e, first, WatchSignal::SessionValuesChanged);
    }
    let mut i: usize = 0;
    while i < more.len()
        invariant
            i <= more@.len(),
            all == seq![first] + more@,
            stop == all.take(i + 1).contains(WatchSignal::Shutdown),
            devices == all.take(i + 1).contains(WatchSignal::DevicesChanged),
            topology == all.take(i + 1).contains(WatchSignal::SessionTopologyChanged),
            values == all.take(i + 1).contains(WatchSignal::SessionValuesChanged),
        decreases more@.len() - i,
    {
        let s = more[i];
        proof {
            assert(all.take(i + 2) =~= all.take(i + 1).push(s));
            assert(all[i + 1] == s);
            let p = all.take(i + 1);
            lemma_push_contains(p, s, WatchSignal::Shutdown);
            lemma_push_contains(p, s, WatchSignal::DevicesChanged);
            lemma_push_contains(p, s, WatchSignal::SessionTopologyChanged);
            lemma_push_contains(p, s, WatchSignal::SessionValuesChanged);
        }
        match s {
            WatchSignal::Shutdown => stop = true,
            WatchSignal::DevicesChanged => devices = true,
            WatchSignal::SessionTopologyChanged => topology = true,
            WatchSignal::SessionValuesChanged => values = true,
        }
        i += 1;
    }
    proof {
        assert(all.take(more@.len() + 1 as int) =~= all);
    }
    if stop {
        RefreshPlan {
            stop: true,
            rebuild_managers: false,
            rebuild_session_events: false,
            emit_devices: false,
            emit_sessions: false,
        }
    } else if devices {
        RefreshPlan {
            stop: false,
            rebuild_managers: true,
            rebuild_session_events: false,
            emit_devices: true,
            emit_sessions: true,
        }
    } else {
        RefreshPlan {
            stop: false,
            rebuild_managers: false,
            rebuild_session_events: topology,
            emit_devices: false,
            emit_sessions: topology || values,
        }
    }
}

/// The plan when no signal came for a long while: register again with every
/// endpoint (drivers sometimes miss notifications) and refresh both lists.
pub fn idle_refresh() -> (res: RefreshPlan)
    ensures
        res == (RefreshPlan {
            stop: false,
            rebuild_managers: true,
            rebuild_session_events: false,
            emit_devices: true,
            emit_sessions: true,
        }),
{
    RefreshPlan {
        stop: false,
        rebuild_managers: true,
        rebuild_session_events: false,
        emit_devices: true,
        emit_sessions: true,
    }
}

} // verus!
