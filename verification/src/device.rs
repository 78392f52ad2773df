//! Audio endpoints and application sessions, and the pure decisions taken on
//! lists of them: naming a session, ordering sessions across endpoints, and
//! finding the session that belongs to an application.
use vstd::prelude::*;

use crate::text::{chars_equal, chars_of, contains, contains_str};
use crate::unfocused_mute::{app_key, normalize_app_key};

verus! {

/// Direction of an endpoint's data flow.
#[derive(Debug, Clone, Copy, PartialEq, Eq, Structural)]
pub enum DeviceDirection {
    /// Render endpoints (speakers, headphones).
    Output,
    /// Capture endpoints (microphones).
    Input,
}

/// An audio endpoint.
#[derive(Debug, Clone)]
pub struct AudioDevice {
    /// Friendly name, such as "Speakers (EDIFIER M230)".
    pub name: String,
    /// WASAPI endpoint identifier.
    pub device_id: String,
    /// Whether this endpoint is the current default of its direction.
    pub is_default: bool,
}

/// An application's audio session on one endpoint. The volume is carried as
/// given by the caller (a linear level); the logic here never inspects it.
#[derive(Debug, Clone)]
pub struct AudioSession<V> {
    /// Display name, such as "Chrome" or "Discord".
    pub display_name: String,
    /// Executable name from the process snapshot, when known.
    pub process_name: Option<String>,
    /// Endpoint the session plays on.
    pub device_id: String,
    /// Process identifier (0 for system sounds).
    pub pid: u32,
    /// Session volume.
    pub volume: V,
    /// Whether the session is muted.
    pub muted: bool,
}

/// The name a session's application key is derived from: the real process
/// name when known, else the display name.
pub open spec fn key_source<V>(session: AudioSession<V>) -> Seq<char> {
    match session.process_name {
        Some(name) => name@,
        None => session.display_name@,
    }
}

/// The application key of a session.
pub open spec fn session_key<V>(session: AudioSession<V>) -> Seq<char> {
    app_key(key_source(session))
}

/// Application key of a session, preferring the real process name.
pub fn session_app_key<V>(session: &AudioSession<V>) -> (res: String)
    ensures
        res@ == session_key(*session),
{
    match &session.process_name {
        Some(name) => normalize_app_key(name.as_str()),
        None => normalize_app_key(session.display_name.as_str()),
    }
}

/// Name shown for the system-sounds session.
pub open spec fn system_sounds_name() -> Seq<char> {
    "系统音效"@
}

/// A session's reported display name is usable when it is not empty and is
/// not an unresolved resource reference (those start with '@').
pub open spec fn usable_display_name(name: Seq<char>) -> bool {
    name.len() > 0 && name[0] != '@'
}

/// The display name chosen for a session: its own usable name, else the
/// process name, else "系统音效" for PID 0; `None` means the session is skipped.
pub open spec fn chosen_display_name(
    raw: Option<Seq<char>>,
    process_name: Option<Seq<char>>,
    pid: u32,
) -> Option<Seq<char>> {
    if raw is Some && usable_display_name(raw->0) {
        raw
    } else if process_name is Some {
        process_name
    } else if pid == 0 {
        Some(system_sounds_name())
    } else {
        None
    }
}

/// The view of an optional string.
pub open spec fn opt_view(value: Option<String>) -> Option<Seq<char>> {
    match value {
        Some(s) => Some(s@),
        None => None,
    }
}

/// Chooses the display name of a session from what Windows reported.
pub fn session_display_name(raw: Option<String>, process_name: Option<String>, pid: u32) -> (res:
    Option<String>)
    ensures
        opt_view(res) == chosen_display_name(opt_view(raw), opt_view(process_name), pid),
{
    if let Some(name) = raw {
        let chars = chars_of(name.as_str());
        if chars.len() > 0 && chars[0] != '@' {
            return Some(name);
        }
    }
    if process_name.is_some() {
        return process_name;
    }
    if pid == 0 {
        Some(String::from_str("系统音效"))
    } else {
        None
    }
}

/// The session plays on the default endpoint.
pub open spec fn on_default<V>(session: AudioSession<V>, default_device_id: Option<Seq<char>>) -> bool {
    default_device_id == Some(session.device_id@)
}

/// Sessions on the default endpoint first, each group in its original order
/// (a stable sort on "is not on the default endpoint").
pub open spec fn default_first<V>(
    sessions: Seq<AudioSession<V>>,
    default_device_id: Option<Seq<char>>,
) -> Seq<AudioSession<V>> {
    sessions.filter(|s: AudioSession<V>| on_default(s, default_device_id)) + sessions.filter(
        |s: AudioSession<V>| !on_default(s, default_device_id),
    )
}

/// Two sessions belong to the same (PID, display name) pair.
pub open spec fn same_identity<V>(a: AudioSession<V>, b: AudioSession<V>) -> bool {
    a.pid == b.pid && a.display_name@ == b.display_name@
}

/// Keeps the first session of each (PID, display name) pair, in order.
pub open spec fn keep_first_identities<V>(sessions: Seq<AudioSession<V>>) -> Seq<AudioSession<V>>
    decreases sessions.len(),
{
    if sessions.len() == 0 {
        sessions
    } else {
        let kept = keep_first_identities(sessions.drop_last());
        if exists|j: int| 0 <= j < sessions.len() - 1 && same_identity(sessions[j], sessions.last()) {
            kept
        } else {
            kept.push(sessions.last())
        }
    }
}

/// Every kept session has an identity that occurs in the input, and every
/// identity of the input is kept.
proof fn lemma_keep_first_identities<V>(s: Seq<AudioSession<V>>, x: AudioSession<V>)
    ensures
        (exists|j: int| 0 <= j < keep_first_identities(s).len() && same_identity(
            #[trigger] keep_first_identities(s)[j],
            x,
        )) <==> (exists|j: int| 0 <= j < s.len() && same_identity(#[trigger] s[j], x)),
    decreases s.len(),
{
    if s.len() > 0 {
        let t = s.drop_last();
        lemma_keep_first_identities(t, x);
        let k = keep_first_identities(t);
        if exists|j: int| 0 <= j < s.len() && same_identity(#[trigger] s[j], x) {
            let j = choose|j: int| 0 <= j < s.len() && same_identity(#[trigger] s[j], x);
            if j < s.len() - 1 {
                assert(t[j] == s[j]);
            } else {
                if exists|i: int| 0 <= i < s.len() - 1 && same_identity(s[i], s.last()) {
                    let i = choose|i: int| 0 <= i < s.len() - 1 && same_identity(s[i], s.last());
                    assert(t[i] == s[i]);
                    assert(same_identity(t[i], x));
                } else {
                    let kk = keep_first_identities(s);
                    assert(kk[kk.len() - 1] == s.last());
                }
            }
        }
        let kk = keep_first_identities(s);
        if exists|j: int| 0 <= j < kk.len() && same_identity(#[trigger] kk[j], x) {
            let j = choose|j: int| 0 <= j < kk.len() && same_identity(#[trigger] kk[j], x);
            if j < k.len() {
                assert(kk[j] == k[j]);
                let i = choose|i: int| 0 <= i < t.len() && same_identity(#[trigger] t[i], x);
                assert(s[i] == t[i]);
            } else {
                assert(kk[j] == s.last());
                assert(same_identity(s[s.len() - 1], x));
            }
        }
        if exists|j: int| 0 <= j < k.len() && same_identity(#[trigger] k[j], x) {
            let j = choose|j: int| 0 <= j < k.len() && same_identity(#[trigger] k[j], x);
            assert(kk[j] == k[j]);
        }
    }
}

/// Whether the session plays on the given default endpoint.
fn plays_on<V>(session: &AudioSession<V>, default_device_id: Option<&str>) -> (r: bool)
    ensures
        r == on_default(*session, match default_device_id {
            Some(d) => Some(d@),
            None => None,
        }),
{
    match default_device_id {
        Some(d) => {
            let a = chars_of(d);
            let b = chars_of(session.device_id.as_str());
            chars_equal(a.as_slice(), b.as_slice())
        },
        None => false,
    }
}

/// Orders sessions so that those on the default output come first, then keeps
/// one session per (PID, display name): the default endpoint's copy wins, and
/// sessions found only on other endpoints are kept.
pub fn deduplicate_sessions<V>(sessions: &mut Vec<AudioSession<V>>, default_device_id: Option<&str>)
    ensures
        final(sessions)@ == keep_first_identities(
            default_first(
                old(sessions)@,
                match default_device_id {
                    Some(d) => Some(d@),
                    None => None,
                },
            ),
        ),
{
    let ghost d = match default_device_id {
        Some(d) => Some(d@),
        None => None,
    };
    let ghost original = sessions@;
    let ghost pred = |s: AudioSession<V>| on_default(s, d);
    let ghost npred = |s: AudioSession<V>| !on_default(s, d);
    let mut input: Vec<AudioSession<V>> = Vec::new();
    std::mem::swap(sessions, &mut input);
    let mut first: Vec<AudioSession<V>> = Vec::new();
    let mut rest: Vec<AudioSession<V>> = Vec::new();
    let ghost mut k: int = 0;
    proof {
        reveal(Seq::filter);
        assert(original.take(0).filter(pred) =~= Seq::<AudioSession<V>>::empty());
        assert(original.take(0).filter(npred) =~= Seq::<AudioSession<V>>::empty());
        assert(original.skip(0) =~= original);
    }
    while input.len() > 0
        invariant
            d == match default_device_id {
                Some(d) => Some(d@),
                None => None,
            },
            pred == (|s: AudioSession<V>| on_default(s, d)),
            npred == (|s: AudioSession<V>| !on_default(s, d)),
            0 <= k <= original.len(),
            input@ == original.skip(k),
            first@ == original.take(k).filter(pred),
            rest@ == original.take(k).filter(npred),
        decreases input@.len(),
    {
        let s = input.remove(0);
        proof {
            assert(s == original[k]);
            assert(original.take(k + 1).drop_last() =~= original.take(k));
            assert(original.take(k + 1).last() == original[k]);
        }
        let on = plays_on(&s, default_device_id);
        proof {
            assert(on == pred(original[k]));
            assert(on == !npred(original[k]));
        }
        if on {
            first.push(s);
        } else {
            rest.push(s);
        }
        proof {
            reveal(Seq::filter);
            assert(original.take(k + 1).filter(pred) == {
                let sub = original.take(k).filter(pred);
                if pred(original[k]) { sub.push(original[k]) } else { sub }
            });
            assert(original.take(k + 1).filter(npred) == {
                let sub = original.take(k).filter(npred);
                if npred(original[k]) { sub.push(original[k]) } else { sub }
            });
            k = k + 1;
            assert(input@ =~= original.skip(k));
        }
    }
    assert(original.take(k) =~= original);
    first.append(&mut rest);
    let ghost ordered = first@;
    assert(ordered == default_first(original, d));
    let mut out: Vec<AudioSession<V>> = Vec::new();
    let ghost mut m: int = 0;
    while first.len() > 0
        invariant
            0 <= m <= ordered.len(),
            first@ == ordered.skip(m),
            out@ == keep_first_identities(ordered.take(m)),
        decreases first@.len(),
    {
        let s = first.remove(0);
        let mut seen = false;
        let mut i: usize = 0;
        while i < out.len()
            invariant
                i <= out@.len(),
                out@ == keep_first_identities(ordered.take(m)),
                seen == (exists|j: int| 0 <= j < i && same_identity(#[trigger] out@[j], s)),
            decreases out@.len() - i,
        {
            let ap = out[i].pid == s.pid;
            let same_name = chars_equal(
                chars_of(out[i].display_name.as_str()).as_slice(),
                chars_of(s.display_name.as_str()).as_slice(),
            );
            if ap && same_name {
                seen = true;
            }
            i += 1;
        }
        proof {
            let t = ordered.take(m + 1);
            assert(t.drop_last() =~= ordered.take(m));
            assert(s == ordered[m]);
            assert(t.last() == s);
            lemma_keep_first_identities(ordered.take(m), s);
            if seen {
                let j = choose|j: int| 0 <= j < m && same_identity(#[trigger] ordered.take(m)[j], s);
                assert(t[j] == ordered.take(m)[j]);
            } else {
                assert forall|j: int| 0 <= j < t.len() - 1 implies !same_identity(t[j], t.last()) by {
                    assert(t[j] == ordered.take(m)[j]);
                }
            }
        }
        if !seen {
            out.push(s);
        }
        proof {
            m = m + 1;
            assert(first@ =~= ordered.skip(m));
        }
    }
    assert(ordered.take(m) =~= ordered);
    *sessions = out;
}

/// `session` is the first session of the list with this PID whose
/// application key is `key`.
pub open spec fn is_application_session<V>(sessions: Seq<AudioSession<V>>, pid: u32, key: Seq<char>, i: int) -> bool {
    sessions[i].pid == pid && session_key(sessions[i]) == key
}

/// Finds the session of an application after its output moved to another
/// endpoint: the first session with the same PID and application key.
pub fn find_application_session<'a, V>(sessions: &'a [AudioSession<V>], pid: u32, key: &str) -> (res:
    Option<&'a AudioSession<V>>)
    ensures
        match res {
            Some(s) => exists|i: int|
                0 <= i < sessions@.len() && is_application_session(sessions@, pid, key@, i)
                    && sessions@[i] == *s && forall|j: int|
                    0 <= j < i ==> !is_application_session(sessions@, pid, key@, j),
            None => forall|j: int|
                0 <= j < sessions@.len() ==> !is_application_session(sessions@, pid, key@, j),
        },
{
    let wanted = chars_of(key);
    let mut i: usize = 0;
    while i < sessions.len()
        invariant
            i <= sessions@.len(),
            wanted@ == key@,
            forall|j: int| 0 <= j < i ==> !is_application_session(sessions@, pid, key@, j),
        decreases sessions@.len() - i,
    {
        let session = &sessions[i];
        if session.pid == pid {
            let k = session_app_key(session);
            if chars_equal(chars_of(k.as_str()).as_slice(), wanted.as_slice()) {
                return Some(session);
            }
        }
        i += 1;
    }
    None
}

/// The direction an endpoint identifier belongs to: capture endpoints carry
/// the "{0.0.1." prefix, everything else is treated as a render endpoint.
pub open spec fn direction_of(device_id: Seq<char>) -> DeviceDirection {
    if contains(device_id, "{0.0.1."@) {
        DeviceDirection::Input
    } else {
        DeviceDirection::Output
    }
}

/// Direction of an endpoint, judged from its identifier.
pub fn device_direction(device_id: &str) -> (res: DeviceDirection)
    ensures
        res == direction_of(device_id@),
{
    if contains_str(chars_of(device_id).as_slice(), "{0.0.1.") {
        DeviceDirection::Input
    } else {
        DeviceDirection::Output
    }
}

} // verus!
