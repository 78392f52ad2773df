//! The simple "send to microphone" route through VoiceMeeter: recognising the
//! VoiceMeeter and physical endpoints among the Windows devices, validating a
//! request, and keeping the list of routed applications with what is needed
//! to restore each of them.
use vstd::prelude::*;

use crate::device::AudioDevice;
use crate::text::{
    ascii_lower, chars_equal, chars_of, contains, contains_str, eq_ignore_ascii_case, is_blank,
    lower_chars, str_equal, trim,
};

verus! {

// ---------------------------------------------------------------------------
// Recognising endpoints by name
// ---------------------------------------------------------------------------

/// The (already lower-cased) name belongs to a VB-Audio VoiceMeeter endpoint.
pub open spec fn voicemeeter_name(name: Seq<char>) -> bool {
    contains(name, "voicemeeter"@) || contains(name, "vb-audio"@)
}

/// The endpoint is virtual: a VoiceMeeter endpoint, anything called
/// "virtual", or Steam's streaming devices (compared case-insensitively).
pub open spec fn virtual_device_name(name: Seq<char>) -> bool {
    let l = ascii_lower(name);
    voicemeeter_name(l) || contains(l, "virtual"@) || contains(l, "steam streaming"@)
}

/// Whether a lower-cased endpoint name is a VoiceMeeter one.
pub fn is_voicemeeter_name(name: &str) -> (r: bool)
    ensures
        r == voicemeeter_name(name@),
{
    let chars = chars_of(name);
    contains_str(chars.as_slice(), "voicemeeter") || contains_str(chars.as_slice(), "vb-audio")
}

fn is_voicemeeter_chars(name: &[char]) -> (r: bool)
    ensures
        r == voicemeeter_name(name@),
{
    contains_str(name, "voicemeeter") || contains_str(name, "vb-audio")
}

/// Whether an endpoint is virtual rather than a physical speaker or microphone.
pub fn is_virtual_audio_device(name: &str) -> (r: bool)
    ensures
        r == virtual_device_name(name@),
{
    let lower = lower_chars(chars_of(name).as_slice());
    is_voicemeeter_chars(lower.as_slice()) || contains_str(lower.as_slice(), "virtual")
        || contains_str(lower.as_slice(), "steam streaming")
}

/// The first device satisfying `p`, if any.
pub open spec fn find_first(devices: Seq<AudioDevice>, p: spec_fn(AudioDevice) -> bool) -> Option<
    AudioDevice,
>
    decreases devices.len(),
{
    if devices.len() == 0 {
        None
    } else if p(devices[0]) {
        Some(devices[0])
    } else {
        find_first(devices.drop_first(), p)
    }
}

/// The first of `a` and `b` that is present.
pub open spec fn or_else(a: Option<AudioDevice>, b: Option<AudioDevice>) -> Option<AudioDevice> {
    if a is Some {
        a
    } else {
        b
    }
}

/// A reference result seen as a value.
pub open spec fn deref_opt(res: Option<&AudioDevice>) -> Option<AudioDevice> {
    match res {
        Some(d) => Some(*d),
        None => None,
    }
}

proof fn lemma_find_first(devices: Seq<AudioDevice>, p: spec_fn(AudioDevice) -> bool, i: int)
    requires
        0 <= i <= devices.len(),
        forall|j: int| 0 <= j < i ==> !p(#[trigger] devices[j]),
        i < devices.len() ==> p(devices[i]),
    ensures
        find_first(devices, p) == if i < devices.len() {
            Some(devices[i])
        } else {
            None::<AudioDevice>
        },
    decreases i,
{
    if devices.len() > 0 && i > 0 {
        let t = devices.drop_first();
        assert(!p(devices[0]));
        assert forall|j: int| 0 <= j < i - 1 implies !p(#[trigger] t[j]) by {
            assert(t[j] == devices[j + 1]);
        }
        if i < devices.len() {
            assert(t[i - 1] == devices[i]);
        }
        lemma_find_first(t, p, i - 1);
    }
}

/// Main VoiceMeeter virtual input, exact name: "voicemeeter input", not AUX.
pub open spec fn main_input_exact(d: AudioDevice) -> bool {
    let l = ascii_lower(d.name@);
    contains(l, "voicemeeter input"@) && !contains(l, "aux"@)
}

/// Main VoiceMeeter virtual input under other naming: a VoiceMeeter endpoint
/// mentioning "input" or "vaio", neither AUX nor the third VAIO.
pub open spec fn main_input_loose(d: AudioDevice) -> bool {
    let l = ascii_lower(d.name@);
    voicemeeter_name(l) && (contains(l, "input"@) || contains(l, "vaio"@)) && !contains(l, "aux"@)
        && !contains(l, "vaio3"@)
}

/// The playback endpoint applications are routed to.
pub open spec fn main_voicemeeter_input(devices: Seq<AudioDevice>) -> Option<AudioDevice> {
    or_else(
        find_first(devices, |d: AudioDevice| main_input_exact(d)),
        find_first(devices, |d: AudioDevice| main_input_loose(d)),
    )
}

fn main_input_exact_exec(d: &AudioDevice) -> (r: bool)
    ensures
        r == main_input_exact(*d),
{
    let l = lower_chars(chars_of(d.name.as_str()).as_slice());
    contains_str(l.as_slice(), "voicemeeter input") && !contains_str(l.as_slice(), "aux")
}

fn main_input_loose_exec(d: &AudioDevice) -> (r: bool)
    ensures
        r == main_input_loose(*d),
{
    let l = lower_chars(chars_of(d.name.as_str()).as_slice());
    is_voicemeeter_chars(l.as_slice()) && (contains_str(l.as_slice(), "input") || contains_str(
        l.as_slice(),
        "vaio",
    )) && !contains_str(l.as_slice(), "aux") && !contains_str(l.as_slice(), "vaio3")
}

/// Finds the main "VoiceMeeter Input" playback endpoint.
pub fn find_main_voicemeeter_input(devices: &[AudioDevice]) -> (res: Option<&AudioDevice>)
    ensures
        deref_opt(res) == main_voicemeeter_input(devices@),
{
    let ghost p1 = |d: AudioDevice| main_input_exact(d);
    let ghost p2 = |d: AudioDevice| main_input_loose(d);
    let mut i: usize = 0;
    while i < devices.len()
        invariant
            i <= devices@.len(),
            p1 == (|d: AudioDevice| main_input_exact(d)),
            forall|j: int| 0 <= j < i ==> !p1(#[trigger] devices@[j]),
        decreases devices@.len() - i,
    {
        if main_input_exact_exec(&devices[i]) {
            proof {
                lemma_find_first(devices@, p1, i as int);
            }
            return Some(&devices[i]);
        }
        i += 1;
    }
    proof {
        lemma_find_first(devices@, p1, i as int);
    }
    let mut k: usize = 0;
    while k < devices.len()
        invariant
            k <= devices@.len(),
            p2 == (|d: AudioDevice| main_input_loose(d)),
            find_first(devices@, |d: AudioDevice| main_input_exact(d)) is None,
            forall|j: int| 0 <= j < k ==> !p2(#[trigger] devices@[j]),
        decreases devices@.len() - k,
    {
        if main_input_loose_exec(&devices[k]) {
            proof {
                lemma_find_first(devices@, p2, k as int);
            }
            return Some(&devices[k]);
        }
        k += 1;
    }
    proof {
        lemma_find_first(devices@, p2, k as int);
    }
    None
}

/// The B1 virtual microphone, named "VoiceMeeter Out B1".
pub open spec fn b1_exact(d: AudioDevice) -> bool {
    let l = ascii_lower(d.name@);
    voicemeeter_name(l) && contains(l, "out b1"@)
}

/// The B1 virtual microphone under older naming: a VoiceMeeter "output" that
/// is neither AUX, B2 nor B3.
pub open spec fn b1_loose(d: AudioDevice) -> bool {
    let l = ascii_lower(d.name@);
    voicemeeter_name(l) && contains(l, "output"@) && !contains(l, "aux"@) && !contains(l, "b2"@)
        && !contains(l, "b3"@)
}

/// The capture endpoint that carries the main mix as a microphone.
pub open spec fn b1_virtual_microphone(devices: Seq<AudioDevice>) -> Option<AudioDevice> {
    or_else(
        find_first(devices, |d: AudioDevice| b1_exact(d)),
        find_first(devices, |d: AudioDevice| b1_loose(d)),
    )
}

fn b1_exact_exec(d: &AudioDevice) -> (r: bool)
    ensures
        r == b1_exact(*d),
{
    let l = lower_chars(chars_of(d.name.as_str()).as_slice());
    is_voicemeeter_chars(l.as_slice()) && contains_str(l.as_slice(), "out b1")
}

fn b1_loose_exec(d: &AudioDevice) -> (r: bool)
    ensures
        r == b1_loose(*d),
{
    let l = lower_chars(chars_of(d.name.as_str()).as_slice());
    is_voicemeeter_chars(l.as_slice()) && contains_str(l.as_slice(), "output") && !contains_str(
        l.as_slice(),
        "aux",
    ) && !contains_str(l.as_slice(), "b2") && !contains_str(l.as_slice(), "b3")
}

/// Finds the VoiceMeeter B1 virtual microphone.
pub fn find_b1_virtual_microphone(devices: &[AudioDevice]) -> (res: Option<&AudioDevice>)
    ensures
        deref_opt(res) == b1_virtual_microphone(devices@),
{
    let ghost p1 = |d: AudioDevice| b1_exact(d);
    let ghost p2 = |d: AudioDevice| b1_loose(d);
    let mut i: usize = 0;
    while i < devices.len()
        invariant
            i <= devices@.len(),
            p1 == (|d: AudioDevice| b1_exact(d)),
            forall|j: int| 0 <= j < i ==> !p1(#[trigger] devices@[j]),
        decreases devices@.len() - i,
    {
        if b1_exact_exec(&devices[i]) {
            proof {
                lemma_find_first(devices@, p1, i as int);
            }
            return Some(&devices[i]);
        }
        i += 1;
    }
    proof {
        lemma_find_first(devices@, p1, i as int);
    }
    let mut k: usize = 0;
    while k < devices.len()
        invariant
            k <= devices@.len(),
            p2 == (|d: AudioDevice| b1_loose(d)),
            find_first(devices@, |d: AudioDevice| b1_exact(d)) is None,
            forall|j: int| 0 <= j < k ==> !p2(#[trigger] devices@[j]),
        decreases devices@.len() - k,
    {
        if b1_loose_exec(&devices[k]) {
            proof {
                lemma_find_first(devices@, p2, k as int);
            }
            return Some(&devices[k]);
        }
        k += 1;
    }
    proof {
        lemma_find_first(devices@, p2, k as int);
    }
    None
}

/// A default endpoint that is physical.
pub open spec fn default_physical(d: AudioDevice) -> bool {
    d.is_default && !virtual_device_name(d.name@)
}

/// A physical endpoint whose name matches `configured` case-insensitively.
pub open spec fn configured_physical(d: AudioDevice, configured: Seq<char>) -> bool {
    ascii_lower(d.name@) == ascii_lower(configured) && !virtual_device_name(d.name@)
}

/// Any physical endpoint.
pub open spec fn physical(d: AudioDevice) -> bool {
    !virtual_device_name(d.name@)
}

/// The physical microphone mixed into the virtual microphone: the default one
/// when it is physical, else the one VoiceMeeter was configured with, else the
/// first physical one.
pub open spec fn physical_microphone(devices: Seq<AudioDevice>, configured: Option<Seq<char>>) -> Option<
    AudioDevice,
> {
    or_else(
        find_first(devices, |d: AudioDevice| default_physical(d)),
        or_else(
            match configured {
                Some(name) => find_first(devices, |d: AudioDevice| configured_physical(d, name)),
                None => None,
            },
            find_first(devices, |d: AudioDevice| physical(d)),
        ),
    )
}

fn default_physical_exec(d: &AudioDevice) -> (r: bool)
    ensures
        r == default_physical(*d),
{
    d.is_default && !is_virtual_audio_device(d.name.as_str())
}

/// Finds the default endpoint when it is physical.
pub open spec fn default_physical_output(devices: Seq<AudioDevice>) -> Option<AudioDevice> {
    find_first(devices, |d: AudioDevice| default_physical(d))
}

/// The default physical endpoint, if the default endpoint is physical.
pub fn find_default_physical_output(devices: &[AudioDevice]) -> (res: Option<&AudioDevice>)
    ensures
        deref_opt(res) == default_physical_output(devices@),
{
    let ghost p = |d: AudioDevice| default_physical(d);
    let mut i: usize = 0;
    while i < devices.len()
        invariant
            i <= devices@.len(),
            p == (|d: AudioDevice| default_physical(d)),
            forall|j: int| 0 <= j < i ==> !p(#[trigger] devices@[j]),
        decreases devices@.len() - i,
    {
        if default_physical_exec(&devices[i]) {
            proof {
                lemma_find_first(devices@, p, i as int);
            }
            return Some(&devices[i]);
        }
        i += 1;
    }
    proof {
        lemma_find_first(devices@, p, i as int);
    }
    None
}

/// Finds the physical microphone to mix into the virtual microphone.
pub fn find_physical_microphone<'a>(devices: &'a [AudioDevice], configured_name: Option<&str>) -> (res:
    Option<&'a AudioDevice>)
    ensures
        deref_opt(res) == physical_microphone(
            devices@,
            match configured_name {
                Some(n) => Some(n@),
                None => None,
            },
        ),
{
    let ghost p1 = |d: AudioDevice| default_physical(d);
    let ghost p3 = |d: AudioDevice| physical(d);
    let first = find_default_physical_output(devices);
    if first.is_some() {
        return first;
    }
    if let Some(name) = configured_name {
        let ghost p2 = |d: AudioDevice| configured_physical(d, name@);
        let mut k: usize = 0;
        while k < devices.len()
            invariant
                k <= devices@.len(),
                p2 == (|d: AudioDevice| configured_physical(d, name@)),
                configured_name == Some(name),
                find_first(devices@, |d: AudioDevice| default_physical(d)) is None,
                forall|j: int| 0 <= j < k ==> !p2(#[trigger] devices@[j]),
            decreases devices@.len() - k,
        {
            let d = &devices[k];
            if eq_ignore_ascii_case(d.name.as_str(), name) && !is_virtual_audio_device(
                d.name.as_str(),
            ) {
                proof {
                    lemma_find_first(devices@, p2, k as int);
                }
                return Some(d);
            }
            k += 1;
        }
        proof {
            lemma_find_first(devices@, p2, k as int);
        }
    }
    let mut i: usize = 0;
    while i < devices.len()
        invariant
            i <= devices@.len(),
            p3 == (|d: AudioDevice| physical(d)),
            find_first(devices@, |d: AudioDevice| default_physical(d)) is None,
            match configured_name {
                Some(name) => find_first(devices@, |d: AudioDevice| configured_physical(d, name@)) is None,
                None => true,
            },
            forall|j: int| 0 <= j < i ==> !p3(#[trigger] devices@[j]),
        decreases devices@.len() - i,
    {
        if !is_virtual_audio_device(devices[i].name.as_str()) {
            proof {
                lemma_find_first(devices@, p3, i as int);
            }
            return Some(&devices[i]);
        }
        i += 1;
    }
    proof {
        lemma_find_first(devices@, p3, i as int);
    }
    None
}

// ---------------------------------------------------------------------------
// Requests
// ---------------------------------------------------------------------------

/// Message for a request that names the system-sounds session.
pub open spec fn system_sounds_refused() -> Seq<char> {
    "系统声音不能使用简易流转。"@
}

/// Message for a blank or overlong application key.
pub open spec fn invalid_key_message() -> Seq<char> {
    "应用标识无效。"@
}

/// Message for a blank or overlong display name.
pub open spec fn invalid_name_message() -> Seq<char> {
    "应用名称无效。"@
}

/// The outcome of validating a request to route an application: the PID must
/// not be 0, the key must not be blank nor longer than 512 bytes, the display
/// name must not be blank nor longer than 256 bytes, checked in that order.
pub open spec fn application_check(pid: u32, key: &str, display_name: &str) -> Result<(), Seq<char>> {
    if pid == 0 {
        Err(system_sounds_refused())
    } else if trim(key@).len() == 0 || key.len() > 512 {
        Err(invalid_key_message())
    } else if trim(display_name@).len() == 0 || display_name.len() > 256 {
        Err(invalid_name_message())
    } else {
        Ok(())
    }
}

/// A result whose error is a string, seen through the string's view.
pub open spec fn result_view(r: Result<(), String>) -> Result<(), Seq<char>> {
    match r {
        Ok(()) => Ok(()),
        Err(e) => Err(e@),
    }
}

/// Validates a request to route an application into the simple route.
pub fn validate_application(pid: u32, key: &str, display_name: &str) -> (res: Result<(), String>)
    ensures
        result_view(res) == application_check(pid, key, display_name),
{
    if pid == 0 {
        return Err(String::from_str("系统声音不能使用简易流转。"));
    }
    if is_blank(key) || key.len() > 512 {
        return Err(String::from_str("应用标识无效。"));
    }
    if is_blank(display_name) || display_name.len() > 256 {
        return Err(String::from_str("应用名称无效。"));
    }
    Ok(())
}

// ---------------------------------------------------------------------------
// Routed applications and the route's state
// ---------------------------------------------------------------------------

/// An application sent to the virtual microphone, with the output it used
/// before (`None`: it followed the Windows default).
#[derive(Debug)]
pub struct SimpleRouteApplication {
    pub key: String,
    pub display_name: String,
    pub pid: u32,
    pub original_output_device_id: Option<String>,
}

/// What enabling an application asks for.
#[derive(Debug)]
pub enum EnablePlan {
    /// The application is already routed: nothing to do.
    AlreadyRouted,
    /// Move the application's output to this endpoint, then record it.
    Route { target_device_id: String },
}

/// A copy of an optional string.
pub fn copy_opt_string(value: &Option<String>) -> (res: Option<String>)
    ensures
        res == *value,
{
    match value {
        Some(s) => Some(s.clone()),
        None => None,
    }
}

impl SimpleRouteApplication {
    /// A field-by-field copy.
    pub fn duplicate(&self) -> (res: Self)
        ensures
            res == *self,
    {
        SimpleRouteApplication {
            key: self.key.clone(),
            display_name: self.display_name.clone(),
            pid: self.pid,
            original_output_device_id: copy_opt_string(&self.original_output_device_id),
        }
    }
}

/// A copy of a list of routed applications.
pub fn copy_applications(apps: &Vec<SimpleRouteApplication>) -> (res: Vec<SimpleRouteApplication>)
    ensures
        res@ == apps@,
{
    let mut out: Vec<SimpleRouteApplication> = Vec::new();
    let mut i: usize = 0;
    while i < apps.len()
        invariant
            i <= apps@.len(),
            out@ =~= apps@.take(i as int),
        decreases apps@.len() - i,
    {
        out.push(apps[i].duplicate());
        i += 1;
    }
    assert(apps@.take(apps@.len() as int) =~= apps@);
    out
}

/// The state of an active simple route. `C` is the VoiceMeeter configuration
/// found before the route started, kept so that it can be put back.
pub struct SimpleRouteSession<C> {
    pub original_default_input_id: String,
    pub virtual_microphone_id: String,
    pub voicemeeter_input_id: String,
    pub original_voicemeeter_configuration: C,
    pub physical_microphone_name: String,
    pub monitor_device_name: Option<String>,
    pub applications: Vec<SimpleRouteApplication>,
}

/// What the route reports to the interface.
#[derive(Debug)]
pub struct SimpleRouteStatus {
    pub active: bool,
    pub applications: Vec<SimpleRouteApplication>,
    pub physical_microphone_name: Option<String>,
    pub monitor_device_name: Option<String>,
    pub virtual_microphone_id: Option<String>,
    pub voicemeeter_input_id: Option<String>,
    pub recovery_pending: bool,
}

/// Status of an active route.
pub fn status_from_session<C>(session: &SimpleRouteSession<C>, recovery_pending: bool) -> (res:
    SimpleRouteStatus)
    ensures
        res.active,
        res.applications@ == session.applications@,
        res.physical_microphone_name == Some(session.physical_microphone_name),
        res.monitor_device_name == session.monitor_device_name,
        res.virtual_microphone_id == Some(session.virtual_microphone_id),
        res.voicemeeter_input_id == Some(session.voicemeeter_input_id),
        res.recovery_pending == recovery_pending,
{
    SimpleRouteStatus {
        active: true,
        applications: copy_applications(&session.applications),
        physical_microphone_name: Some(session.physical_microphone_name.clone()),
        monitor_device_name: copy_opt_string(&session.monitor_device_name),
        virtual_microphone_id: Some(session.virtual_microphone_id.clone()),
        voicemeeter_input_id: Some(session.voicemeeter_input_id.clone()),
        recovery_pending,
    }
}

/// Status when no simple route is active.
pub fn inactive_status() -> (res: SimpleRouteStatus)
    ensures
        !res.active,
        res.applications@.len() == 0,
        res.physical_microphone_name is None,
        res.monitor_device_name is None,
        res.virtual_microphone_id is None,
        res.voicemeeter_input_id is None,
        !res.recovery_pending,
{
    SimpleRouteStatus {
        active: false,
        applications: Vec::new(),
        physical_microphone_name: None,
        monitor_device_name: None,
        virtual_microphone_id: None,
        voicemeeter_input_id: None,
        recovery_pending: false,
    }
}

/// Index of the first routed application with this key.
pub open spec fn application_index(apps: Seq<SimpleRouteApplication>, key: Seq<char>) -> Option<int>
    decreases apps.len(),
{
    if apps.len() == 0 {
        None
    } else {
        match application_index(apps.drop_last(), key) {
            Some(i) => Some(i),
            None => if apps.last().key@ == key {
                Some(apps.len() - 1)
            } else {
                None
            },
        }
    }
}

proof fn lemma_application_index(apps: Seq<SimpleRouteApplication>, key: Seq<char>, i: int)
    requires
        0 <= i <= apps.len(),
        forall|j: int| 0 <= j < i ==> (#[trigger] apps[j]).key@ != key,
        i < apps.len() ==> apps[i].key@ == key,
    ensures
        application_index(apps, key) == if i < apps.len() {
            Some(i)
        } else {
            None::<int>
        },
    decreases apps.len(),
{
    if apps.len() > 0 {
        let t = apps.drop_last();
        if i < apps.len() - 1 {
            assert(t[i] == apps[i]);
            assert forall|j: int| 0 <= j < i implies (#[trigger] t[j]).key@ != key by {
                assert(t[j] == apps[j]);
            }
            lemma_application_index(t, key, i);
        } else {
            assert forall|j: int| 0 <= j < t.len() implies (#[trigger] t[j]).key@ != key by {
                assert(t[j] == apps[j]);
            }
            lemma_application_index(t, key, t.len() as int);
        }
    }
}

/// Position of a routed application by key.
pub fn position_of_application(apps: &Vec<SimpleRouteApplication>, key: &str) -> (res: Option<usize>)
    ensures
        match res {
            Some(i) => application_index(apps@, key@) == Some(i as int) && i < apps@.len()
                && apps@[i as int].key@ == key@,
            None => application_index(apps@, key@) is None,
        },
{
    let wanted = chars_of(key);
    let mut i: usize = 0;
    while i < apps.len()
        invariant
            i <= apps@.len(),
            wanted@ == key@,
            forall|j: int| 0 <= j < i ==> (#[trigger] apps@[j]).key@ != key@,
        decreases apps@.len() - i,
    {
        if chars_equal(chars_of(apps[i].key.as_str()).as_slice(), wanted.as_slice()) {
            proof {
                lemma_application_index(apps@, key@, i as int);
            }
            return Some(i);
        }
        i += 1;
    }
    proof {
        lemma_application_index(apps@, key@, i as int);
    }
    None
}

/// Where an application's output goes back to when it leaves the route: the
/// process it currently runs as (when a non-zero PID is given, else the PID
/// recorded when it joined) and its original output (an empty identifier
/// meaning "follow the Windows default").
pub open spec fn restore_target_of(app: SimpleRouteApplication, current_pid: Option<u32>) -> (u32, Seq<char>) {
    let pid = match current_pid {
        Some(p) => if p != 0 {
            p
        } else {
            app.pid
        },
        None => app.pid,
    };
    let device = match app.original_output_device_id {
        Some(d) => d@,
        None => Seq::<char>::empty(),
    };
    (pid, device)
}

/// The process and output device to restore when an application leaves.
pub fn restore_target(app: &SimpleRouteApplication, current_pid: Option<u32>) -> (res: (u32, String))
    ensures
        (res.0, res.1@) == restore_target_of(*app, current_pid),
{
    let pid = match current_pid {
        Some(p) => if p != 0 {
            p
        } else {
            app.pid
        },
        None => app.pid,
    };
    let device = match &app.original_output_device_id {
        Some(d) => d.clone(),
        None => String::new(),
    };
    (pid, device)
}

impl<C> SimpleRouteSession<C> {
    /// Whether an application with this key is already routed.
    pub fn has_application(&self, key: &str) -> (r: bool)
        ensures
            r == (application_index(self.applications@, key@) is Some),
    {
        position_of_application(&self.applications, key).is_some()
    }

    /// Records an application that has just been routed.
    pub fn add_application(&mut self, app: SimpleRouteApplication)
        ensures
            final(self).applications@ == old(self).applications@.push(app),
            final(self).original_default_input_id == old(self).original_default_input_id,
            final(self).virtual_microphone_id == old(self).virtual_microphone_id,
            final(self).voicemeeter_input_id == old(self).voicemeeter_input_id,
            final(self).physical_microphone_name == old(self).physical_microphone_name,
            final(self).monitor_device_name == old(self).monitor_device_name,
    {
        self.applications.push(app);
    }

    /// What enabling an application asks for: nothing when it is already
    /// routed, else moving its output to the VoiceMeeter input.
    pub fn enable_plan(&self, key: &str) -> (res: EnablePlan)
        ensures
            application_index(self.applications@, key@) is Some ==> res is AlreadyRouted,
            application_index(self.applications@, key@) is None ==> (res matches EnablePlan::Route {
                target_device_id,
            } && target_device_id == self.voicemeeter_input_id),
    {
        if self.has_application(key) {
            EnablePlan::AlreadyRouted
        } else {
            EnablePlan::Route { target_device_id: self.voicemeeter_input_id.clone() }
        }
    }

    /// Takes the outcome of saving the route after an application was added
    /// (it is the last one). When saving failed the application leaves the
    /// list again, and the process and output it must be set back to are
    /// returned; when saving succeeded nothing changes.
    pub fn after_save(&mut self, saved: bool) -> (res: Option<(u32, String)>)
        requires
            old(self).applications@.len() > 0,
        ensures
            saved ==> res is None && *final(self) == *old(self),
            !saved ==> {
                &&& final(self).applications@ == old(self).applications@.drop_last()
                &&& (res matches Some((pid, device)) && (pid, device@) == restore_target_of(
                    old(self).applications@.last(),
                    None,
                ))
                &&& final(self).original_default_input_id == old(self).original_default_input_id
                &&& final(self).virtual_microphone_id == old(self).virtual_microphone_id
                &&& final(self).voicemeeter_input_id == old(self).voicemeeter_input_id
                &&& final(self).physical_microphone_name == old(self).physical_microphone_name
                &&& final(self).monitor_device_name == old(self).monitor_device_name
            },
    {
        if saved {
            return None;
        }
        let app = self.applications.pop().unwrap();
        Some(restore_target(&app, None))
    }

    /// Forgets a routed application, returning its record; fails when the key
    /// is not routed.
    pub fn remove_application(&mut self, key: &str) -> (res: Result<SimpleRouteApplication, String>)
        ensures
            match application_index(old(self).applications@, key@) {
                Some(i) => res matches Ok(app) && app == old(self).applications@[i]
                    && final(self).applications@ == old(self).applications@.remove(i),
                None => res matches Err(e) && e@ == "该应用未启用简易流转。"@
                    && final(self).applications@ == old(self).applications@,
            },
            final(self).original_default_input_id == old(self).original_default_input_id,
            final(self).virtual_microphone_id == old(self).virtual_microphone_id,
            final(self).voicemeeter_input_id == old(self).voicemeeter_input_id,
            final(self).physical_microphone_name == old(self).physical_microphone_name,
            final(self).monitor_device_name == old(self).monitor_device_name,
    {
        match position_of_application(&self.applications, key) {
            Some(i) => Ok(self.applications.remove(i)),
            None => Err(String::from_str("该应用未启用简易流转。")),
        }
    }
}

/// Whether the monitor (A1) needs to move to `candidate`: it does unless the
/// route already monitors on that device.
pub fn monitor_needs_update(current: &Option<String>, candidate: &str) -> (r: bool)
    ensures
        r == match current {
            Some(c) => c@ != candidate@,
            None => true,
        },
{
    match current {
        Some(c) => !chars_equal(chars_of(c.as_str()).as_slice(), chars_of(candidate).as_slice()),
        None => true,
    }
}

// ---------------------------------------------------------------------------
// Preparing a route and following the default output
// ---------------------------------------------------------------------------

/// The Windows default device of a list (the first one marked default).
pub open spec fn default_device(devices: Seq<AudioDevice>) -> Option<AudioDevice> {
    find_first(devices, |d: AudioDevice| d.is_default)
}

/// Finds the Windows default device of a list.
pub fn find_default_device(devices: &[AudioDevice]) -> (res: Option<&AudioDevice>)
    ensures
        deref_opt(res) == default_device(devices@),
{
    let ghost p = |d: AudioDevice| d.is_default;
    let mut i: usize = 0;
    while i < devices.len()
        invariant
            i <= devices@.len(),
            p == (|d: AudioDevice| d.is_default),
            forall|j: int| 0 <= j < i ==> !p(#[trigger] devices@[j]),
        decreases devices@.len() - i,
    {
        if devices[i].is_default {
            proof {
                lemma_find_first(devices@, p, i as int);
            }
            return Some(&devices[i]);
        }
        i += 1;
    }
    proof {
        lemma_find_first(devices@, p, i as int);
    }
    None
}

/// Whether the device with this identifier is marked as the default.
pub fn is_default_device(devices: &[AudioDevice], device_id: &str) -> (r: bool)
    ensures
        r == exists|i: int|
            0 <= i < devices@.len() && (#[trigger] devices@[i]).is_default && devices@[i].device_id@
                == device_id@,
{
    let mut i: usize = 0;
    while i < devices.len()
        invariant
            i <= devices@.len(),
            forall|j: int|
                0 <= j < i ==> !((#[trigger] devices@[j]).is_default && devices@[j].device_id@
                    == device_id@),
        decreases devices@.len() - i,
    {
        if devices[i].is_default && str_equal(devices[i].device_id.as_str(), device_id) {
            return true;
        }
        i += 1;
    }
    false
}

/// Whether the default microphone must be put back when a route ends: only
/// while the virtual microphone is still the default.
pub fn default_input_needs_restore(inputs: &[AudioDevice], virtual_microphone_id: &str) -> (r: bool)
    ensures
        r == (default_device(inputs@) matches Some(d) && d.device_id@ == virtual_microphone_id@),
{
    match find_default_device(inputs) {
        Some(d) => str_equal(d.device_id.as_str(), virtual_microphone_id),
        None => false,
    }
}

/// The endpoints a route is built on.
#[derive(Debug)]
pub struct RouteDevices {
    pub voicemeeter_input_id: String,
    pub virtual_microphone_id: String,
    pub original_default_input_id: String,
    pub physical_microphone_name: String,
    pub monitor_device_name: String,
}

/// Message when no main VoiceMeeter input was found.
pub open spec fn no_voicemeeter_input_message() -> Seq<char> {
    "未检测到 VoiceMeeter Input 播放设备。"@
}

/// Message when no B1 virtual microphone was found.
pub open spec fn no_virtual_microphone_message() -> Seq<char> {
    "未检测到 VoiceMeeter B1 虚拟麦克风。"@
}

/// Message when Windows has no default microphone.
pub open spec fn no_default_input_message() -> Seq<char> {
    "未检测到 Windows 默认麦克风。"@
}

/// Message when no physical microphone was found.
pub open spec fn no_physical_microphone_message() -> Seq<char> {
    "未检测到可用的物理麦克风。"@
}

/// Message when the default output is not a physical device.
pub open spec fn no_physical_output_message() -> Seq<char> {
    "未检测到 Windows 默认物理扬声器。请先在 Audio Hub 或 Windows 中将实际扬声器/耳机设为默认输出。"@
}

/// The endpoints chosen for a route, or the first one missing, in this
/// order: main VoiceMeeter input, B1 virtual microphone, default microphone,
/// physical microphone, default physical output.
pub open spec fn route_devices_outcome(
    outputs: Seq<AudioDevice>,
    inputs: Seq<AudioDevice>,
    configured: Option<Seq<char>>,
) -> Result<(Seq<char>, Seq<char>, Seq<char>, Seq<char>, Seq<char>), Seq<char>> {
    match main_voicemeeter_input(outputs) {
        None => Err(no_voicemeeter_input_message()),
        Some(vi) => match b1_virtual_microphone(inputs) {
            None => Err(no_virtual_microphone_message()),
            Some(vm) => match default_device(inputs) {
                None => Err(no_default_input_message()),
                Some(di) => match physical_microphone(inputs, configured) {
                    None => Err(no_physical_microphone_message()),
                    Some(pm) => match default_physical_output(outputs) {
                        None => Err(no_physical_output_message()),
                        Some(mo) => Ok((vi.device_id@, vm.device_id@, di.device_id@, pm.name@, mo.name@)),
                    },
                },
            },
        },
    }
}

/// Chooses the endpoints of a route among the output and input devices;
/// `configured_physical` is the physical input VoiceMeeter already uses.
pub fn select_route_devices(
    outputs: &[AudioDevice],
    inputs: &[AudioDevice],
    configured_physical: Option<&str>,
) -> (res: Result<RouteDevices, String>)
    ensures
        match res {
            Ok(r) => route_devices_outcome(
                outputs@,
                inputs@,
                match configured_physical {
                    Some(n) => Some(n@),
                    None => None,
                },
            ) == Ok::<(Seq<char>, Seq<char>, Seq<char>, Seq<char>, Seq<char>), Seq<char>>(
                (
                    r.voicemeeter_input_id@,
                    r.virtual_microphone_id@,
                    r.original_default_input_id@,
                    r.physical_microphone_name@,
                    r.monitor_device_name@,
                ),
            ),
            Err(e) => route_devices_outcome(
                outputs@,
                inputs@,
                match configured_physical {
                    Some(n) => Some(n@),
                    None => None,
                },
            ) == Err::<(Seq<char>, Seq<char>, Seq<char>, Seq<char>, Seq<char>), Seq<char>>(e@),
        },
{
    let voicemeeter_input = match find_main_voicemeeter_input(outputs) {
        Some(d) => d,
        None => return Err(String::from_str("未检测到 VoiceMeeter Input 播放设备。")),
    };
    let virtual_microphone = match find_b1_virtual_microphone(inputs) {
        Some(d) => d,
        None => return Err(String::from_str("未检测到 VoiceMeeter B1 虚拟麦克风。")),
    };
    let default_input = match find_default_device(inputs) {
        Some(d) => d,
        None => return Err(String::from_str("未检测到 Windows 默认麦克风。")),
    };
    let physical = match find_physical_microphone(inputs, configured_physical) {
        Some(d) => d,
        None => return Err(String::from_str("未检测到可用的物理麦克风。")),
    };
    let monitor = match find_default_physical_output(outputs) {
        Some(d) => d,
        None => return Err(
            String::from_str(
                "未检测到 Windows 默认物理扬声器。请先在 Audio Hub 或 Windows 中将实际扬声器/耳机设为默认输出。",
            ),
        ),
    };
    Ok(RouteDevices {
        voicemeeter_input_id: voicemeeter_input.device_id.clone(),
        virtual_microphone_id: virtual_microphone.device_id.clone(),
        original_default_input_id: default_input.device_id.clone(),
        physical_microphone_name: physical.name.clone(),
        monitor_device_name: monitor.name.clone(),
    })
}

/// The state of a route just prepared on these endpoints, with no
/// application yet; `original` is the VoiceMeeter configuration to put back.
pub fn prepared_session<C>(devices: RouteDevices, original: C) -> (res: SimpleRouteSession<C>)
    ensures
        res.original_default_input_id == devices.original_default_input_id,
        res.virtual_microphone_id == devices.virtual_microphone_id,
        res.voicemeeter_input_id == devices.voicemeeter_input_id,
        res.original_voicemeeter_configuration == original,
        res.physical_microphone_name == devices.physical_microphone_name,
        res.monitor_device_name == Some(devices.monitor_device_name),
        res.applications@.len() == 0,
{
    SimpleRouteSession {
        original_default_input_id: devices.original_default_input_id,
        virtual_microphone_id: devices.virtual_microphone_id,
        voicemeeter_input_id: devices.voicemeeter_input_id,
        original_voicemeeter_configuration: original,
        physical_microphone_name: devices.physical_microphone_name,
        monitor_device_name: Some(devices.monitor_device_name),
        applications: Vec::new(),
    }
}

/// What following the default output asks of the monitor (A1).
#[derive(Debug)]
pub enum MonitorSync {
    /// A1 already monitors on the default output.
    Unchanged,
    /// Move A1 to `name`; `previous` is where it was, to go back to if the
    /// new state cannot be saved.
    Move { name: String, previous: Option<String> },
}

/// Message when the new default output is not physical.
pub open spec fn monitor_loop_message() -> Seq<char> {
    "新的 Windows 默认输出不是物理扬声器或耳机，A1 已保持不变以避免音频回路。"@
}

/// Decides how A1 follows the default output: refused when the default is
/// not a physical device (that would loop the audio back), nothing when A1
/// is already there, else a move from where it was (the route's monitor, or
/// the one VoiceMeeter had before the route).
pub fn monitor_sync_plan<C>(
    session: &SimpleRouteSession<C>,
    outputs: &[AudioDevice],
    original_monitor: Option<String>,
) -> (res: Result<MonitorSync, String>)
    ensures
        match default_physical_output(outputs@) {
            None => res matches Err(e) && e@ == monitor_loop_message(),
            Some(m) => if session.monitor_device_name matches Some(c) && c@ == m.name@ {
                res matches Ok(MonitorSync::Unchanged)
            } else {
                res matches Ok(MonitorSync::Move { name, previous }) && name@ == m.name@ && previous
                    == if session.monitor_device_name is Some {
                    session.monitor_device_name
                } else {
                    original_monitor
                }
            },
        },
{
    let monitor = match find_default_physical_output(outputs) {
        Some(d) => d,
        None => return Err(
            String::from_str("新的 Windows 默认输出不是物理扬声器或耳机，A1 已保持不变以避免音频回路。"),
        ),
    };
    if let Some(current) = &session.monitor_device_name {
        if str_equal(current.as_str(), monitor.name.as_str()) {
            return Ok(MonitorSync::Unchanged);
        }
    }
    let previous = match &session.monitor_device_name {
        Some(c) => Some(c.clone()),
        None => original_monitor,
    };
    Ok(MonitorSync::Move { name: monitor.name.clone(), previous })
}

/// Enabling an application whose route cannot be saved leaves the route as
/// it was: after `add_application` and `after_save(false)` the list is the
/// one before, and the application is set back to its own original output.
pub proof fn law_failed_save_keeps_the_list(apps: Seq<SimpleRouteApplication>, app: SimpleRouteApplication)
    ensures
        apps.push(app).drop_last() == apps,
        restore_target_of(apps.push(app).last(), None) == (
            app.pid,
            match app.original_output_device_id {
                Some(d) => d@,
                None => Seq::<char>::empty(),
            },
        ),
{
    assert(apps.push(app).drop_last() =~= apps);
}

/// An application leaving the route goes back to the output it had when it
/// joined, whichever process it runs as now: the device does not depend on
/// the current PID, is the recorded original output when one was recorded,
/// and is empty (the Windows default) only when none was. The process is the
/// current one when a non-zero PID is known, else the one recorded.
pub proof fn law_leaving_restores_the_original_output(
    app: SimpleRouteApplication,
    current_pid: Option<u32>,
    other_pid: Option<u32>,
)
    ensures
        restore_target_of(app, current_pid).1 == restore_target_of(app, other_pid).1,
        app.original_output_device_id matches Some(d) ==> restore_target_of(app, current_pid).1 == d@,
        app.original_output_device_id is None ==> restore_target_of(app, current_pid).1.len() == 0,
        current_pid is Some && current_pid->0 != 0 ==> restore_target_of(app, current_pid).0 == current_pid->0,
        !(current_pid is Some && current_pid->0 != 0) ==> restore_target_of(app, current_pid).0 == app.pid,
{
}

} // verus!
