//! The tray menu: the text of its entries, the identifiers of the device
//! entries, and what a click on an entry asks for.
use vstd::prelude::*;

use crate::device::AudioDevice;
use crate::text::{append_decimal, append_str, chars_of, decimal, matches_at, occurs_at, str_equal, string_from_range};

verus! {

/// Entry that opens the main window.
pub const TRAY_OPEN_ID: &'static str = "tray-open";
/// Entry that pauses or resumes unfocused muting.
pub const TRAY_UNFOCUSED_MUTE_ID: &'static str = "tray-unfocused-mute";
/// Prefix of the output device entries.
pub const TRAY_DEVICE_PREFIX: &'static str = "tray-device:";
/// Placeholder entry of the output device menu.
pub const TRAY_DEVICE_PLACEHOLDER_ID: &'static str = "tray-device:none";
/// Prefix of the input device entries.
pub const TRAY_INPUT_PREFIX: &'static str = "tray-input:";
/// Placeholder entry of the input device menu.
pub const TRAY_INPUT_PLACEHOLDER_ID: &'static str = "tray-input:none";
/// Entry that quits the program.
pub const TRAY_QUIT_ID: &'static str = "tray-quit";

/// What a click on a tray entry asks for.
#[derive(Debug, PartialEq, Eq)]
pub enum TrayAction {
    OpenWindow,
    ToggleUnfocusedMute,
    Quit,
    /// Make this endpoint the Windows default.
    SwitchDefaultDevice(String),
    /// A placeholder or unknown entry.
    Ignore,
}

/// `s` with every leading copy of `prefix` removed (`str::trim_start_matches`).
pub open spec fn strip_prefixes(s: Seq<char>, prefix: Seq<char>) -> Seq<char>
    decreases s.len(),
{
    if prefix.len() > 0 && occurs_at(s, prefix, 0) {
        strip_prefixes(s.skip(prefix.len() as int), prefix)
    } else {
        s
    }
}

/// The view of an action: the endpoint for a switch, nothing else.
pub enum ActionView {
    OpenWindow,
    ToggleUnfocusedMute,
    Quit,
    SwitchDefaultDevice(Seq<char>),
    Ignore,
}

/// The view of an action.
pub open spec fn action_view(a: TrayAction) -> ActionView {
    match a {
        TrayAction::OpenWindow => ActionView::OpenWindow,
        TrayAction::ToggleUnfocusedMute => ActionView::ToggleUnfocusedMute,
        TrayAction::Quit => ActionView::Quit,
        TrayAction::SwitchDefaultDevice(id) => ActionView::SwitchDefaultDevice(id@),
        TrayAction::Ignore => ActionView::Ignore,
    }
}

/// What an entry identifier asks for: the fixed entries, then the device
/// entries of either menu (not their placeholders), whose endpoint is the
/// identifier without its prefix.
pub open spec fn action_of(id: Seq<char>) -> ActionView {
    if id == "tray-open"@ {
        ActionView::OpenWindow
    } else if id == "tray-unfocused-mute"@ {
        ActionView::ToggleUnfocusedMute
    } else if id == "tray-quit"@ {
        ActionView::Quit
    } else if occurs_at(id, "tray-device:"@, 0) && id != "tray-device:none"@ {
        ActionView::SwitchDefaultDevice(strip_prefixes(id, "tray-device:"@))
    } else if occurs_at(id, "tray-input:"@, 0) && id != "tray-input:none"@ {
        ActionView::SwitchDefaultDevice(strip_prefixes(id, "tray-input:"@))
    } else {
        ActionView::Ignore
    }
}

/// `str::trim_start_matches` with a text pattern.
pub fn trim_start_matches(s: &str, prefix: &str) -> (res: String)
    requires
        prefix@.len() > 0,
    ensures
        res@ == strip_prefixes(s@, prefix@),
{
    let chars = chars_of(s);
    let p = chars_of(prefix);
    let n = chars.len();
    let mut start: usize = 0;
    assert(chars@.skip(0) =~= chars@);
    loop
        invariant
            n == chars@.len(),
            start <= chars@.len(),
            p@ == prefix@,
            p@.len() > 0,
            strip_prefixes(s@, prefix@) == strip_prefixes(chars@.skip(start as int), prefix@),
            chars@ == s@,
        ensures
            start <= chars@.len(),
            strip_prefixes(s@, prefix@) == strip_prefixes(chars@.skip(start as int), prefix@),
            !occurs_at(chars@, p@, start as int),
        decreases chars@.len() - start,
    {
        let found = matches_at(chars.as_slice(), p.as_slice(), start);
        if !found {
            break;
        }
        proof {
            let t = chars@.skip(start as int);
            assert(t.subrange(0, p@.len() as int) =~= chars@.subrange(start as int, start + p@.len()));
            assert(t.skip(p@.len() as int) =~= chars@.skip(start + p@.len()));
        }
        start = start + p.len();
    }
    proof {
        let t = chars@.skip(start as int);
        if occurs_at(t, p@, 0) {
            assert(t.subrange(0, p@.len() as int) =~= chars@.subrange(start as int, start + p@.len()));
        }
        if occurs_at(t, p@, 0) {
            assert(t.subrange(0, p@.len() as int) =~= chars@.subrange(start as int, start + p@.len()));
        }
        assert(chars@.subrange(start as int, chars@.len() as int) =~= t);
    }
    string_from_range(chars.as_slice(), start, chars.len())
}

/// Decides what a click on the entry `id` asks for.
pub fn menu_action(id: &str) -> (res: TrayAction)
    ensures
        action_view(res) == action_of(id@),
{
    if str_equal(id, TRAY_OPEN_ID) {
        return TrayAction::OpenWindow;
    }
    if str_equal(id, TRAY_UNFOCUSED_MUTE_ID) {
        return TrayAction::ToggleUnfocusedMute;
    }
    if str_equal(id, TRAY_QUIT_ID) {
        return TrayAction::Quit;
    }
    let chars = chars_of(id);
    let device_prefix = chars_of(TRAY_DEVICE_PREFIX);
    proof {
        reveal_strlit("tray-device:");
        reveal_strlit("tray-input:");
    }
    if matches_at(chars.as_slice(), device_prefix.as_slice(), 0) && !str_equal(id, TRAY_DEVICE_PLACEHOLDER_ID) {
        return TrayAction::SwitchDefaultDevice(trim_start_matches(id, TRAY_DEVICE_PREFIX));
    }
    let input_prefix = chars_of(TRAY_INPUT_PREFIX);
    if matches_at(chars.as_slice(), input_prefix.as_slice(), 0) && !str_equal(id, TRAY_INPUT_PLACEHOLDER_ID) {
        return TrayAction::SwitchDefaultDevice(trim_start_matches(id, TRAY_INPUT_PREFIX));
    }
    TrayAction::Ignore
}

/// The unfocused-mute entry: its text and whether it can be clicked (only
/// when some application is selected).
pub open spec fn unfocused_mute_entry(count: nat, paused: bool) -> (Seq<char>, bool) {
    if count == 0 {
        ("未聚焦静音：未配置"@, false)
    } else if paused {
        ("未聚焦静音：已暂停（"@ + decimal(count) + " 个应用）"@, true)
    } else {
        ("未聚焦静音：运行中（"@ + decimal(count) + " 个应用）"@, true)
    }
}

/// Builds the unfocused-mute entry for `count` selected applications.
pub fn unfocused_mute_menu_entry(count: usize, paused: bool) -> (res: (String, bool))
    ensures
        (res.0@, res.1) == unfocused_mute_entry(count as nat, paused),
{
    if count == 0 {
        return (String::from_str("未聚焦静音：未配置"), false);
    }
    let mut text = if paused {
        String::from_str("未聚焦静音：已暂停（")
    } else {
        String::from_str("未聚焦静音：运行中（")
    };
    append_decimal(&mut text, count as u64);
    append_str(&mut text, " 个应用）");
    (text, true)
}

/// The identifier and text of a device entry: the prefix of its menu and
/// the endpoint; the name, with a check mark on the default device.
pub fn device_menu_entry(prefix: &str, device: &AudioDevice) -> (res: (String, String))
    ensures
        res.0@ == prefix@ + device.device_id@,
        res.1@ == device.name@ + if device.is_default {
            " ✓"@
        } else {
            seq![]
        },
{
    let mut id = String::from_str(prefix);
    append_str(&mut id, device.device_id.as_str());
    let mut label = String::from_str(device.name.as_str());
    if device.is_default {
        append_str(&mut label, " ✓");
    } else {
        assert(label@ + Seq::<char>::empty() =~= label@);
    }
    (id, label)
}

/// A device entry selects its own device, unless its endpoint identifier
/// itself starts with the menu's prefix or makes the entry the placeholder.
pub proof fn law_device_entry_selects_device(device_id: Seq<char>, input: bool)
    requires
        !occurs_at(device_id, if input { "tray-input:"@ } else { "tray-device:"@ }, 0),
        device_id != "none"@,
    ensures
        action_of((if input { "tray-input:"@ } else { "tray-device:"@ }) + device_id)
            == ActionView::SwitchDefaultDevice(device_id),
{
    reveal_strlit("tray-open");
    reveal_strlit("tray-unfocused-mute");
    reveal_strlit("tray-quit");
    reveal_strlit("tray-device:");
    reveal_strlit("tray-input:");
    reveal_strlit("tray-device:none");
    reveal_strlit("tray-input:none");
    reveal_strlit("none");
    let prefix = if input { "tray-input:"@ } else { "tray-device:"@ };
    let id = prefix + device_id;
    assert(id.subrange(0, prefix.len() as int) =~= prefix);
    assert(id.skip(prefix.len() as int) =~= device_id);
    assert(id[5] == prefix[5]);
    assert(id != "tray-open"@) by {
        if id == "tray-open"@ {
            assert(id[5] == 'o');
        }
    }
    assert(id != "tray-unfocused-mute"@) by {
        if id == "tray-unfocused-mute"@ {
            assert(id[5] == 'u');
        }
    }
    assert(id != "tray-quit"@) by {
        if id == "tray-quit"@ {
            assert(id[5] == 'q');
        }
    }
    if input {
        assert(!occurs_at(id, "tray-device:"@, 0)) by {
            if occurs_at(id, "tray-device:"@, 0) {
                assert(id.subrange(0, 12)[5] == 'd');
            }
        }
        assert(id != "tray-input:none"@) by {
            if id == "tray-input:none"@ {
                assert(device_id =~= "none"@);
            }
        }
    } else {
        assert(id != "tray-device:none"@) by {
            if id == "tray-device:none"@ {
                assert(device_id =~= "none"@);
            }
        }
    }
    assert(strip_prefixes(device_id, prefix) == device_id);
}

} // verus!
