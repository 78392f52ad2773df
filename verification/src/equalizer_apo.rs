//! Equalizer APO integration: validation of device and preset names, the
//! endpoint GUID that Equalizer APO selects devices by, and the marked block
//! that Audio Hub keeps in Equalizer APO's main configuration.
use vstd::prelude::*;

use crate::text::{
    ends_with, append_chars, append_decimal, append_str, decimal, chars_of, contains, contains_str, control, first_occurrence_from, has_char, is_blank,
    is_control, is_hex_digit, occurs_at, string_from, string_from_range, trim, trim_bounds,
    utf8_len, utf8_width,
};

verus! {

// ---------------------------------------------------------------------------
// Shared types
// ---------------------------------------------------------------------------

/// Kind of an equalizer band.
#[derive(Debug, Clone, Copy, PartialEq, Eq, Structural)]
pub enum EqFilterKind {
    Peaking,
    LowShelf,
    HighShelf,
}

/// What the plugin page shows about Equalizer APO.
#[derive(Debug)]
pub struct EqualizerApoStatus {
    pub installed: bool,
    pub connected: bool,
    pub config_path: Option<String>,
    pub managed_config_path: Option<String>,
    pub configurator_path: Option<String>,
    pub backup_exists: bool,
    pub rnnoise_mono_path: Option<String>,
    pub rnnoise_stereo_path: Option<String>,
    pub rnnoise_plugin_directory: Option<String>,
}

/// The presets of one output device and the one in use.
#[derive(Debug)]
pub struct EqPresetCatalog {
    pub active_preset: String,
    pub presets: Vec<String>,
}

/// Channel layout of the RNNoise VST2 plugin.
#[derive(Debug, Clone, Copy, PartialEq, Eq, Structural)]
pub enum RnnoiseChannelMode {
    Mono,
    Stereo,
}

/// File name of the mono RNNoise plugin.
pub open spec fn rnnoise_mono_file_name() -> Seq<char> {
    "rnnoise_mono.dll"@
}

/// File name of the stereo RNNoise plugin.
pub open spec fn rnnoise_stereo_file_name() -> Seq<char> {
    "rnnoise_stereo.dll"@
}

impl RnnoiseChannelMode {
    /// Name of the layout in the interface.
    pub fn display_name(self) -> (res: &'static str)
        ensures
            res@ == match self {
                RnnoiseChannelMode::Mono => "单声道"@,
                RnnoiseChannelMode::Stereo => "立体声"@,
            },
    {
        match self {
            RnnoiseChannelMode::Mono => "单声道",
            RnnoiseChannelMode::Stereo => "立体声",
        }
    }

    /// File name of the plugin for this layout.
    pub fn file_name(self) -> (res: &'static str)
        ensures
            res@ == match self {
                RnnoiseChannelMode::Mono => rnnoise_mono_file_name(),
                RnnoiseChannelMode::Stereo => rnnoise_stereo_file_name(),
            },
    {
        match self {
            RnnoiseChannelMode::Mono => "rnnoise_mono.dll",
            RnnoiseChannelMode::Stereo => "rnnoise_stereo.dll",
        }
    }
}

/// The RNNoise plugins that were found, by full path.
#[derive(Debug)]
pub struct RnnoisePlugins {
    pub mono: Option<String>,
    pub stereo: Option<String>,
}

impl RnnoisePlugins {
    /// The plugin path for a channel layout, if that plugin was found.
    pub fn path_for(&self, mode: RnnoiseChannelMode) -> (res: Option<&String>)
        ensures
            res == match mode {
                RnnoiseChannelMode::Mono => match &self.mono {
                    Some(p) => Some(p),
                    None => None,
                },
                RnnoiseChannelMode::Stereo => match &self.stereo {
                    Some(p) => Some(p),
                    None => None,
                },
            },
    {
        match mode {
            RnnoiseChannelMode::Mono => self.mono.as_ref(),
            RnnoiseChannelMode::Stereo => self.stereo.as_ref(),
        }
    }
}

// ---------------------------------------------------------------------------
// Validation of identifiers and names
// ---------------------------------------------------------------------------

/// A device identifier or name is usable when it is not blank and holds no
/// line break.
pub open spec fn single_line_text(value: Seq<char>) -> bool {
    trim(value).len() > 0 && !value.contains('\r') && !value.contains('\n')
}

/// Message for an unusable device identifier.
pub open spec fn invalid_device_id_message() -> Seq<char> {
    "输出设备 ID 无效。"@
}

/// Message for an unusable device name.
pub open spec fn invalid_device_name_message() -> Seq<char> {
    "输出设备名称无效。"@
}

/// A unit result seen through the view of its error.
pub open spec fn unit_result(r: Result<(), String>) -> Result<(), Seq<char>> {
    match r {
        Ok(()) => Ok(()),
        Err(e) => Err(e@),
    }
}

fn single_line(value: &str) -> (r: bool)
    ensures
        r == single_line_text(value@),
{
    let chars = chars_of(value);
    !is_blank(value) && !has_char(chars.as_slice(), '\r') && !has_char(chars.as_slice(), '\n')
}

/// Validates an endpoint identifier received from the interface.
pub fn validate_device_id(value: &str) -> (res: Result<(), String>)
    ensures
        unit_result(res) == if single_line_text(value@) {
            Ok(())
        } else {
            Err(invalid_device_id_message())
        },
{
    if single_line(value) {
        Ok(())
    } else {
        Err(String::from_str("输出设备 ID 无效。"))
    }
}

/// Validates an endpoint name received from the interface.
pub fn validate_device_name(value: &str) -> (res: Result<(), String>)
    ensures
        unit_result(res) == if single_line_text(value@) {
            Ok(())
        } else {
            Err(invalid_device_name_message())
        },
{
    if single_line(value) {
        Ok(())
    } else {
        Err(String::from_str("输出设备名称无效。"))
    }
}

/// Message for a blank preset name or one with surrounding spaces.
pub open spec fn preset_name_blank_message() -> Seq<char> {
    "音色预设名称不能为空，且首尾不能包含空格"@
}

/// Message for a preset name longer than 40 characters.
pub open spec fn preset_name_long_message() -> Seq<char> {
    "音色预设名称不能超过 40 个字符"@
}

/// Message for a preset name with a control character.
pub open spec fn preset_name_control_message() -> Seq<char> {
    "音色预设名称包含无效字符"@
}

/// The outcome of validating a preset name: not blank and already trimmed, at
/// most 40 characters, no control character, checked in that order.
pub open spec fn preset_name_check(value: Seq<char>) -> Result<(), Seq<char>> {
    if trim(value).len() == 0 || trim(value) != value {
        Err(preset_name_blank_message())
    } else if value.len() > 40 {
        Err(preset_name_long_message())
    } else if exists|i: int| 0 <= i < value.len() && is_control(#[trigger] value[i]) {
        Err(preset_name_control_message())
    } else {
        Ok(())
    }
}

/// Whether some character of the sequence is a control character.
pub fn has_control(chars: &[char]) -> (r: bool)
    ensures
        r == exists|i: int| 0 <= i < chars@.len() && is_control(#[trigger] chars@[i]),
{
    let mut i: usize = 0;
    while i < chars.len()
        invariant
            i <= chars@.len(),
            forall|j: int| 0 <= j < i ==> !is_control(#[trigger] chars@[j]),
        decreases chars@.len() - i,
    {
        if control(chars[i]) {
            return true;
        }
        i += 1;
    }
    false
}

/// Validates the name of an equalizer preset.
pub fn validate_preset_name(value: &str) -> (res: Result<(), String>)
    ensures
        unit_result(res) == preset_name_check(value@),
{
    let chars = chars_of(value);
    let (a, b) = trim_bounds(chars.as_slice());
    if a == b || a != 0 || b != chars.len() {
        proof {
            if a == 0 && b == chars@.len() {
                assert(chars@.subrange(0, chars@.len() as int) =~= chars@);
            } else {
                assert(trim(value@).len() == b - a);
            }
        }
        return Err(String::from_str("音色预设名称不能为空，且首尾不能包含空格"));
    }
    assert(chars@.subrange(0, chars@.len() as int) =~= chars@);
    if chars.len() > 40 {
        return Err(String::from_str("音色预设名称不能超过 40 个字符"));
    }
    if has_control(chars.as_slice()) {
        return Err(String::from_str("音色预设名称包含无效字符"));
    }
    Ok(())
}

// ---------------------------------------------------------------------------
// Endpoint GUID
// ---------------------------------------------------------------------------

/// Position of the last occurrence of a character.
pub open spec fn last_index_of(s: Seq<char>, c: char) -> Option<int>
    decreases s.len(),
{
    if s.len() == 0 {
        None
    } else if s.last() == c {
        Some(s.len() - 1)
    } else {
        last_index_of(s.drop_last(), c)
    }
}

/// A braced GUID: 38 characters, closing brace last, hexadecimal digits and
/// dashes between the braces (the text starts at a '{').
pub open spec fn braced_guid(g: Seq<char>) -> bool {
    &&& g.len() == 38
    &&& g.last() == '}'
    &&& forall|k: int| 1 <= k < 37 ==> is_hex_digit(#[trigger] g[k]) || g[k] == '-'
}

/// Message when an identifier holds no '{'.
pub open spec fn guid_missing_message() -> Seq<char> {
    "输出设备 ID 中没有可供 Equalizer APO 匹配的 GUID。"@
}

/// Message when the text after the last '{' is not a GUID.
pub open spec fn guid_malformed_message() -> Seq<char> {
    "输出设备 ID 中的 GUID 格式无效。"@
}

/// The GUID at the end of an endpoint identifier, from its last '{'.
pub open spec fn endpoint_guid_of(device_id: Seq<char>) -> Result<Seq<char>, Seq<char>> {
    match last_index_of(device_id, '{') {
        None => Err(guid_missing_message()),
        Some(i) => {
            let g = device_id.subrange(i, device_id.len() as int);
            if braced_guid(g) {
                Ok(g)
            } else {
                Err(guid_malformed_message())
            }
        },
    }
}

/// A string result seen through its views.
pub open spec fn text_result(r: Result<String, String>) -> Result<Seq<char>, Seq<char>> {
    match r {
        Ok(v) => Ok(v@),
        Err(e) => Err(e@),
    }
}

proof fn lemma_last_index_of(s: Seq<char>, c: char, i: int)
    requires
        -1 <= i < s.len(),
        forall|j: int| i < j < s.len() ==> s[j] != c,
        i >= 0 ==> s[i] == c,
    ensures
        last_index_of(s, c) == if i >= 0 {
            Some(i)
        } else {
            None::<int>
        },
    decreases s.len(),
{
    if s.len() > 0 && i < s.len() - 1 {
        let t = s.drop_last();
        assert(s.last() != c);
        assert forall|j: int| i < j < t.len() implies t[j] != c by {
            assert(t[j] == s[j]);
        }
        if i >= 0 {
            assert(t[i] == s[i]);
        }
        lemma_last_index_of(t, c, i);
    }
}

/// Extracts the braced GUID that Equalizer APO uses to select an endpoint.
pub fn endpoint_guid(device_id: &str) -> (res: Result<String, String>)
    ensures
        text_result(res) == endpoint_guid_of(device_id@),
{
    let chars = chars_of(device_id);
    let n = chars.len();
    let mut i: usize = n;
    while i > 0 && chars[i - 1] != '{'
        invariant
            i <= n == chars@.len(),
            chars@ == device_id@,
            forall|j: int| i <= j < n ==> chars@[j] != '{',
        decreases i,
    {
        i -= 1;
    }
    if i == 0 {
        proof {
            lemma_last_index_of(chars@, '{', -1);
        }
        return Err(String::from_str("输出设备 ID 中没有可供 Equalizer APO 匹配的 GUID。"));
    }
    let start = i - 1;
    proof {
        lemma_last_index_of(chars@, '{', start as int);
    }
    let ghost g = chars@.subrange(start as int, n as int);
    assert(g.len() == n - start);
    assert(n - start > 0 ==> g.last() == chars@[n - 1]);
    if n - start != 38 || chars[n - 1] != '}' {
        return Err(String::from_str("输出设备 ID 中的 GUID 格式无效。"));
    }
    let mut k: usize = 1;
    while k < 37
        invariant
            1 <= k <= 37,
            n - start == 38,
            start < n,
            chars@ == device_id@,
            last_index_of(chars@, '{') == Some(start as int),
            g.last() == '}',
            n == chars@.len(),
            g == chars@.subrange(start as int, n as int),
            forall|m: int| 1 <= m < k ==> is_hex_digit(#[trigger] g[m]) || g[m] == '-',
        decreases 37 - k,
    {
        let c = chars[start + k];
        assert(g[k as int] == c);
        let ok = ('0' <= c && c <= '9') || ('a' <= c && c <= 'f') || ('A' <= c && c <= 'F') || c
            == '-';
        if !ok {
            return Err(String::from_str("输出设备 ID 中的 GUID 格式无效。"));
        }
        k += 1;
    }
    assert(g.last() == chars@[n - 1]);
    Ok(string_from_range(chars.as_slice(), start, n))
}

// ---------------------------------------------------------------------------
// Devices registered with Equalizer APO
// ---------------------------------------------------------------------------

/// Registry key, under HKEY_LOCAL_MACHINE, where Equalizer APO registers its
/// child APO for an endpoint GUID.
pub open spec fn child_apo_key_of(guid: Seq<char>) -> Seq<char> {
    "SOFTWARE\\EqualizerAPO\\Child APOs\\"@ + guid
}

/// The registry key that tells whether Equalizer APO is enabled for a
/// device; `None` when the identifier holds no usable GUID, in which case
/// the device is never enabled.
pub fn child_apo_key(device_id: &str) -> (res: Option<String>)
    ensures
        match endpoint_guid_of(device_id@) {
            Ok(g) => res is Some && res->0@ == child_apo_key_of(g),
            Err(_) => res is None,
        },
{
    match endpoint_guid(device_id) {
        Err(_) => None,
        Ok(guid) => {
            let mut key = String::from_str("SOFTWARE\\EqualizerAPO\\Child APOs\\");
            append_str(&mut key, guid.as_str());
            Some(key)
        },
    }
}

/// The devices, in their order, whose identifier holds a GUID and whose
/// child APO key was found (`registered`, one flag per device).
pub open spec fn enabled_ids(ids: Seq<Seq<char>>, registered: Seq<bool>) -> Seq<Seq<char>>
    decreases ids.len(),
{
    if ids.len() == 0 {
        seq![]
    } else {
        let rest = enabled_ids(ids.drop_last(), registered.drop_last());
        if registered.last() && endpoint_guid_of(ids.last()) is Ok {
            rest.push(ids.last())
        } else {
            rest
        }
    }
}

/// Keeps the devices for which Equalizer APO is enabled. `registered[i]`
/// tells whether the child APO key of `device_ids[i]` exists.
pub fn enabled_device_ids(device_ids: Vec<String>, registered: Vec<bool>) -> (res: Vec<String>)
    requires
        registered@.len() == device_ids@.len(),
    ensures
        res@.map_values(|s: String| s@) == enabled_ids(
            device_ids@.map_values(|s: String| s@),
            registered@,
        ),
{
    let ghost ids = device_ids@.map_values(|s: String| s@);
    let mut out: Vec<String> = Vec::new();
    let mut i: usize = 0;
    while i < device_ids.len()
        invariant
            i <= device_ids@.len() == registered@.len(),
            ids == device_ids@.map_values(|s: String| s@),
            out@.map_values(|s: String| s@) == enabled_ids(ids.take(i as int), registered@.take(i as int)),
        decreases device_ids@.len() - i,
    {
        let id = &device_ids[i];
        let guid = endpoint_guid(id.as_str());
        proof {
            assert(ids.take(i + 1).drop_last() =~= ids.take(i as int));
            assert(registered@.take(i + 1).drop_last() =~= registered@.take(i as int));
            assert(ids.take(i + 1).last() == ids[i as int]);
        }
        if registered[i] && guid.is_ok() {
            out.push(id.clone());
            proof {
                assert(out@.map_values(|s: String| s@) =~= enabled_ids(ids.take(i as int), registered@.take(i as int)).push(ids[i as int]));
            }
        }
        i += 1;
    }
    assert(ids.take(device_ids@.len() as int) =~= ids);
    assert(registered@.take(device_ids@.len() as int) =~= registered@);
    out
}

/// Message when Equalizer APO is not enabled for the device.
pub open spec fn apo_not_enabled_message() -> Seq<char> {
    "该设备尚未在 Equalizer APO 设备配置器中启用。请先打开设备配置器并勾选它。"@
}

/// Refuses a change for a device on which Equalizer APO is not enabled.
pub fn require_equalizer_apo_enabled(enabled: bool) -> (res: Result<(), String>)
    ensures
        unit_result(res) == if enabled {
            Ok(())
        } else {
            Err(apo_not_enabled_message())
        },
{
    if enabled {
        Ok(())
    } else {
        Err(String::from_str("该设备尚未在 Equalizer APO 设备配置器中启用。请先打开设备配置器并勾选它。"))
    }
}

/// Message when a microphone asks for an RNNoise plugin that was not found.
pub open spec fn missing_plugin_message(mode: RnnoiseChannelMode) -> Seq<char> {
    "未检测到 RNNoise "@ + match mode {
        RnnoiseChannelMode::Mono => "单声道"@,
        RnnoiseChannelMode::Stereo => "立体声"@,
    } + "插件。请将 "@ + match mode {
        RnnoiseChannelMode::Mono => rnnoise_mono_file_name(),
        RnnoiseChannelMode::Stereo => rnnoise_stereo_file_name(),
    } + " 放入 Equalizer APO 的 VSTPlugins\\AudioHub 文件夹。"@
}

/// A microphone with RNNoise on needs the plugin of its channel layout.
pub fn rnnoise_plugin_check(
    enabled: bool,
    rnnoise_enabled: bool,
    mode: RnnoiseChannelMode,
    plugins: &RnnoisePlugins,
) -> (res: Result<(), String>)
    ensures
        unit_result(res) == if enabled && rnnoise_enabled && match mode {
            RnnoiseChannelMode::Mono => plugins.mono is None,
            RnnoiseChannelMode::Stereo => plugins.stereo is None,
        } {
            Err(missing_plugin_message(mode))
        } else {
            Ok(())
        },
{
    if enabled && rnnoise_enabled && plugins.path_for(mode).is_none() {
        let mut message = String::from_str("未检测到 RNNoise ");
        append_str(&mut message, mode.display_name());
        append_str(&mut message, "插件。请将 ");
        append_str(&mut message, mode.file_name());
        append_str(&mut message, " 放入 Equalizer APO 的 VSTPlugins\\AudioHub 文件夹。");
        Err(message)
    } else {
        Ok(())
    }
}

/// Message when a chosen folder holds neither RNNoise plugin.
pub open spec fn empty_plugin_folder_message() -> Seq<char> {
    "所选文件夹中没有 rnnoise_mono.dll 或 rnnoise_stereo.dll。"@
}

/// A chosen plugin folder must hold at least one of the two plugins.
pub fn plugin_folder_check(mono_found: bool, stereo_found: bool) -> (res: Result<(), String>)
    ensures
        unit_result(res) == if mono_found || stereo_found {
            Ok(())
        } else {
            Err(empty_plugin_folder_message())
        },
{
    if mono_found || stereo_found {
        Ok(())
    } else {
        Err(String::from_str("所选文件夹中没有 rnnoise_mono.dll 或 rnnoise_stereo.dll。"))
    }
}

/// Message when no device configurator was found.
pub open spec fn no_configurator_message() -> Seq<char> {
    "未找到 Equalizer APO Configurator.exe。"@
}

/// The configurator to launch, as the status reports it.
pub fn open_configurator(status: &EqualizerApoStatus) -> (res: Result<String, String>)
    ensures
        text_result(res) == match status.configurator_path {
            Some(p) => Ok(p@),
            None => Err(no_configurator_message()),
        },
{
    match &status.configurator_path {
        Some(p) => Ok(p.clone()),
        None => Err(String::from_str("未找到 Equalizer APO Configurator.exe。")),
    }
}

/// Message when the elevated launch of the configurator failed with `code`.
pub open spec fn launch_failed_message(code: nat) -> Seq<char> {
    "无法以管理员身份启动 Equalizer APO 设备配置器（ShellExecute 错误 "@ + decimal(code)
        + "）。如果你取消了 UAC 确认，请重新点击并选择“是”。"@
}

/// `ShellExecuteW` succeeded when it returned a value above 32.
pub fn launch_outcome(code: u64) -> (res: Result<(), String>)
    ensures
        unit_result(res) == if code > 32 {
            Ok(())
        } else {
            Err(launch_failed_message(code as nat))
        },
{
    if code > 32 {
        Ok(())
    } else {
        let mut message = String::from_str("无法以管理员身份启动 Equalizer APO 设备配置器（ShellExecute 错误 ");
        append_decimal(&mut message, code);
        append_str(&mut message, "）。如果你取消了 UAC 确认，请重新点击并选择“是”。");
        Err(message)
    }
}

// ---------------------------------------------------------------------------
// The managed configuration file (audio-hub.txt)
// ---------------------------------------------------------------------------

/// An output endpoint as the managed configuration shows it. `levels` holds
/// its level lines as the caller formats them (the "Preamp:" line and the
/// "GraphicEQ:" line, each ending in a line break, then an empty line).
#[derive(Debug)]
pub struct OutputSection {
    pub device_id: String,
    pub device_name: String,
    pub enabled: bool,
    pub levels: String,
}

/// A microphone as the managed configuration shows it. `gain` is its gain
/// in dB as the caller formats it; `validation` is the outcome of checking
/// its settings.
#[derive(Debug)]
pub struct MicrophoneSection {
    pub device_id: String,
    pub device_name: String,
    pub enabled: bool,
    pub validation: Result<(), String>,
    pub gain: String,
    pub rnnoise: Option<RnnoiseChannelMode>,
}

/// First lines of the managed configuration.
pub open spec fn managed_header() -> Seq<char> {
    "# Audio Hub managed Equalizer APO configuration.\n# Changes in this file may be overwritten by Audio Hub.\n\n"@
}

/// The text of the enabled outputs, in order, or the first error; with the
/// number of enabled outputs.
pub open spec fn outputs_text(os: Seq<OutputSection>) -> Result<(Seq<char>, nat), Seq<char>>
    decreases os.len(),
{
    if os.len() == 0 {
        Ok((seq![], 0))
    } else {
        match outputs_text(os.drop_last()) {
            Err(e) => Err(e),
            Ok((text, count)) => {
                let o = os.last();
                if !o.enabled {
                    Ok((text, count))
                } else {
                    match endpoint_guid_of(o.device_id@) {
                        Err(e) => Err(e),
                        Ok(g) => Ok(
                            (
                                text + "# Output: "@ + o.device_name@ + "\n"@ + "Device: "@ + g + "\n"@
                                    + o.levels@,
                                count + 1,
                            ),
                        ),
                    }
                }
            },
        }
    }
}

/// Message for a microphone whose RNNoise plugin is missing.
pub open spec fn microphone_plugin_message(name: Seq<char>, mode: RnnoiseChannelMode) -> Seq<char> {
    "麦克风「"@ + name + "」启用了 RNNoise，但未找到 "@ + match mode {
        RnnoiseChannelMode::Mono => rnnoise_mono_file_name(),
        RnnoiseChannelMode::Stereo => rnnoise_stereo_file_name(),
    } + "。"@
}

/// The text of one enabled microphone, or its error.
pub open spec fn microphone_text(m: MicrophoneSection, plugins: RnnoisePlugins) -> Result<Seq<char>, Seq<char>> {
    match m.validation {
        Err(e) => Err(e@),
        Ok(()) => match endpoint_guid_of(m.device_id@) {
            Err(e) => Err(e),
            Ok(g) => {
                let base = "\n# Microphone: "@ + m.device_name@ + "\nDevice: "@ + g + "\nChannel: all\nPreamp: "@
                    + m.gain@ + " dB\n"@;
                match m.rnnoise {
                    None => Ok(base),
                    Some(mode) => match (match mode {
                        RnnoiseChannelMode::Mono => plugins.mono,
                        RnnoiseChannelMode::Stereo => plugins.stereo,
                    }) {
                        None => Err(microphone_plugin_message(m.device_name@, mode)),
                        Some(path) => Ok(base + "VSTPlugin: Library \""@ + path@ + "\"\n"@),
                    },
                }
            },
        },
    }
}

/// The text of the enabled microphones, in order, or the first error.
pub open spec fn microphones_text(ms: Seq<MicrophoneSection>, plugins: RnnoisePlugins) -> Result<Seq<char>, Seq<char>>
    decreases ms.len(),
{
    if ms.len() == 0 {
        Ok(seq![])
    } else {
        match microphones_text(ms.drop_last(), plugins) {
            Err(e) => Err(e),
            Ok(text) => if !ms.last().enabled {
                Ok(text)
            } else {
                match microphone_text(ms.last(), plugins) {
                    Err(e) => Err(e),
                    Ok(t) => Ok(text + t),
                }
            },
        }
    }
}

/// The managed configuration: a header, the enabled outputs (or a note
/// that none is), the enabled microphones, and a last line that hands the
/// remaining devices back to the rest of the configuration.
pub open spec fn managed_config(
    outputs: Seq<OutputSection>,
    microphones: Seq<MicrophoneSection>,
    plugins: RnnoisePlugins,
) -> Result<Seq<char>, Seq<char>> {
    match outputs_text(outputs) {
        Err(e) => Err(e),
        Ok((text, count)) => {
            let with_outputs = managed_header() + text + if count == 0 {
                "# No output endpoint EQ is enabled.\n"@
            } else {
                seq![]
            };
            match microphones_text(microphones, plugins) {
                Err(e) => Err(e),
                Ok(mics) => Ok(with_outputs + mics + "Device: all\n"@),
            }
        },
    }
}

fn microphone_section_text(m: &MicrophoneSection, plugins: &RnnoisePlugins) -> (res: Result<String, String>)
    ensures
        text_result(res) == microphone_text(*m, *plugins),
{
    if let Err(e) = &m.validation {
        return Err(e.clone());
    }
    let guid = match endpoint_guid(m.device_id.as_str()) {
        Err(e) => return Err(e),
        Ok(g) => g,
    };
    let mut text = String::from_str("\n# Microphone: ");
    append_str(&mut text, m.device_name.as_str());
    append_str(&mut text, "\nDevice: ");
    append_str(&mut text, guid.as_str());
    append_str(&mut text, "\nChannel: all\nPreamp: ");
    append_str(&mut text, m.gain.as_str());
    append_str(&mut text, " dB\n");
    match m.rnnoise {
        None => Ok(text),
        Some(mode) => match plugins.path_for(mode) {
            None => {
                let mut message = String::from_str("麦克风「");
                append_str(&mut message, m.device_name.as_str());
                append_str(&mut message, "」启用了 RNNoise，但未找到 ");
                append_str(&mut message, mode.file_name());
                append_str(&mut message, "。");
                Err(message)
            },
            Some(path) => {
                append_str(&mut text, "VSTPlugin: Library \"");
                append_str(&mut text, path.as_str());
                append_str(&mut text, "\"\n");
                Ok(text)
            },
        },
    }
}

/// Renders the managed configuration written to `audio-hub.txt`.
pub fn render_managed_config(
    outputs: &[OutputSection],
    microphones: &[MicrophoneSection],
    plugins: &RnnoisePlugins,
) -> (res: Result<String, String>)
    ensures
        text_result(res) == managed_config(outputs@, microphones@, *plugins),
{
    let mut text = String::new();
    let mut count: u64 = 0;
    let mut i: usize = 0;
    while i < outputs.len()
        invariant
            i <= outputs@.len(),
            outputs_text(outputs@.take(i as int)) == Ok::<(Seq<char>, nat), Seq<char>>((text@, count as nat)),
            count <= i,
        decreases outputs@.len() - i,
    {
        let o = &outputs[i];
        proof {
            let t = outputs@.take(i + 1);
            assert(t.drop_last() =~= outputs@.take(i as int));
            assert(t.last() == outputs@[i as int]);
        }
        if o.enabled {
            match endpoint_guid(o.device_id.as_str()) {
                Err(e) => {
                    proof {
                        lemma_outputs_error_stays(outputs@, i as int + 1, e@);
                    }
                    assert(outputs@.take(outputs@.len() as int) =~= outputs@);
                    return Err(e);
                },
                Ok(g) => {
                    append_str(&mut text, "# Output: ");
                    append_str(&mut text, o.device_name.as_str());
                    append_str(&mut text, "\n");
                    append_str(&mut text, "Device: ");
                    append_str(&mut text, g.as_str());
                    append_str(&mut text, "\n");
                    append_str(&mut text, o.levels.as_str());
                    count = count + 1;
                },
            }
        }
        i += 1;
    }
    assert(outputs@.take(outputs@.len() as int) =~= outputs@);
    let mut full = String::from_str(
        "# Audio Hub managed Equalizer APO configuration.\n# Changes in this file may be overwritten by Audio Hub.\n\n",
    );
    append_str(&mut full, text.as_str());
    if count == 0 {
        append_str(&mut full, "# No output endpoint EQ is enabled.\n");
    } else {
        assert(full@ + Seq::<char>::empty() =~= full@);
    }
    let ghost with_outputs = full@;
    let mut j: usize = 0;
    let mut mics = String::new();
    while j < microphones.len()
        invariant
            j <= microphones@.len(),
            outputs_text(outputs@) is Ok,
            microphones_text(microphones@.take(j as int), *plugins) == Ok::<Seq<char>, Seq<char>>(mics@),
        decreases microphones@.len() - j,
    {
        let m = &microphones[j];
        proof {
            let t = microphones@.take(j + 1);
            assert(t.drop_last() =~= microphones@.take(j as int));
            assert(t.last() == microphones@[j as int]);
        }
        if m.enabled {
            match microphone_section_text(m, plugins) {
                Err(e) => {
                    proof {
                        lemma_microphones_error_stays(microphones@, *plugins, j as int + 1, e@);
                    }
                    assert(microphones@.take(microphones@.len() as int) =~= microphones@);
                    return Err(e);
                },
                Ok(t) => append_str(&mut mics, t.as_str()),
            }
        }
        j += 1;
    }
    assert(microphones@.take(microphones@.len() as int) =~= microphones@);
    append_str(&mut full, mics.as_str());
    append_str(&mut full, "Device: all\n");
    Ok(full)
}

/// Once the outputs give an error, longer lists give the same error.
proof fn lemma_outputs_error_stays(os: Seq<OutputSection>, n: int, e: Seq<char>)
    requires
        0 <= n <= os.len(),
        outputs_text(os.take(n)) == Err::<(Seq<char>, nat), Seq<char>>(e),
    ensures
        outputs_text(os) == Err::<(Seq<char>, nat), Seq<char>>(e),
    decreases os.len() - n,
{
    if n < os.len() {
        let t = os.take(n + 1);
        assert(t.drop_last() =~= os.take(n));
        lemma_outputs_error_stays(os, n + 1, e);
    } else {
        assert(os.take(n) =~= os);
    }
}

/// Once the microphones give an error, longer lists give the same error.
proof fn lemma_microphones_error_stays(ms: Seq<MicrophoneSection>, plugins: RnnoisePlugins, n: int, e: Seq<char>)
    requires
        0 <= n <= ms.len(),
        microphones_text(ms.take(n), plugins) == Err::<Seq<char>, Seq<char>>(e),
    ensures
        microphones_text(ms, plugins) == Err::<Seq<char>, Seq<char>>(e),
    decreases ms.len() - n,
{
    if n < ms.len() {
        let t = ms.take(n + 1);
        assert(t.drop_last() =~= ms.take(n));
        lemma_microphones_error_stays(ms, plugins, n + 1, e);
    } else {
        assert(ms.take(n) =~= ms);
    }
}

// ---------------------------------------------------------------------------
// The managed block in Equalizer APO's config.txt
// ---------------------------------------------------------------------------

/// First line of the block Audio Hub maintains in `config.txt`.
pub const BEGIN_MARKER: &'static str = "# >>> Audio Hub Equalizer APO plugin >>>";

/// Last line of the block Audio Hub maintains in `config.txt`.
pub const END_MARKER: &'static str = "# <<< Audio Hub Equalizer APO plugin <<<";

/// First line of the block Audio Hub maintains.
pub open spec fn begin_marker() -> Seq<char> {
    "# >>> Audio Hub Equalizer APO plugin >>>"@
}

/// Last line of the block Audio Hub maintains.
pub open spec fn end_marker() -> Seq<char> {
    "# <<< Audio Hub Equalizer APO plugin <<<"@
}

/// The line that includes Audio Hub's own configuration file.
pub open spec fn include_line() -> Seq<char> {
    "Include: audio-hub.txt\n"@
}

/// The complete block that `connect` appends: begin marker, include line, end
/// marker, each on its own line.
pub open spec fn managed_block() -> Seq<char> {
    begin_marker() + seq!['\n'] + include_line() + end_marker() + seq!['\n']
}

/// The character range `(start, end)` of the managed block: from the first
/// begin marker to the first end marker after it, together with the line
/// break ("\r\n" or "\n") that follows that end marker.
pub open spec fn block_range_chars(s: Seq<char>, start: int, end: int) -> bool {
    exists|e: int|
        {
            &&& first_occurrence_from(s, begin_marker(), 0, start)
            &&& first_occurrence_from(s, end_marker(), start, e)
            &&& end == line_end_after(s, e + end_marker().len())
        }
}

/// The position after an optional line break at `p`.
pub open spec fn line_end_after(s: Seq<char>, p: int) -> int {
    if p + 1 < s.len() && s[p] == '\r' && s[p + 1] == '\n' {
        p + 2
    } else if p < s.len() && s[p] == '\n' {
        p + 1
    } else {
        p
    }
}

/// No complete block: either no begin marker, or no end marker after it.
pub open spec fn no_block(s: Seq<char>) -> bool {
    forall|start: int, end: int| !block_range_chars(s, start, end)
}

/// Finds the managed block as character positions.
pub fn managed_block_chars(s: &[char]) -> (res: Option<(usize, usize)>)
    ensures
        match res {
            Some((a, b)) => block_range_chars(s@, a as int, b as int) && a <= b <= s@.len(),
            None => no_block(s@),
        },
{
    let begin = chars_of("# >>> Audio Hub Equalizer APO plugin >>>");
    let end = chars_of("# <<< Audio Hub Equalizer APO plugin <<<");
    let start = match crate::text::find_from(s, begin.as_slice(), 0) {
        Some(i) => i,
        None => {
            assert forall|start: int, end: int| !block_range_chars(s@, start, end) by {
                if block_range_chars(s@, start, end) {
                    assert(occurs_at(s@, begin_marker(), start));
                }
            }
            return None;
        },
    };
    let e = match crate::text::find_from(s, end.as_slice(), start) {
        Some(e) => e,
        None => {
            assert forall|st: int, en: int| !block_range_chars(s@, st, en) by {
                if block_range_chars(s@, st, en) {
                    let ee = choose|ee: int|
                        {
                            &&& first_occurrence_from(s@, begin_marker(), 0, st)
                            &&& first_occurrence_from(s@, end_marker(), st, ee)
                            &&& en == line_end_after(s@, ee + end_marker().len())
                        };
                    assert(st == start as int);
                    assert(occurs_at(s@, end_marker(), ee));
                }
            }
            return None;
        },
    };
    let n = s.len();
    assert(occurs_at(s@, end@, e as int));
    let p = e + end.len();
    let stop = if p < s.len() && s[p] == '\r' && p + 1 < s.len() && s[p + 1] == '\n' {
        p + 2
    } else if p < s.len() && s[p] == '\n' {
        p + 1
    } else {
        p
    };
    assert(first_occurrence_from(s@, begin_marker(), 0, start as int));
    assert(first_occurrence_from(s@, end_marker(), start as int, e as int));
    assert(stop == line_end_after(s@, e + end_marker().len()));
    assert(block_range_chars(s@, start as int, stop as int));
    Some((start, stop))
}

/// Number of UTF-8 bytes taken by the first `n` characters.
pub fn utf8_prefix_len(s: &[char], n: usize) -> (res: usize)
    requires
        n <= s@.len(),
        utf8_len(s@.take(n as int)) <= usize::MAX,
    ensures
        res == utf8_len(s@.take(n as int)),
{
    let mut total: usize = 0;
    let mut i: usize = 0;
    while i < n
        invariant
            i <= n <= s@.len(),
            total == utf8_len(s@.take(i as int)),
            utf8_len(s@.take(n as int)) <= usize::MAX,
        decreases n - i,
    {
        let v = s[i] as u32;
        let w: usize = if v < 0x80 {
            1
        } else if v < 0x800 {
            2
        } else if v < 0x10000 {
            3
        } else {
            4
        };
        proof {
            assert(s@.take(i as int) + seq![s@[i as int]] =~= s@.take(i + 1));
            crate::text::lemma_utf8_len_concat(s@.take(i as int), seq![s@[i as int]]);
            assert(seq![s@[i as int]].drop_first() =~= Seq::<char>::empty());
            assert(utf8_len(seq![s@[i as int]]) == utf8_width(s@[i as int])) by {
                reveal_with_fuel(utf8_len, 2);
            }
            crate::text::lemma_utf8_len_concat(s@.take(i + 1), s@.subrange(i + 1, n as int));
            assert(s@.take(i + 1) + s@.subrange(i + 1, n as int) =~= s@.take(n as int));
        }
        total = total + w;
        i += 1;
    }
    total
}

/// Locates Audio Hub's block in Equalizer APO's main configuration, as byte
/// offsets `(start, end)` into the UTF-8 text; `end` includes the line break
/// after the end marker.
pub fn managed_block_range(contents: &str) -> (res: Option<(usize, usize)>)
    ensures
        match res {
            Some((a, b)) => exists|ca: int, cb: int|
                block_range_chars(contents@, ca, cb) && a == utf8_len(contents@.take(ca))
                    && b == utf8_len(contents@.take(cb)),
            None => no_block(contents@),
        },
{
    let chars = chars_of(contents);
    match managed_block_chars(chars.as_slice()) {
        None => None,
        Some((a, b)) => {
            let total = contents.as_bytes().len();
            proof {
                crate::text::lemma_utf8_len_is_encoding_len(contents@);
                assert(total == utf8_len(contents@));
                lemma_utf8_prefix_monotone(chars@, b as int, chars@.len() as int);
                assert(chars@.take(chars@.len() as int) =~= chars@);
                lemma_utf8_prefix_monotone(chars@, a as int, b as int);
            }
            let ba = utf8_prefix_len(chars.as_slice(), a);
            let bb = utf8_prefix_len(chars.as_slice(), b);
            Some((ba, bb))
        },
    }
}

/// The UTF-8 length of a prefix never exceeds that of the whole text.
proof fn lemma_utf8_prefix_monotone(s: Seq<char>, a: int, b: int)
    requires
        0 <= a <= b <= s.len(),
    ensures
        utf8_len(s.take(a)) <= utf8_len(s.take(b)),
{
    crate::text::lemma_utf8_len_concat(s.take(a), s.subrange(a, b));
    assert(s.take(a) + s.subrange(a, b) =~= s.take(b));
}

/// Either marker occurs somewhere in the text.
pub open spec fn has_marker(s: Seq<char>) -> bool {
    contains(s, begin_marker()) || contains(s, end_marker())
}

/// Message when connecting finds a marker without a complete block.
pub open spec fn incomplete_connect_message() -> Seq<char> {
    "Equalizer APO 主配置中存在不完整的 Audio Hub 标记；为避免破坏配置，已停止接入。"@
}

/// Message when disconnecting finds a marker without a complete block.
pub open spec fn incomplete_disconnect_message() -> Seq<char> {
    "Equalizer APO 主配置中存在不完整的 Audio Hub 标记；为避免破坏配置，未做修改。"@
}

/// The configuration after connecting: the text as it was, ended by a line
/// break when it is not empty, followed by the managed block.
pub open spec fn connected_text(s: Seq<char>) -> Seq<char> {
    (if s.len() > 0 && s.last() != '\n' {
        s.push('\n')
    } else {
        s
    }) + managed_block()
}

/// The bounds of the managed block, when there is one.
pub open spec fn block_bounds(s: Seq<char>) -> Option<(int, int)> {
    if no_block(s) {
        None
    } else {
        Some(choose|ab: (int, int)| block_range_chars(s, ab.0, ab.1))
    }
}

/// What connecting does to the main configuration: nothing when the block is
/// already there (`Ok(None)`), a refusal when a marker stands without a
/// complete block, and otherwise the text to write.
pub open spec fn connect_plan_of(s: Seq<char>) -> Result<Option<Seq<char>>, Seq<char>> {
    if !no_block(s) {
        Ok(None)
    } else if has_marker(s) {
        Err(incomplete_connect_message())
    } else {
        Ok(Some(connected_text(s)))
    }
}

/// What disconnecting does to the main configuration: the text without the
/// block, a refusal when a marker stands without a complete block, and
/// nothing (`Ok(None)`) when there is no marker at all.
pub open spec fn disconnect_plan_of(s: Seq<char>) -> Result<Option<Seq<char>>, Seq<char>> {
    match block_bounds(s) {
        Some(ab) => Ok(Some(s.take(ab.0) + s.skip(ab.1))),
        None => if has_marker(s) {
            Err(incomplete_disconnect_message())
        } else {
            Ok(None)
        },
    }
}

/// An optional-text result seen through its views.
pub open spec fn plan_view(r: Result<Option<String>, String>) -> Result<Option<Seq<char>>, Seq<char>> {
    match r {
        Ok(Some(t)) => Ok(Some(t@)),
        Ok(None) => Ok(None),
        Err(e) => Err(e@),
    }
}

/// There is at most one managed block range.
pub proof fn lemma_block_range_unique(s: Seq<char>, a: int, b: int, a2: int, b2: int)
    requires
        block_range_chars(s, a, b),
        block_range_chars(s, a2, b2),
    ensures
        a == a2 && b == b2,
{
    let e = choose|e: int|
        {
            &&& first_occurrence_from(s, begin_marker(), 0, a)
            &&& first_occurrence_from(s, end_marker(), a, e)
            &&& b == line_end_after(s, e + end_marker().len())
        };
    let e2 = choose|e: int|
        {
            &&& first_occurrence_from(s, begin_marker(), 0, a2)
            &&& first_occurrence_from(s, end_marker(), a2, e)
            &&& b2 == line_end_after(s, e + end_marker().len())
        };
    if a < a2 {
        assert(!occurs_at(s, begin_marker(), a));
    } else if a2 < a {
        assert(!occurs_at(s, begin_marker(), a2));
    }
    if e < e2 {
        assert(!occurs_at(s, end_marker(), e));
    } else if e2 < e {
        assert(!occurs_at(s, end_marker(), e2));
    }
}

/// Whether either marker occurs in the text.
fn has_marker_exec(s: &[char]) -> (r: bool)
    ensures
        r == has_marker(s@),
{
    contains_str(s, "# >>> Audio Hub Equalizer APO plugin >>>") || contains_str(
        s,
        "# <<< Audio Hub Equalizer APO plugin <<<",
    )
}

/// Plans the change that connecting makes to Equalizer APO's main
/// configuration.
pub fn plan_connect(original: &str) -> (res: Result<Option<String>, String>)
    ensures
        plan_view(res) == connect_plan_of(original@),
{
    let chars = chars_of(original);
    if managed_block_chars(chars.as_slice()).is_some() {
        return Ok(None);
    }
    if has_marker_exec(chars.as_slice()) {
        return Err(
            String::from_str(
                "Equalizer APO 主配置中存在不完整的 Audio Hub 标记；为避免破坏配置，已停止接入。",
            ),
        );
    }
    let mut updated = String::from_str(original);
    if chars.len() > 0 && chars[chars.len() - 1] != '\n' {
        append_str(&mut updated, "\n");
    }
    append_str(&mut updated, "# >>> Audio Hub Equalizer APO plugin >>>");
    append_str(&mut updated, "\n");
    append_str(&mut updated, "Include: audio-hub.txt\n");
    append_str(&mut updated, "# <<< Audio Hub Equalizer APO plugin <<<");
    append_str(&mut updated, "\n");
    proof {
        reveal_strlit("\n");
        assert(chars@.len() > 0 ==> chars@.last() == chars@[chars@.len() - 1]);
        assert(updated@ =~= connected_text(original@));
    }
    Ok(Some(updated))
}

/// Plans the change that disconnecting makes to Equalizer APO's main
/// configuration.
pub fn plan_disconnect(contents: &str) -> (res: Result<Option<String>, String>)
    ensures
        plan_view(res) == disconnect_plan_of(contents@),
{
    let chars = chars_of(contents);
    match managed_block_chars(chars.as_slice()) {
        Some((a, b)) => {
            let mut updated = string_from_range(chars.as_slice(), 0, a);
            let tail = string_from_range(chars.as_slice(), b, chars.len());
            append_str(&mut updated, tail.as_str());
            proof {
                let ab = choose|ab: (int, int)| block_range_chars(contents@, ab.0, ab.1);
                lemma_block_range_unique(contents@, a as int, b as int, ab.0, ab.1);
                assert(updated@ =~= contents@.take(a as int) + contents@.skip(b as int));
            }
            Ok(Some(updated))
        },
        None => {
            if has_marker_exec(chars.as_slice()) {
                Err(
                    String::from_str(
                        "Equalizer APO 主配置中存在不完整的 Audio Hub 标记；为避免破坏配置，未做修改。",
                    ),
                )
            } else {
                Ok(None)
            }
        },
    }
}

/// The text with a line break appended when it is not empty and does not end
/// with one.
pub open spec fn line_terminated(s: Seq<char>) -> Seq<char> {
    if s.len() > 0 && s.last() != '\n' {
        s.push('\n')
    } else {
        s
    }
}

/// Layout of the managed block: where its markers stand, and that the end
/// marker occurs nowhere before its own line.
proof fn lemma_block_layout()
    ensures
        begin_marker().len() == 40,
        end_marker().len() == 40,
        managed_block().len() == 105,
        managed_block().subrange(0, 40) == begin_marker(),
        managed_block().subrange(64, 104) == end_marker(),
        managed_block()[104] == '\n',
        forall|k: int| 0 <= k < 40 ==> begin_marker()[k] != '\n',
        forall|k: int| 0 <= k < 40 ==> end_marker()[k] != '\n',
        forall|k: int| 0 <= k < 64 ==> !occurs_at(managed_block(), end_marker(), k),
{
    reveal_strlit("# >>> Audio Hub Equalizer APO plugin >>>");
    reveal_strlit("# <<< Audio Hub Equalizer APO plugin <<<");
    reveal_strlit("Include: audio-hub.txt\n");
    let b = managed_block();
    assert(b.subrange(0, 40) =~= begin_marker());
    assert(b.subrange(64, 104) =~= end_marker());
    assert forall|k: int| 0 <= k < 64 implies !occurs_at(b, end_marker(), k) by {
        if occurs_at(b, end_marker(), k) {
            assert(b.subrange(k, k + 40)[0] == end_marker()[0]);
            assert(b.subrange(k, k + 40)[2] == end_marker()[2]);
            assert(b[k] == '#');
            assert(b[k + 2] == '<');
        }
    }
}

/// A line-terminated text without markers keeps them out of the way: in
/// `t + managed_block()` the block found is exactly the appended one.
proof fn lemma_appended_block(t: Seq<char>)
    requires
        t.len() == 0 || t.last() == '\n',
        !contains(t, begin_marker()),
        !contains(t, end_marker()),
    ensures
        block_range_chars(t + managed_block(), t.len() as int, t.len() as int + 105),
{
    lemma_block_layout();
    let b = managed_block();
    let u = t + b;
    let n = t.len() as int;
    assert(u.subrange(n, n + 40) =~= b.subrange(0, 40));
    assert(occurs_at(u, begin_marker(), n));
    assert forall|j: int| 0 <= j < n implies !occurs_at(u, begin_marker(), j) by {
        if occurs_at(u, begin_marker(), j) {
            if j + 40 <= n {
                assert(t.subrange(j, j + 40) =~= u.subrange(j, j + 40));
                assert(occurs_at(t, begin_marker(), j));
            } else {
                assert(u.subrange(j, j + 40)[n - 1 - j] == u[n - 1]);
                assert(u[n - 1] == t[n - 1]);
            }
        }
    }
    assert(u.subrange(n + 64, n + 104) =~= b.subrange(64, 104));
    assert(occurs_at(u, end_marker(), n + 64));
    assert forall|j: int| n <= j < n + 64 implies !occurs_at(u, end_marker(), j) by {
        if occurs_at(u, end_marker(), j) {
            assert(b.subrange(j - n, j - n + 40) =~= u.subrange(j, j + 40));
            assert(occurs_at(b, end_marker(), j - n));
        }
    }
    assert(u[n + 104] == b[104]);
    assert(line_end_after(u, n + 64 + end_marker().len()) == n + 105);
    assert(first_occurrence_from(u, begin_marker(), 0, n));
    assert(first_occurrence_from(u, end_marker(), n, n + 64));
}

/// Appending a line break keeps the markers out of a text.
proof fn lemma_line_terminated_no_marker(s: Seq<char>)
    requires
        !has_marker(s),
    ensures
        !contains(line_terminated(s), begin_marker()),
        !contains(line_terminated(s), end_marker()),
        line_terminated(s).len() == 0 || line_terminated(s).last() == '\n',
{
    lemma_block_layout();
    let t = line_terminated(s);
    if s.len() > 0 && s.last() != '\n' {
        assert forall|j: int| !occurs_at(t, begin_marker(), j) by {
            if occurs_at(t, begin_marker(), j) {
                if j + 40 <= s.len() {
                    assert(s.subrange(j, j + 40) =~= t.subrange(j, j + 40));
                    assert(occurs_at(s, begin_marker(), j));
                } else {
                    assert(t.subrange(j, j + 40)[s.len() - j] == t[s.len() as int]);
                }
            }
        }
        assert forall|j: int| !occurs_at(t, end_marker(), j) by {
            if occurs_at(t, end_marker(), j) {
                if j + 40 <= s.len() {
                    assert(s.subrange(j, j + 40) =~= t.subrange(j, j + 40));
                    assert(occurs_at(s, end_marker(), j));
                } else {
                    assert(t.subrange(j, j + 40)[s.len() - j] == t[s.len() as int]);
                }
            }
        }
    }
}

/// Connecting a configuration that holds no Audio Hub marker writes the
/// block once; connecting again changes nothing; disconnecting afterwards
/// gives back the configuration as it was, ended by a line break.
pub proof fn law_connect_disconnect_round_trip(s: Seq<char>)
    requires
        !has_marker(s),
    ensures
        connect_plan_of(s) == Ok::<Option<Seq<char>>, Seq<char>>(Some(connected_text(s))),
        connect_plan_of(connected_text(s)) == Ok::<Option<Seq<char>>, Seq<char>>(None),
        disconnect_plan_of(connected_text(s)) == Ok::<Option<Seq<char>>, Seq<char>>(
            Some(line_terminated(s)),
        ),
{
    lemma_no_block_without_marker(s);
    lemma_connected_block(s);
}

/// In a connected configuration the managed block is the appended one.
proof fn lemma_connected_block(s: Seq<char>)
    requires
        !has_marker(s),
    ensures
        !no_block(connected_text(s)),
        block_bounds(connected_text(s)) == Some(
            (line_terminated(s).len() as int, line_terminated(s).len() as int + 105),
        ),
        ({
            let u = connected_text(s);
            let n = line_terminated(s).len() as int;
            u.take(n) + u.skip(n + 105) == line_terminated(s)
        }),
{
    lemma_line_terminated_no_marker(s);
    let t = line_terminated(s);
    let u = connected_text(s);
    assert(u =~= t + managed_block());
    lemma_appended_block(t);
    let n = t.len() as int;
    let w = (n, n + 105);
    assert(block_range_chars(u, w.0, w.1));
    let ab = choose|ab: (int, int)| block_range_chars(u, ab.0, ab.1);
    lemma_block_range_unique(u, n, n + 105, ab.0, ab.1);
    lemma_block_layout();
    assert(u.take(n) + u.skip(n + 105) =~= t);
}

/// A text without either marker has no managed block.
proof fn lemma_no_block_without_marker(s: Seq<char>)
    requires
        !has_marker(s),
    ensures
        no_block(s),
{
    assert forall|a: int, b: int| !block_range_chars(s, a, b) by {
        if block_range_chars(s, a, b) {
            let e = choose|e: int|
                {
                    &&& first_occurrence_from(s, begin_marker(), 0, a)
                    &&& first_occurrence_from(s, end_marker(), a, e)
                    &&& b == line_end_after(s, e + end_marker().len())
                };
            assert(occurs_at(s, begin_marker(), a));
        }
    }
}

/// The message for a failed file operation: a hint to run as administrator
/// when write permission was denied, else the operation and the error text.
pub open spec fn permission_message(action: Seq<char>, permission_denied: bool, error_text: Seq<char>) -> Seq<
    char,
> {
    if permission_denied {
        action + "失败：没有写入权限。请以管理员身份运行 Audio Hub 后重试一次。"@
    } else {
        action + "失败："@ + error_text
    }
}

/// Builds the message for a failed file operation.
pub fn permission_hint(action: &str, permission_denied: bool, error_text: &str) -> (res: String)
    ensures
        res@ == permission_message(action@, permission_denied, error_text@),
{
    let mut message = String::from_str(action);
    if permission_denied {
        append_str(&mut message, "失败：没有写入权限。请以管理员身份运行 Audio Hub 后重试一次。");
    } else {
        append_str(&mut message, "失败：");
        append_str(&mut message, error_text);
    }
    message
}

/// The RNNoise line of a microphone loads the plugin built for the
/// microphone's own channel layout: the stereo plugin for a stereo
/// microphone and the mono one for a mono microphone, whatever else was
/// found. When that plugin was not found the microphone is refused with a
/// message naming that plugin's file, even if the other one exists.
pub proof fn law_microphone_loads_its_own_plugin(m: MicrophoneSection, plugins: RnnoisePlugins, path: String)
    requires
        m.validation is Ok,
        endpoint_guid_of(m.device_id@) is Ok,
    ensures
        m.rnnoise == Some(RnnoiseChannelMode::Stereo) && plugins.stereo == Some(path) ==> (microphone_text(
            m,
            plugins,
        ) matches Ok(text) && ends_with(text, "VSTPlugin: Library \""@ + path@ + "\"\n"@)),
        m.rnnoise == Some(RnnoiseChannelMode::Mono) && plugins.mono == Some(path) ==> (microphone_text(
            m,
            plugins,
        ) matches Ok(text) && ends_with(text, "VSTPlugin: Library \""@ + path@ + "\"\n"@)),
        m.rnnoise == Some(RnnoiseChannelMode::Stereo) && plugins.stereo is None ==> microphone_text(m, plugins)
            == Err::<Seq<char>, Seq<char>>(
            "麦克风「"@ + m.device_name@ + "」启用了 RNNoise，但未找到 "@ + "rnnoise_stereo.dll"@ + "。"@,
        ),
        m.rnnoise == Some(RnnoiseChannelMode::Mono) && plugins.mono is None ==> microphone_text(m, plugins)
            == Err::<Seq<char>, Seq<char>>(
            "麦克风「"@ + m.device_name@ + "」启用了 RNNoise，但未找到 "@ + "rnnoise_mono.dll"@ + "。"@,
        ),
{
    let g = endpoint_guid_of(m.device_id@)->Ok_0;
    let base = "\n# Microphone: "@ + m.device_name@ + "\nDevice: "@ + g + "\nChannel: all\nPreamp: "@ + m.gain@
        + " dB\n"@;
    let line = "VSTPlugin: Library \""@ + path@ + "\"\n"@;
    let text = base + line;
    assert(text.subrange(text.len() - line.len(), text.len() as int) =~= line);
    if (m.rnnoise == Some(RnnoiseChannelMode::Stereo) && plugins.stereo == Some(path)) || (m.rnnoise == Some(
        RnnoiseChannelMode::Mono,
    ) && plugins.mono == Some(path)) {
        assert(microphone_text(m, plugins)->Ok_0 =~= text);
    }
}

} // verus!
