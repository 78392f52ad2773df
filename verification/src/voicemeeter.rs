//! VoiceMeeter control: which strips and buses of each edition carry the
//! virtual microphone, the Remote API parameter names, and the ordered list of
//! parameter writes that applies a configuration. The Remote API calls and the
//! configuration's levels (floating-point values) stay with the caller, which
//! follows the plan; the plan names each level by the setting it comes from.
use vstd::prelude::*;

use crate::text::{
    append_decimal, append_signed, append_str, chars_of, decimal, signed_decimal, str_equal, trim,
    trimmed, utf8_len, utf8_len_at_most,
};

verus! {

/// Where one mix of an edition lives: the virtual input strip, its route
/// button to the virtual microphone (B1, B2, ...), and the bus behind it.
#[derive(Debug, Clone, Copy, PartialEq, Eq, Structural)]
pub struct MixLayout {
    pub virtual_input_strip: usize,
    pub virtual_microphone_route: usize,
    pub virtual_microphone_bus: usize,
}

/// The layout of an edition of VoiceMeeter.
#[derive(Debug, Clone, Copy)]
pub struct EditionLayout {
    /// The edition code the Remote API reports (1 Standard, 2 Banana, 3 Potato).
    pub code: i32,
    pub name: &'static str,
    pub physical_input_strip: usize,
    pub main_mix: MixLayout,
    pub aux_mix: Option<MixLayout>,
}

/// The editions this program supports.
pub open spec fn supported_edition(code: i32) -> bool {
    1 <= code <= 3
}

/// Name of a supported edition.
pub open spec fn edition_name(code: i32) -> Seq<char> {
    if code == 1 {
        "VoiceMeeter Standard"@
    } else if code == 2 {
        "VoiceMeeter Banana"@
    } else {
        "VoiceMeeter Potato"@
    }
}

/// The main mix of a supported edition: the first virtual input, routed to
/// the first virtual bus (B1).
pub open spec fn main_mix_of(code: i32) -> MixLayout {
    if code == 1 {
        MixLayout { virtual_input_strip: 2, virtual_microphone_route: 1, virtual_microphone_bus: 1 }
    } else if code == 2 {
        MixLayout { virtual_input_strip: 3, virtual_microphone_route: 1, virtual_microphone_bus: 3 }
    } else {
        MixLayout { virtual_input_strip: 5, virtual_microphone_route: 1, virtual_microphone_bus: 5 }
    }
}

/// The AUX mix of a supported edition: the second virtual input routed to
/// B2; Standard has none.
pub open spec fn aux_mix_of(code: i32) -> Option<MixLayout> {
    if code == 1 {
        None
    } else if code == 2 {
        Some(MixLayout { virtual_input_strip: 4, virtual_microphone_route: 2, virtual_microphone_bus: 4 })
    } else {
        Some(MixLayout { virtual_input_strip: 6, virtual_microphone_route: 2, virtual_microphone_bus: 6 })
    }
}

/// Message for an edition this program does not know.
pub open spec fn unsupported_edition_message(code: i32) -> Seq<char> {
    "暂不支持该 VoiceMeeter 版本类型（"@ + signed_decimal(code as int) + "）。"@
}

impl EditionLayout {
    /// The layout of the edition with this code.
    pub fn from_code(code: i32) -> (res: Result<Self, String>)
        ensures
            match res {
                Ok(layout) => {
                    &&& supported_edition(code)
                    &&& layout.code == code
                    &&& layout.name@ == edition_name(code)
                    &&& layout.physical_input_strip == 0
                    &&& layout.main_mix == main_mix_of(code)
                    &&& layout.aux_mix == aux_mix_of(code)
                },
                Err(e) => !supported_edition(code) && e@ == unsupported_edition_message(code),
            },
    {
        if code == 1 {
            Ok(EditionLayout {
                code,
                name: "VoiceMeeter Standard",
                physical_input_strip: 0,
                main_mix: MixLayout {
                    virtual_input_strip: 2,
                    virtual_microphone_route: 1,
                    virtual_microphone_bus: 1,
                },
                aux_mix: None,
            })
        } else if code == 2 {
            Ok(EditionLayout {
                code,
                name: "VoiceMeeter Banana",
                physical_input_strip: 0,
                main_mix: MixLayout {
                    virtual_input_strip: 3,
                    virtual_microphone_route: 1,
                    virtual_microphone_bus: 3,
                },
                aux_mix: Some(
                    MixLayout { virtual_input_strip: 4, virtual_microphone_route: 2, virtual_microphone_bus: 4 },
                ),
            })
        } else if code == 3 {
            Ok(EditionLayout {
                code,
                name: "VoiceMeeter Potato",
                physical_input_strip: 0,
                main_mix: MixLayout {
                    virtual_input_strip: 5,
                    virtual_microphone_route: 1,
                    virtual_microphone_bus: 5,
                },
                aux_mix: Some(
                    MixLayout { virtual_input_strip: 6, virtual_microphone_route: 2, virtual_microphone_bus: 6 },
                ),
            })
        } else {
            let mut message = String::from_str("暂不支持该 VoiceMeeter 版本类型（");
            append_signed(&mut message, code as i64);
            append_str(&mut message, "）。");
            Err(message)
        }
    }

    /// Banana and Potato have a parametric equalizer on bus A1.
    pub fn supports_bus_equalizer(self) -> (r: bool)
        ensures
            r == (self.code >= 2),
    {
        self.code >= 2
    }

    /// Only Potato has the denoiser on its input strips.
    pub fn supports_denoiser(self) -> (r: bool)
        ensures
            r == (self.code == 3),
    {
        self.code == 3
    }

    /// Only Potato has an equalizer on its input strips.
    pub fn supports_strip_equalizer(self) -> (r: bool)
        ensures
            r == (self.code == 3),
    {
        self.code == 3
    }
}

/// The edition to start when VoiceMeeter is not running: the largest one
/// installed (Potato, then Banana, else Standard).
pub fn preferred_edition(potato_installed: bool, banana_installed: bool) -> (res: i32)
    ensures
        res == if potato_installed {
            3i32
        } else if banana_installed {
            2i32
        } else {
            1i32
        },
{
    if potato_installed {
        3
    } else if banana_installed {
        2
    } else {
        1
    }
}

// ---------------------------------------------------------------------------
// Remote API parameter names
// ---------------------------------------------------------------------------

/// The parameter `field` of element `index` of a strip or bus array, such as
/// `Strip[3].Gain`.
pub open spec fn param(owner: Seq<char>, index: nat, field: Seq<char>) -> Seq<char> {
    owner + "["@ + decimal(index) + "]."@ + field
}

/// Builds the name of the parameter `field` of `owner[index]`.
pub fn parameter(owner: &str, index: usize, field: &str) -> (res: String)
    ensures
        res@ == param(owner@, index as nat, field@),
{
    let mut s = String::from_str(owner);
    append_str(&mut s, "[");
    append_decimal(&mut s, index as u64);
    append_str(&mut s, "].");
    append_str(&mut s, field);
    s
}

/// The route button of a strip towards virtual bus `route` (B1, B2, ...).
pub open spec fn route_field(route: nat) -> Seq<char> {
    "B"@ + decimal(route)
}

/// The switch of the equalizer of `owner[index]`.
pub open spec fn eq_switch(owner: Seq<char>, index: nat) -> Seq<char> {
    param(owner, index, "EQ"@) + ".on"@
}

/// A parameter of one cell of the equalizer of `owner[index]`, such as
/// `Bus[0].EQ.channel[1].cell[4].gain`.
pub open spec fn eq_cell(owner: Seq<char>, index: nat, channel: nat, cell: nat, field: Seq<char>) -> Seq<char> {
    param(owner, index, "EQ"@) + ".channel["@ + decimal(channel) + "].cell["@ + decimal(cell) + "]."@ + field
}

/// Builds the name of the switch of an equalizer.
pub fn eq_switch_parameter(owner: &str, index: usize) -> (res: String)
    ensures
        res@ == eq_switch(owner@, index as nat),
{
    let mut s = parameter(owner, index, "EQ");
    append_str(&mut s, ".on");
    s
}

/// Builds the name of a parameter of an equalizer cell.
pub fn eq_cell_parameter(owner: &str, index: usize, channel: usize, cell: usize, field: &str) -> (res:
    String)
    ensures
        res@ == eq_cell(owner@, index as nat, channel as nat, cell as nat, field@),
{
    let mut s = parameter(owner, index, "EQ");
    append_str(&mut s, ".channel[");
    append_decimal(&mut s, channel as u64);
    append_str(&mut s, "].cell[");
    append_decimal(&mut s, cell as u64);
    append_str(&mut s, "].");
    append_str(&mut s, field);
    s
}

// ---------------------------------------------------------------------------
// Applying a configuration
// ---------------------------------------------------------------------------

/// A level or switch of a mix.
#[derive(Debug, Clone, Copy, PartialEq, Eq, Structural)]
pub enum MixSetting {
    MonitorEnabled,
    VirtualMicrophoneEnabled,
    InputMuted,
    InputGain,
    VirtualMicrophoneMuted,
    VirtualMicrophoneGain,
}

/// A level or switch of the physical input strip.
#[derive(Debug, Clone, Copy, PartialEq, Eq, Structural)]
pub enum InputSetting {
    Muted,
    Gain,
    MonitorEnabled,
    MainMixEnabled,
    AuxMixEnabled,
    Audibility,
    Compressor,
    NoiseGate,
    Denoiser,
}

/// The value of the configuration a numeric write takes (switches are
/// written as 1 or 0).
#[derive(Debug, Clone, Copy, PartialEq, Eq, Structural)]
pub enum Setting {
    MainMix(MixSetting),
    AuxMix(MixSetting),
    PhysicalInput(InputSetting),
}

/// Which requested equalizer a write takes.
#[derive(Debug, Clone, Copy, PartialEq, Eq, Structural)]
pub enum EqTarget {
    /// The equalizer of output bus A1.
    A1,
    /// The equalizer of the physical input strip.
    PhysicalInput,
}

/// One step of applying a configuration.
#[derive(Debug)]
pub enum VoicemeeterWrite {
    /// Set a numeric parameter to a value of the configuration.
    Number { parameter: String, setting: Setting },
    /// Set a text parameter.
    Text { parameter: String, value: String },
    /// Read `read_parameter`; when its trimmed value differs from
    /// `requested`, write `requested` to `write_parameter`.
    SyncDevice { read_parameter: String, write_parameter: String, requested: String },
    /// Read the equalizer of `owner[index]` and, when it differs from the
    /// requested one, write it on the first `channels` channels.
    Equalizer { owner: String, index: usize, channels: usize, target: EqTarget },
    /// Stop here with this error; the writes before it were made.
    Fail { message: String },
}

/// The view of a step, with texts as character sequences.
pub enum WriteView {
    Number(Seq<char>, Setting),
    Text(Seq<char>, Seq<char>),
    SyncDevice(Seq<char>, Seq<char>, Seq<char>),
    Equalizer(Seq<char>, nat, nat, EqTarget),
    Fail(Seq<char>),
}

impl View for VoicemeeterWrite {
    type V = WriteView;

    open spec fn view(&self) -> WriteView {
        match self {
            VoicemeeterWrite::Number { parameter, setting } => WriteView::Number(parameter@, *setting),
            VoicemeeterWrite::Text { parameter, value } => WriteView::Text(parameter@, value@),
            VoicemeeterWrite::SyncDevice { read_parameter, write_parameter, requested } =>
                WriteView::SyncDevice(read_parameter@, write_parameter@, requested@),
            VoicemeeterWrite::Equalizer { owner, index, channels, target } => WriteView::Equalizer(
                owner@,
                *index as nat,
                *channels as nat,
                *target,
            ),
            VoicemeeterWrite::Fail { message } => WriteView::Fail(message@),
        }
    }
}

/// What the logic reads of a requested configuration: which optional parts
/// are present, and the device names.
#[derive(Debug)]
pub struct ApplyRequest {
    pub monitor_device_name: Option<String>,
    pub has_a1_equalizer: bool,
    pub has_aux_mix: bool,
    pub physical_device_name: Option<String>,
    pub has_audibility: bool,
    pub has_compressor: bool,
    pub has_noise_gate: bool,
    pub has_denoiser: bool,
    pub has_strip_equalizer: bool,
}

/// The setting of one mix, main or AUX.
pub open spec fn mix_setting(aux: bool, s: MixSetting) -> Setting {
    if aux {
        Setting::AuxMix(s)
    } else {
        Setting::MainMix(s)
    }
}

/// The writes of one mix.
pub open spec fn mix_writes(m: MixLayout, aux: bool) -> Seq<WriteView> {
    let strip = m.virtual_input_strip as nat;
    let bus = m.virtual_microphone_bus as nat;
    seq![
        WriteView::Number(param("Strip"@, strip, "A1"@), mix_setting(aux, MixSetting::MonitorEnabled)),
        WriteView::Number(
            param("Strip"@, strip, route_field(m.virtual_microphone_route as nat)),
            mix_setting(aux, MixSetting::VirtualMicrophoneEnabled),
        ),
        WriteView::Number(param("Strip"@, strip, "Mute"@), mix_setting(aux, MixSetting::InputMuted)),
        WriteView::Number(param("Strip"@, strip, "Gain"@), mix_setting(aux, MixSetting::InputGain)),
        WriteView::Number(param("Bus"@, bus, "Mute"@), mix_setting(aux, MixSetting::VirtualMicrophoneMuted)),
        WriteView::Number(param("Bus"@, bus, "Gain"@), mix_setting(aux, MixSetting::VirtualMicrophoneGain)),
    ]
}

/// Message when an AUX mix is requested from VoiceMeeter Standard.
pub open spec fn no_aux_message() -> Seq<char> {
    "当前 VoiceMeeter Standard 不支持 AUX 混音，请安装 Banana 或 Potato。"@
}

/// Message when an A1 equalizer is requested from VoiceMeeter Standard.
pub open spec fn no_a1_equalizer_message() -> Seq<char> {
    "VoiceMeeter Standard 不支持 A1 参数均衡器。"@
}

/// A requested device name, trimmed; blank means none.
pub open spec fn requested_name(name: Option<String>) -> Seq<char> {
    match name {
        Some(n) => trim(n@),
        None => seq![],
    }
}

/// A numeric write of the physical input strip.
pub open spec fn input_number(strip: nat, field: Seq<char>, s: InputSetting) -> WriteView {
    WriteView::Number(param("Strip"@, strip, field), Setting::PhysicalInput(s))
}

/// The switches of the physical input strip, with the AUX route when the
/// edition has an AUX mix.
pub open spec fn input_switches(layout: EditionLayout) -> Seq<WriteView> {
    let strip = layout.physical_input_strip as nat;
    let base = seq![
        input_number(strip, "Mute"@, InputSetting::Muted),
        input_number(strip, "Gain"@, InputSetting::Gain),
        input_number(strip, "A1"@, InputSetting::MonitorEnabled),
        input_number(strip, "B1"@, InputSetting::MainMixEnabled),
    ];
    if layout.aux_mix is Some {
        base.push(input_number(strip, "B2"@, InputSetting::AuxMixEnabled))
    } else {
        base
    }
}

/// The processing of the physical input strip each edition has.
pub open spec fn input_processing(layout: EditionLayout, req: ApplyRequest) -> Seq<WriteView> {
    let strip = layout.physical_input_strip as nat;
    let dynamics = if layout.code == 1 {
        if req.has_audibility {
            seq![input_number(strip, "Audibility"@, InputSetting::Audibility)]
        } else {
            seq![]
        }
    } else {
        (if req.has_compressor {
            seq![input_number(strip, "Comp"@, InputSetting::Compressor)]
        } else {
            seq![]
        }) + (if req.has_noise_gate {
            seq![input_number(strip, "Gate"@, InputSetting::NoiseGate)]
        } else {
            seq![]
        })
    };
    let denoiser = if layout.code == 3 && req.has_denoiser {
        seq![input_number(strip, "Denoiser"@, InputSetting::Denoiser)]
    } else {
        seq![]
    };
    let equalizer = if layout.code == 3 && req.has_strip_equalizer {
        seq![WriteView::Equalizer("Strip"@, strip, 2, EqTarget::PhysicalInput)]
    } else {
        seq![]
    };
    dynamics + denoiser + equalizer
}

/// The writes of the physical input strip after its device is synced.
pub open spec fn input_writes(layout: EditionLayout, req: ApplyRequest) -> Seq<WriteView> {
    input_switches(layout) + input_processing(layout, req)
}

/// The steps that apply a configuration, in order: the main mix; the AUX
/// mix (refused on Standard); the monitor device; the A1 equalizer
/// (refused on Standard); the physical input's device, switches and levels,
/// with the processing each edition has (audibility on Standard, compressor
/// and gate on Banana and Potato, denoiser and equalizer on Potato). A
/// refusal ends the steps, after the writes that precede it.
pub open spec fn apply_writes(layout: EditionLayout, req: ApplyRequest) -> Seq<WriteView> {
    let main = mix_writes(layout.main_mix, false);
    if req.has_aux_mix && layout.aux_mix is None {
        main.push(WriteView::Fail(no_aux_message()))
    } else {
        let mixes = if req.has_aux_mix {
            main + mix_writes(layout.aux_mix->0, true)
        } else {
            main
        };
        let monitor = requested_name(req.monitor_device_name);
        let with_monitor = if monitor.len() > 0 {
            mixes.push(WriteView::Text("Bus[0].Device.wdm"@, monitor))
        } else {
            mixes
        };
        if layout.code < 2 && req.has_a1_equalizer {
            with_monitor.push(WriteView::Fail(no_a1_equalizer_message()))
        } else {
            let with_eq = if req.has_a1_equalizer {
                with_monitor.push(WriteView::Equalizer("Bus"@, 0, 8, EqTarget::A1))
            } else {
                with_monitor
            };
            let strip = layout.physical_input_strip as nat;
            with_eq.push(
                WriteView::SyncDevice(
                    param("Strip"@, strip, "Device.name"@),
                    param("Strip"@, strip, "Device.wdm"@),
                    requested_name(req.physical_device_name),
                ),
            ) + input_writes(layout, req)
        }
    }
}

/// The view of a list of steps.
pub open spec fn writes_view(v: Seq<VoicemeeterWrite>) -> Seq<WriteView> {
    v.map_values(|w: VoicemeeterWrite| w@)
}

fn push_number(out: &mut Vec<VoicemeeterWrite>, owner: &str, index: usize, field: &str, setting: Setting)
    ensures
        writes_view(final(out)@) == writes_view(old(out)@).push(
            WriteView::Number(param(owner@, index as nat, field@), setting),
        ),
{
    let parameter = parameter(owner, index, field);
    out.push(VoicemeeterWrite::Number { parameter, setting });
    assert(writes_view(out@) =~= writes_view(old(out)@).push(
        WriteView::Number(param(owner@, index as nat, field@), setting),
    ));
}

fn push_mix(out: &mut Vec<VoicemeeterWrite>, m: MixLayout, aux: bool)
    ensures
        writes_view(final(out)@) == writes_view(old(out)@) + mix_writes(m, aux),
{
    let setting = |s: MixSetting| -> (r: Setting)
        ensures
            r == mix_setting(aux, s),
        {
            if aux {
                Setting::AuxMix(s)
            } else {
                Setting::MainMix(s)
            }
        };
    proof {
        reveal_strlit("Strip");
        reveal_strlit("Bus");
        reveal_strlit("A1");
        reveal_strlit("Mute");
        reveal_strlit("Gain");
    }
    push_number(out, "Strip", m.virtual_input_strip, "A1", setting(MixSetting::MonitorEnabled));
    let mut route = String::from_str("B");
    append_decimal(&mut route, m.virtual_microphone_route as u64);
    push_number(
        out,
        "Strip",
        m.virtual_input_strip,
        route.as_str(),
        setting(MixSetting::VirtualMicrophoneEnabled),
    );
    push_number(out, "Strip", m.virtual_input_strip, "Mute", setting(MixSetting::InputMuted));
    push_number(out, "Strip", m.virtual_input_strip, "Gain", setting(MixSetting::InputGain));
    push_number(out, "Bus", m.virtual_microphone_bus, "Mute", setting(MixSetting::VirtualMicrophoneMuted));
    push_number(out, "Bus", m.virtual_microphone_bus, "Gain", setting(MixSetting::VirtualMicrophoneGain));
    assert(writes_view(out@) =~= writes_view(old(out)@) + mix_writes(m, aux));
}

#[verifier::rlimit(40)]
fn push_input(out: &mut Vec<VoicemeeterWrite>, layout: EditionLayout, req: &ApplyRequest)
    ensures
        writes_view(final(out)@) == writes_view(old(out)@) + input_writes(layout, *req),
{
    let strip = layout.physical_input_strip;
    let ghost start = writes_view(out@);
    push_number(out, "Strip", strip, "Mute", Setting::PhysicalInput(InputSetting::Muted));
    push_number(out, "Strip", strip, "Gain", Setting::PhysicalInput(InputSetting::Gain));
    push_number(out, "Strip", strip, "A1", Setting::PhysicalInput(InputSetting::MonitorEnabled));
    push_number(out, "Strip", strip, "B1", Setting::PhysicalInput(InputSetting::MainMixEnabled));
    if layout.aux_mix.is_some() {
        push_number(out, "Strip", strip, "B2", Setting::PhysicalInput(InputSetting::AuxMixEnabled));
    }
    assert(writes_view(out@) =~= start + input_switches(layout));
    let ghost mid = writes_view(out@);
    if layout.code == 1 {
        if req.has_audibility {
            push_number(out, "Strip", strip, "Audibility", Setting::PhysicalInput(InputSetting::Audibility));
        }
    } else {
        if req.has_compressor {
            push_number(out, "Strip", strip, "Comp", Setting::PhysicalInput(InputSetting::Compressor));
        }
        if req.has_noise_gate {
            push_number(out, "Strip", strip, "Gate", Setting::PhysicalInput(InputSetting::NoiseGate));
        }
    }
    if layout.supports_denoiser() && req.has_denoiser {
        push_number(out, "Strip", strip, "Denoiser", Setting::PhysicalInput(InputSetting::Denoiser));
    }
    let ghost before_eq = writes_view(out@);
    if layout.supports_strip_equalizer() && req.has_strip_equalizer {
        out.push(
            VoicemeeterWrite::Equalizer {
                owner: String::from_str("Strip"),
                index: strip,
                channels: 2,
                target: EqTarget::PhysicalInput,
            },
        );
        assert(writes_view(out@) =~= before_eq.push(
            WriteView::Equalizer("Strip"@, strip as nat, 2, EqTarget::PhysicalInput),
        ));
    }
    assert(writes_view(out@) =~= mid + input_processing(layout, *req));
    assert(writes_view(out@) =~= start + input_writes(layout, *req));
}

/// The trimmed name of an optional device name (blank when absent).
fn requested_text(name: &Option<String>) -> (res: String)
    ensures
        res@ == requested_name(*name),
{
    match name {
        Some(n) => trimmed(n.as_str()),
        None => String::new(),
    }
}

/// Plans the writes that apply a configuration on an edition.
pub fn apply_plan(layout: EditionLayout, request: &ApplyRequest) -> (res: Vec<VoicemeeterWrite>)
    ensures
        writes_view(res@) == apply_writes(layout, *request),
{
    let mut out: Vec<VoicemeeterWrite> = Vec::new();
    assert(writes_view(out@) =~= Seq::<WriteView>::empty());
    push_mix(&mut out, layout.main_mix, false);
    assert(writes_view(out@) =~= mix_writes(layout.main_mix, false));
    if request.has_aux_mix {
        match layout.aux_mix {
            Some(aux) => push_mix(&mut out, aux, true),
            None => {
                out.push(
                    VoicemeeterWrite::Fail {
                        message: String::from_str(
                            "当前 VoiceMeeter Standard 不支持 AUX 混音，请安装 Banana 或 Potato。",
                        ),
                    },
                );
                assert(writes_view(out@) =~= apply_writes(layout, *request));
                return out;
            },
        }
    }
    let monitor = requested_text(&request.monitor_device_name);
    if chars_of(monitor.as_str()).len() > 0 {
        out.push(VoicemeeterWrite::Text { parameter: String::from_str("Bus[0].Device.wdm"), value: monitor });
    }
    if layout.supports_bus_equalizer() {
        if request.has_a1_equalizer {
            out.push(
                VoicemeeterWrite::Equalizer {
                    owner: String::from_str("Bus"),
                    index: 0,
                    channels: 8,
                    target: EqTarget::A1,
                },
            );
        }
    } else if request.has_a1_equalizer {
        out.push(
            VoicemeeterWrite::Fail { message: String::from_str("VoiceMeeter Standard 不支持 A1 参数均衡器。") },
        );
        assert(writes_view(out@) =~= apply_writes(layout, *request));
        return out;
    }
    let strip = layout.physical_input_strip;
    out.push(
        VoicemeeterWrite::SyncDevice {
            read_parameter: parameter("Strip", strip, "Device.name"),
            write_parameter: parameter("Strip", strip, "Device.wdm"),
            requested: requested_text(&request.physical_device_name),
        },
    );
    proof {
        reveal_strlit("Strip");
        reveal_strlit("Device.name");
        reveal_strlit("Device.wdm");
    }
    let ghost before_input = writes_view(out@);
    push_input(&mut out, layout, request);
    assert(writes_view(out@) =~= apply_writes(layout, *request));
    out
}

/// Whether the physical input's device must be written: its current name,
/// trimmed, differs from the requested one.
pub fn device_needs_update(current: &str, requested: &str) -> (r: bool)
    ensures
        r == (trim(current@) != requested@),
{
    let t = trimmed(current);
    !str_equal(t.as_str(), requested)
}

// ---------------------------------------------------------------------------
// Reading the configuration
// ---------------------------------------------------------------------------

/// One read of the live configuration.
#[derive(Debug)]
pub enum VoicemeeterRead {
    /// Read a device name; a failed read or a blank name means none.
    DeviceName { parameter: String, target: DeviceNameTarget },
    /// Read a numeric parameter into a setting of the configuration; a
    /// switch is on when the value is at least 0.5. A failed read fails the
    /// whole status.
    Number { parameter: String, setting: Setting, switch: bool },
    /// Read the equalizer of `owner[index]` (see `eq_read_parameters`).
    Equalizer { owner: String, index: usize, target: EqTarget },
}

/// Which device name a read fills in.
#[derive(Debug, Clone, Copy, PartialEq, Eq, Structural)]
pub enum DeviceNameTarget {
    Monitor,
    PhysicalInput,
}

/// The view of a read.
pub enum ReadView {
    DeviceName(Seq<char>, DeviceNameTarget),
    Number(Seq<char>, Setting, bool),
    Equalizer(Seq<char>, nat, EqTarget),
}

impl View for VoicemeeterRead {
    type V = ReadView;

    open spec fn view(&self) -> ReadView {
        match self {
            VoicemeeterRead::DeviceName { parameter, target } => ReadView::DeviceName(parameter@, *target),
            VoicemeeterRead::Number { parameter, setting, switch } => ReadView::Number(
                parameter@,
                *setting,
                *switch,
            ),
            VoicemeeterRead::Equalizer { owner, index, target } => ReadView::Equalizer(
                owner@,
                *index as nat,
                *target,
            ),
        }
    }
}

/// The reads of one mix, in the order the status reads them.
pub open spec fn mix_reads(m: MixLayout, aux: bool) -> Seq<ReadView> {
    let strip = m.virtual_input_strip as nat;
    let bus = m.virtual_microphone_bus as nat;
    seq![
        ReadView::Number(param("Strip"@, strip, "A1"@), mix_setting(aux, MixSetting::MonitorEnabled), true),
        ReadView::Number(
            param("Strip"@, strip, route_field(m.virtual_microphone_route as nat)),
            mix_setting(aux, MixSetting::VirtualMicrophoneEnabled),
            true,
        ),
        ReadView::Number(param("Strip"@, strip, "Mute"@), mix_setting(aux, MixSetting::InputMuted), true),
        ReadView::Number(param("Bus"@, bus, "Mute"@), mix_setting(aux, MixSetting::VirtualMicrophoneMuted), true),
        ReadView::Number(param("Strip"@, strip, "Gain"@), mix_setting(aux, MixSetting::InputGain), false),
        ReadView::Number(param("Bus"@, bus, "Gain"@), mix_setting(aux, MixSetting::VirtualMicrophoneGain), false),
    ]
}

/// A numeric read of the physical input strip.
pub open spec fn input_read(strip: nat, field: Seq<char>, s: InputSetting, switch: bool) -> ReadView {
    ReadView::Number(param("Strip"@, strip, field), Setting::PhysicalInput(s), switch)
}

/// The reads of the physical input strip after its device name.
pub open spec fn input_reads(layout: EditionLayout) -> Seq<ReadView> {
    let strip = layout.physical_input_strip as nat;
    let base = seq![
        input_read(strip, "Mute"@, InputSetting::Muted, true),
        input_read(strip, "Gain"@, InputSetting::Gain, false),
        input_read(strip, "A1"@, InputSetting::MonitorEnabled, true),
        input_read(strip, "B1"@, InputSetting::MainMixEnabled, true),
    ];
    let aux = if layout.aux_mix is Some {
        seq![input_read(strip, "B2"@, InputSetting::AuxMixEnabled, true)]
    } else {
        seq![]
    };
    let audibility = if layout.code == 1 {
        seq![input_read(strip, "Audibility"@, InputSetting::Audibility, false)]
    } else {
        seq![]
    };
    let dynamics = if layout.code >= 2 {
        seq![
            input_read(strip, "Comp"@, InputSetting::Compressor, false),
            input_read(strip, "Gate"@, InputSetting::NoiseGate, false),
        ]
    } else {
        seq![]
    };
    let potato = if layout.code == 3 {
        seq![
            input_read(strip, "Denoiser"@, InputSetting::Denoiser, false),
            ReadView::Equalizer("Strip"@, strip, EqTarget::PhysicalInput),
        ]
    } else {
        seq![]
    };
    base + aux + audibility + dynamics + potato
}

/// The reads of the live configuration, in order: the monitor device, the
/// A1 equalizer (Banana and Potato), the main and AUX mixes, then the
/// physical input with the processing each edition has.
pub open spec fn status_reads_of(layout: EditionLayout) -> Seq<ReadView> {
    let monitor = seq![ReadView::DeviceName("Bus[0].Device.name"@, DeviceNameTarget::Monitor)];
    let eq = if layout.code >= 2 {
        seq![ReadView::Equalizer("Bus"@, 0, EqTarget::A1)]
    } else {
        seq![]
    };
    let aux = match layout.aux_mix {
        Some(a) => mix_reads(a, true),
        None => seq![],
    };
    monitor + eq + mix_reads(layout.main_mix, false) + aux + seq![
        ReadView::DeviceName(
            param("Strip"@, layout.physical_input_strip as nat, "Device.name"@),
            DeviceNameTarget::PhysicalInput,
        ),
    ] + input_reads(layout)
}

/// The view of a list of reads.
pub open spec fn reads_view(v: Seq<VoicemeeterRead>) -> Seq<ReadView> {
    v.map_values(|r: VoicemeeterRead| r@)
}

fn push_read(out: &mut Vec<VoicemeeterRead>, owner: &str, index: usize, field: &str, setting: Setting, switch: bool)
    ensures
        reads_view(final(out)@) == reads_view(old(out)@).push(
            ReadView::Number(param(owner@, index as nat, field@), setting, switch),
        ),
{
    let parameter = parameter(owner, index, field);
    out.push(VoicemeeterRead::Number { parameter, setting, switch });
    assert(reads_view(out@) =~= reads_view(old(out)@).push(
        ReadView::Number(param(owner@, index as nat, field@), setting, switch),
    ));
}

fn push_mix_reads(out: &mut Vec<VoicemeeterRead>, m: MixLayout, aux: bool)
    ensures
        reads_view(final(out)@) == reads_view(old(out)@) + mix_reads(m, aux),
{
    let setting = |s: MixSetting| -> (r: Setting)
        ensures
            r == mix_setting(aux, s),
        {
            if aux {
                Setting::AuxMix(s)
            } else {
                Setting::MainMix(s)
            }
        };
    let strip = m.virtual_input_strip;
    let bus = m.virtual_microphone_bus;
    push_read(out, "Strip", strip, "A1", setting(MixSetting::MonitorEnabled), true);
    let mut route = String::from_str("B");
    append_decimal(&mut route, m.virtual_microphone_route as u64);
    push_read(out, "Strip", strip, route.as_str(), setting(MixSetting::VirtualMicrophoneEnabled), true);
    push_read(out, "Strip", strip, "Mute", setting(MixSetting::InputMuted), true);
    push_read(out, "Bus", bus, "Mute", setting(MixSetting::VirtualMicrophoneMuted), true);
    push_read(out, "Strip", strip, "Gain", setting(MixSetting::InputGain), false);
    push_read(out, "Bus", bus, "Gain", setting(MixSetting::VirtualMicrophoneGain), false);
    assert(reads_view(out@) =~= reads_view(old(out)@) + mix_reads(m, aux));
}

fn push_input_reads(out: &mut Vec<VoicemeeterRead>, layout: EditionLayout)
    ensures
        reads_view(final(out)@) == reads_view(old(out)@) + input_reads(layout),
{
    let strip = layout.physical_input_strip;
    let ghost start = reads_view(out@);
    push_read(out, "Strip", strip, "Mute", Setting::PhysicalInput(InputSetting::Muted), true);
    push_read(out, "Strip", strip, "Gain", Setting::PhysicalInput(InputSetting::Gain), false);
    push_read(out, "Strip", strip, "A1", Setting::PhysicalInput(InputSetting::MonitorEnabled), true);
    push_read(out, "Strip", strip, "B1", Setting::PhysicalInput(InputSetting::MainMixEnabled), true);
    if layout.aux_mix.is_some() {
        push_read(out, "Strip", strip, "B2", Setting::PhysicalInput(InputSetting::AuxMixEnabled), true);
    }
    let ghost after_aux = reads_view(out@);
    if layout.code == 1 {
        push_read(out, "Strip", strip, "Audibility", Setting::PhysicalInput(InputSetting::Audibility), false);
    }
    let ghost after_audibility = reads_view(out@);
    if layout.code >= 2 {
        push_read(out, "Strip", strip, "Comp", Setting::PhysicalInput(InputSetting::Compressor), false);
        push_read(out, "Strip", strip, "Gate", Setting::PhysicalInput(InputSetting::NoiseGate), false);
    }
    let ghost after_dynamics = reads_view(out@);
    if layout.code == 3 {
        push_read(out, "Strip", strip, "Denoiser", Setting::PhysicalInput(InputSetting::Denoiser), false);
        let ghost before_eq = reads_view(out@);
        out.push(VoicemeeterRead::Equalizer { owner: String::from_str("Strip"), index: strip, target: EqTarget::PhysicalInput });
        assert(reads_view(out@) =~= before_eq.push(ReadView::Equalizer("Strip"@, strip as nat, EqTarget::PhysicalInput)));
    }
    assert(reads_view(out@) =~= start + input_reads(layout));
}

/// Plans the reads of the live configuration of an edition.
pub fn status_reads(layout: EditionLayout) -> (res: Vec<VoicemeeterRead>)
    ensures
        reads_view(res@) == status_reads_of(layout),
{
    let mut out: Vec<VoicemeeterRead> = Vec::new();
    out.push(
        VoicemeeterRead::DeviceName {
            parameter: String::from_str("Bus[0].Device.name"),
            target: DeviceNameTarget::Monitor,
        },
    );
    assert(reads_view(out@) =~= seq![ReadView::DeviceName("Bus[0].Device.name"@, DeviceNameTarget::Monitor)]);
    let ghost after_monitor = reads_view(out@);
    if layout.supports_bus_equalizer() {
        out.push(VoicemeeterRead::Equalizer { owner: String::from_str("Bus"), index: 0, target: EqTarget::A1 });
        assert(reads_view(out@) =~= after_monitor.push(ReadView::Equalizer("Bus"@, 0, EqTarget::A1)));
    }
    push_mix_reads(&mut out, layout.main_mix, false);
    if let Some(aux) = layout.aux_mix {
        push_mix_reads(&mut out, aux, true);
    }
    let ghost before_device = reads_view(out@);
    out.push(
        VoicemeeterRead::DeviceName {
            parameter: parameter("Strip", layout.physical_input_strip, "Device.name"),
            target: DeviceNameTarget::PhysicalInput,
        },
    );
    assert(reads_view(out@) =~= before_device.push(
        ReadView::DeviceName(
            param("Strip"@, layout.physical_input_strip as nat, "Device.name"@),
            DeviceNameTarget::PhysicalInput,
        ),
    ));
    push_input_reads(&mut out, layout);
    assert(reads_view(out@) =~= status_reads_of(layout));
    out
}

/// The fields of an equalizer cell, in the order they are read and written.
pub open spec fn cell_field(k: int) -> Seq<char> {
    if k == 0 {
        "on"@
    } else if k == 1 {
        "type"@
    } else if k == 2 {
        "f"@
    } else if k == 3 {
        "gain"@
    } else {
        "q"@
    }
}

fn cell_field_text(k: usize) -> (res: &'static str)
    requires
        k < 5,
    ensures
        res@ == cell_field(k as int),
{
    if k == 0 {
        "on"
    } else if k == 1 {
        "type"
    } else if k == 2 {
        "f"
    } else if k == 3 {
        "gain"
    } else {
        "q"
    }
}

/// The parameters read for an equalizer: the five fields of each of the
/// six cells of channel 0, then its switch.
pub fn eq_read_parameters(owner: &str, index: usize) -> (res: Vec<String>)
    ensures
        res@.len() == 31,
        forall|c: int, k: int|
            0 <= c < 6 && 0 <= k < 5 ==> (#[trigger] res@[c * 5 + k])@ == eq_cell(owner@, index as nat, 0, c as nat, cell_field(k)),
        res@[30]@ == eq_switch(owner@, index as nat),
{
    let mut out: Vec<String> = Vec::new();
    let mut cell: usize = 0;
    while cell < 6
        invariant
            cell <= 6,
            out@.len() == cell * 5,
            forall|c: int, k: int|
                0 <= c < cell && 0 <= k < 5 ==> (#[trigger] out@[c * 5 + k])@ == eq_cell(owner@, index as nat, 0, c as nat, cell_field(k)),
        decreases 6 - cell,
    {
        let mut k: usize = 0;
        while k < 5
            invariant
                cell < 6,
                k <= 5,
                out@.len() == cell * 5 + k,
                forall|c: int, j: int|
                    0 <= c < cell && 0 <= j < 5 ==> (#[trigger] out@[c * 5 + j])@ == eq_cell(owner@, index as nat, 0, c as nat, cell_field(j)),
                forall|j: int| 0 <= j < k ==> (#[trigger] out@[cell * 5 + j])@ == eq_cell(owner@, index as nat, 0, cell as nat, cell_field(j)),
            decreases 5 - k,
        {
            out.push(eq_cell_parameter(owner, index, 0, cell, cell_field_text(k)));
            k += 1;
        }
        cell += 1;
    }
    out.push(eq_switch_parameter(owner, index));
    out
}

// ---------------------------------------------------------------------------
// Remote API results and requests
// ---------------------------------------------------------------------------

/// Message for a failed Remote API call.
pub open spec fn remote_error_message(operation: Seq<char>, result: i32) -> Seq<char> {
    operation + "失败（Remote API 错误 "@ + signed_decimal(result as int) + "）。"@
}

/// A Remote API call succeeded when its result is not negative.
pub fn remote_check(result: i32, operation: &str) -> (res: Result<i32, String>)
    ensures
        match res {
            Ok(v) => result >= 0 && v == result,
            Err(e) => result < 0 && e@ == remote_error_message(operation@, result),
        },
{
    if result >= 0 {
        Ok(result)
    } else {
        let mut message = String::from_str(operation);
        append_str(&mut message, "失败（Remote API 错误 ");
        append_signed(&mut message, result as i64);
        append_str(&mut message, "）。");
        Err(message)
    }
}

/// Message for an unusable monitor device name.
pub open spec fn invalid_monitor_message() -> Seq<char> {
    "本地监听设备名称无效。"@
}

/// Checks the monitor device name sent to bus A1 and answers it trimmed: it
/// must not be blank and its UTF-8 form must not exceed 256 bytes.
pub fn monitor_device_name(device_name: &str) -> (res: Result<String, String>)
    ensures
        match res {
            Ok(name) => name@ == trim(device_name@) && 0 < name@.len() && utf8_len(name@) <= 256,
            Err(e) => (trim(device_name@).len() == 0 || utf8_len(trim(device_name@)) > 256) && e@
                == invalid_monitor_message(),
        },
{
    let name = trimmed(device_name);
    let chars = chars_of(name.as_str());
    if chars.len() == 0 || !utf8_len_at_most(chars.as_slice(), 256) {
        return Err(String::from_str("本地监听设备名称无效。"));
    }
    Ok(name)
}

/// What the caller found of one equalizer band: its filter type, and
/// whether each level is a finite number in its range (frequency 20 Hz to
/// 20 kHz, gain -12 dB to +12 dB, Q 0.3 to 100).
#[derive(Debug, Clone, Copy, PartialEq, Eq, Structural)]
pub struct EqBandCheck {
    pub filter_type: i32,
    pub frequency_ok: bool,
    pub gain_ok: bool,
    pub q_ok: bool,
}

/// The first problem of a band, if any: its filter type (0 to 6), then its
/// frequency, gain and Q.
pub open spec fn band_problem(b: EqBandCheck) -> Option<Seq<char>> {
    if !(0 <= b.filter_type <= 6) {
        Some("类型无效"@)
    } else if !b.frequency_ok {
        Some("频率无效"@)
    } else if !b.gain_ok {
        Some("增益无效"@)
    } else if !b.q_ok {
        Some(" Q 值无效"@)
    } else {
        None
    }
}

/// The first band, from `i` on, that has a problem, and the problem.
pub open spec fn first_band_problem(bands: Seq<EqBandCheck>, i: int) -> Option<(int, Seq<char>)>
    decreases bands.len() - i,
{
    if i < 0 || i >= bands.len() {
        None
    } else {
        match band_problem(bands[i]) {
            Some(p) => Some((i, p)),
            None => first_band_problem(bands, i + 1),
        }
    }
}

/// The check of an equalizer named `name`: six bands, each without problem;
/// the message names the first band with a problem (counted from 1).
pub open spec fn equalizer_check(name: Seq<char>, bands: Seq<EqBandCheck>) -> Result<(), Seq<char>> {
    if bands.len() != 6 {
        Err(name + "均衡器必须包含 6 个频段。"@)
    } else {
        match first_band_problem(bands, 0) {
            Some((i, p)) => Err(name + "均衡器第 "@ + decimal((i + 1) as nat) + " 段"@ + p + "。"@),
            None => Ok(()),
        }
    }
}

/// The problem of a band, as text.
fn band_problem_text(b: &EqBandCheck) -> (res: Option<&'static str>)
    ensures
        match res {
            Some(p) => band_problem(*b) == Some(p@),
            None => band_problem(*b) is None,
        },
{
    if !(0 <= b.filter_type && b.filter_type <= 6) {
        Some("类型无效")
    } else if !b.frequency_ok {
        Some("频率无效")
    } else if !b.gain_ok {
        Some("增益无效")
    } else if !b.q_ok {
        Some(" Q 值无效")
    } else {
        None
    }
}

/// Checks the shape and the levels of an equalizer before it is applied.
pub fn validate_equalizer(name: &str, bands: &[EqBandCheck]) -> (res: Result<(), String>)
    ensures
        match res {
            Ok(()) => equalizer_check(name@, bands@) is Ok,
            Err(e) => equalizer_check(name@, bands@) == Err::<(), Seq<char>>(e@),
        },
{
    if bands.len() != 6 {
        let mut message = String::from_str(name);
        append_str(&mut message, "均衡器必须包含 6 个频段。");
        return Err(message);
    }
    let mut i: usize = 0;
    while i < bands.len()
        invariant
            i <= bands@.len(),
            bands@.len() == 6,
            first_band_problem(bands@, 0) == first_band_problem(bands@, i as int),
        decreases bands@.len() - i,
    {
        match band_problem_text(&bands[i]) {
            Some(p) => {
                assert(first_band_problem(bands@, i as int) == Some((i as int, p@)));
                let mut message = String::from_str(name);
                append_str(&mut message, "均衡器第 ");
                append_decimal(&mut message, (i + 1) as u64);
                append_str(&mut message, " 段");
                append_str(&mut message, p);
                append_str(&mut message, "。");
                assert(message@ == name@ + "均衡器第 "@ + decimal((i + 1) as nat) + " 段"@ + p@ + "。"@);
                return Err(message);
            },
            None => {
                assert(first_band_problem(bands@, i as int) == first_band_problem(bands@, i + 1));
            },
        }
        i += 1;
    }
    assert(first_band_problem(bands@, bands@.len() as int) is None);
    Ok(())
}

/// In every supported edition the main mix feeds the first virtual
/// microphone bus (B1) from the first virtual input, and the AUX mix, which
/// Banana and Potato have and Standard lacks, feeds the second one (B2) from
/// the next virtual input and bus: the two mixes never share a route, an
/// input or a bus. The plan's switch of each mix names that route's field.
pub proof fn law_mixes_take_their_own_bus(code: i32)
    requires
        supported_edition(code),
    ensures
        main_mix_of(code).virtual_microphone_route == 1,
        (aux_mix_of(code) is Some) == (code != 1),
        aux_mix_of(code) matches Some(a) ==> {
            &&& a.virtual_microphone_route == 2
            &&& a.virtual_input_strip == main_mix_of(code).virtual_input_strip + 1
            &&& a.virtual_microphone_bus == main_mix_of(code).virtual_microphone_bus + 1
            &&& mix_writes(a, true)[1] == WriteView::Number(
                param("Strip"@, a.virtual_input_strip as nat, "B2"@),
                Setting::AuxMix(MixSetting::VirtualMicrophoneEnabled),
            )
        },
        mix_writes(main_mix_of(code), false)[1] == WriteView::Number(
            param("Strip"@, main_mix_of(code).virtual_input_strip as nat, "B1"@),
            Setting::MainMix(MixSetting::VirtualMicrophoneEnabled),
        ),
{
    reveal_strlit("B1");
    reveal_strlit("B2");
    reveal_strlit("B");
    assert(route_field(1) =~= "B1"@);
    assert(route_field(2) =~= "B2"@);
}

} // verus!
