use audio_hub::voicemeeter::{validate_equalizer, EqBandCheck};
use audio_hub::voicemeeter::{eq_read_parameters, status_reads, VoicemeeterRead};
use audio_hub::voicemeeter::{
    apply_plan, device_needs_update, eq_cell_parameter, eq_switch_parameter, monitor_device_name,
    parameter, preferred_edition, remote_check, ApplyRequest, EditionLayout, EqTarget,
    InputSetting, MixSetting, Setting, VoicemeeterWrite,
};

#[test]
fn maps_supported_editions_to_main_vaio_and_b1() {
    let standard = EditionLayout::from_code(1).unwrap();
    assert_eq!(standard.main_mix.virtual_input_strip, 2);
    assert_eq!(standard.main_mix.virtual_microphone_bus, 1);
    assert!(standard.aux_mix.is_none());
    assert!(!standard.supports_bus_equalizer());
    assert!(!standard.supports_denoiser());

    let banana = EditionLayout::from_code(2).unwrap();
    assert_eq!(banana.main_mix.virtual_input_strip, 3);
    assert_eq!(banana.main_mix.virtual_microphone_bus, 3);
    assert_eq!(banana.aux_mix.unwrap().virtual_input_strip, 4);
    assert_eq!(banana.aux_mix.unwrap().virtual_microphone_bus, 4);
    assert!(banana.supports_bus_equalizer());
    assert!(!banana.supports_denoiser());
    assert!(!banana.supports_strip_equalizer());

    let potato = EditionLayout::from_code(3).unwrap();
    assert_eq!(potato.main_mix.virtual_input_strip, 5);
    assert_eq!(potato.main_mix.virtual_microphone_bus, 5);
    assert_eq!(potato.aux_mix.unwrap().virtual_input_strip, 6);
    assert_eq!(potato.aux_mix.unwrap().virtual_microphone_bus, 6);
    assert!(potato.supports_bus_equalizer());
    assert!(potato.supports_denoiser());
    assert!(potato.supports_strip_equalizer());
}

#[test]
fn unknown_editions_are_refused_with_their_code() {
    assert_eq!(
        EditionLayout::from_code(7).unwrap_err(),
        "暂不支持该 VoiceMeeter 版本类型（7）。"
    );
    assert_eq!(
        EditionLayout::from_code(-2).unwrap_err(),
        "暂不支持该 VoiceMeeter 版本类型（-2）。"
    );
    assert_eq!(EditionLayout::from_code(2).unwrap().name, "VoiceMeeter Banana");
}

#[test]
fn preferred_edition_is_the_largest_installed() {
    assert_eq!(preferred_edition(true, true), 3);
    assert_eq!(preferred_edition(false, true), 2);
    assert_eq!(preferred_edition(false, false), 1);
}

#[test]
fn parameter_names_follow_the_remote_api() {
    assert_eq!(parameter("Strip", 3, "Gain"), "Strip[3].Gain");
    assert_eq!(parameter("Bus", 0, "Device.wdm"), "Bus[0].Device.wdm");
    assert_eq!(eq_switch_parameter("Bus", 0), "Bus[0].EQ.on");
    assert_eq!(
        eq_cell_parameter("Strip", 0, 1, 5, "gain"),
        "Strip[0].EQ.channel[1].cell[5].gain"
    );
}

fn request() -> ApplyRequest {
    ApplyRequest {
        monitor_device_name: None,
        has_a1_equalizer: false,
        has_aux_mix: false,
        physical_device_name: None,
        has_audibility: false,
        has_compressor: false,
        has_noise_gate: false,
        has_denoiser: false,
        has_strip_equalizer: false,
    }
}

fn number_names(plan: &[VoicemeeterWrite]) -> Vec<String> {
    plan.iter()
        .filter_map(|w| match w {
            VoicemeeterWrite::Number { parameter, .. } => Some(parameter.clone()),
            _ => None,
        })
        .collect()
}

#[test]
fn standard_plan_writes_main_mix_and_input() {
    let layout = EditionLayout::from_code(1).unwrap();
    let mut req = request();
    req.has_audibility = true;
    req.has_compressor = true;
    req.monitor_device_name = Some("  Speakers  ".to_string());
    let plan = apply_plan(layout, &req);
    let names = number_names(&plan);
    assert_eq!(
        names,
        vec![
            "Strip[2].A1", "Strip[2].B1", "Strip[2].Mute", "Strip[2].Gain", "Bus[1].Mute",
            "Bus[1].Gain", "Strip[0].Mute", "Strip[0].Gain", "Strip[0].A1", "Strip[0].B1",
            "Strip[0].Audibility",
        ]
    );
    assert!(plan.iter().any(|w| matches!(
        w,
        VoicemeeterWrite::Text { parameter, value } if parameter == "Bus[0].Device.wdm" && value == "Speakers"
    )));
    assert!(matches!(
        &plan[0],
        VoicemeeterWrite::Number { setting: Setting::MainMix(MixSetting::MonitorEnabled), .. }
    ));
}

#[test]
fn standard_refuses_aux_mix_after_the_main_mix() {
    let layout = EditionLayout::from_code(1).unwrap();
    let mut req = request();
    req.has_aux_mix = true;
    let plan = apply_plan(layout, &req);
    assert_eq!(plan.len(), 7);
    assert!(matches!(
        plan.last().unwrap(),
        VoicemeeterWrite::Fail { message } if message == "当前 VoiceMeeter Standard 不支持 AUX 混音，请安装 Banana 或 Potato。"
    ));
    let mut req = request();
    req.has_a1_equalizer = true;
    let plan = apply_plan(layout, &req);
    assert!(matches!(
        plan.last().unwrap(),
        VoicemeeterWrite::Fail { message } if message == "VoiceMeeter Standard 不支持 A1 参数均衡器。"
    ));
}

#[test]
fn potato_plan_uses_aux_mix_and_strip_processing() {
    let layout = EditionLayout::from_code(3).unwrap();
    let mut req = request();
    req.has_aux_mix = true;
    req.has_a1_equalizer = true;
    req.has_noise_gate = true;
    req.has_denoiser = true;
    req.has_strip_equalizer = true;
    req.physical_device_name = Some(" USB Mic ".to_string());
    let plan = apply_plan(layout, &req);
    let names = number_names(&plan);
    assert!(names.contains(&"Strip[6].B2".to_string()));
    assert!(names.contains(&"Bus[6].Gain".to_string()));
    assert!(names.contains(&"Strip[0].B2".to_string()));
    assert!(names.contains(&"Strip[0].Gate".to_string()));
    assert!(names.contains(&"Strip[0].Denoiser".to_string()));
    assert!(!names.contains(&"Strip[0].Comp".to_string()));
    assert!(plan.iter().any(|w| matches!(
        w,
        VoicemeeterWrite::Equalizer { owner, index: 0, channels: 8, target: EqTarget::A1 } if owner == "Bus"
    )));
    assert!(plan.iter().any(|w| matches!(
        w,
        VoicemeeterWrite::SyncDevice { read_parameter, write_parameter, requested }
            if read_parameter == "Strip[0].Device.name" && write_parameter == "Strip[0].Device.wdm" && requested == "USB Mic"
    )));
    assert!(matches!(
        plan.last().unwrap(),
        VoicemeeterWrite::Equalizer { target: EqTarget::PhysicalInput, channels: 2, .. }
    ));
    assert!(plan.iter().any(|w| matches!(
        w,
        VoicemeeterWrite::Number { setting: Setting::PhysicalInput(InputSetting::Denoiser), .. }
    )));
}

#[test]
fn device_and_remote_checks() {
    assert!(!device_needs_update("  USB Mic ", "USB Mic"));
    assert!(device_needs_update("Other", "USB Mic"));
    assert_eq!(remote_check(0, "启动 VoiceMeeter").unwrap(), 0);
    assert_eq!(
        remote_check(-3, "启动 VoiceMeeter").unwrap_err(),
        "启动 VoiceMeeter失败（Remote API 错误 -3）。"
    );
    assert_eq!(monitor_device_name("  Speakers ").unwrap(), "Speakers");
    assert_eq!(monitor_device_name("   ").unwrap_err(), "本地监听设备名称无效。");
    assert!(monitor_device_name(&"a".repeat(256)).is_ok());
    assert!(monitor_device_name(&"a".repeat(257)).is_err());
    assert!(monitor_device_name(&"音".repeat(86)).is_err());
    assert!(monitor_device_name(&"音".repeat(85)).is_ok());
}

#[test]
fn status_reads_follow_the_edition() {
    let reads = status_reads(EditionLayout::from_code(1).unwrap());
    assert!(matches!(&reads[0], VoicemeeterRead::DeviceName { parameter, .. } if parameter == "Bus[0].Device.name"));
    assert!(!reads.iter().any(|r| matches!(r, VoicemeeterRead::Equalizer { .. })));
    assert!(reads.iter().any(|r| matches!(r, VoicemeeterRead::Number { parameter, .. } if parameter == "Strip[0].Audibility")));
    let potato = status_reads(EditionLayout::from_code(3).unwrap());
    assert!(matches!(&potato[1], VoicemeeterRead::Equalizer { owner, index: 0, .. } if owner == "Bus"));
    assert!(matches!(potato.last().unwrap(), VoicemeeterRead::Equalizer { owner, .. } if owner == "Strip"));
    let eq = eq_read_parameters("Bus", 0);
    assert_eq!(eq.len(), 31);
    assert_eq!(eq[0], "Bus[0].EQ.channel[0].cell[0].on");
    assert_eq!(eq[29], "Bus[0].EQ.channel[0].cell[5].q");
    assert_eq!(eq[30], "Bus[0].EQ.on");
}

fn band(filter_type: i32) -> EqBandCheck {
    EqBandCheck { filter_type, frequency_ok: true, gain_ok: true, q_ok: true }
}

#[test]
fn equalizer_needs_six_valid_bands() {
    let ok = vec![band(0); 6];
    assert!(validate_equalizer("A1 输出", &ok).is_ok());
    assert_eq!(validate_equalizer("A1 输出", &ok[..5]).unwrap_err(), "A1 输出均衡器必须包含 6 个频段。");
    let mut bad = ok.clone();
    bad[2] = band(7);
    bad[4].gain_ok = false;
    assert_eq!(validate_equalizer("物理麦克风", &bad).unwrap_err(), "物理麦克风均衡器第 3 段类型无效。");
    let mut later = ok.clone();
    later[5].q_ok = false;
    assert_eq!(validate_equalizer("A1 输出", &later).unwrap_err(), "A1 输出均衡器第 6 段 Q 值无效。");
}
