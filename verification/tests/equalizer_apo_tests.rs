use audio_hub::equalizer_apo::{
    child_apo_key, enabled_device_ids, endpoint_guid, launch_outcome, managed_block_range,
    open_configurator, permission_hint, plan_connect, plan_disconnect, plugin_folder_check,
    require_equalizer_apo_enabled, rnnoise_plugin_check, validate_device_id,
    validate_device_name, validate_preset_name, EqualizerApoStatus, RnnoiseChannelMode,
    RnnoisePlugins, BEGIN_MARKER, END_MARKER,
};

const GUID_ID: &str = "{0.0.0.00000000}.{01234567-89AB-CDEF-0123-456789ABCDEF}";

#[test]
fn validates_preset_names() {
    assert!(validate_preset_name("FPS 脚步增强").is_ok());
    assert!(validate_preset_name(" 电影").is_err());
    assert!(validate_preset_name("坏\n名称").is_err());
}

#[test]
fn finds_complete_managed_block_only() {
    let text = format!("before\n{BEGIN_MARKER}\nInclude: audio-hub.txt\n{END_MARKER}\nafter");
    let (start, end) = managed_block_range(&text).unwrap();
    assert_eq!(&text[..start], "before\n");
    assert_eq!(&text[end..], "after");
    assert!(managed_block_range(BEGIN_MARKER).is_none());
}

#[test]
fn managed_block_range_counts_bytes_and_crlf() {
    let text = format!("音色\r\n{BEGIN_MARKER}\r\nInclude: audio-hub.txt\r\n{END_MARKER}\r\nrest");
    let (start, end) = managed_block_range(&text).unwrap();
    assert_eq!(&text[..start], "音色\r\n");
    assert_eq!(&text[end..], "rest");
    let bare = format!("{BEGIN_MARKER}\n{END_MARKER}");
    assert_eq!(managed_block_range(&bare), Some((0, bare.len())));
}

#[test]
fn preset_name_errors_are_reported_in_order() {
    assert_eq!(
        validate_preset_name("").unwrap_err(),
        "音色预设名称不能为空，且首尾不能包含空格"
    );
    assert_eq!(
        validate_preset_name(&"长".repeat(41)).unwrap_err(),
        "音色预设名称不能超过 40 个字符"
    );
    assert!(validate_preset_name(&"长".repeat(40)).is_ok());
    assert_eq!(
        validate_preset_name("a\u{7}b").unwrap_err(),
        "音色预设名称包含无效字符"
    );
}

#[test]
fn device_identifiers_and_names_must_be_single_line() {
    assert!(validate_device_id(GUID_ID).is_ok());
    assert_eq!(validate_device_id("  ").unwrap_err(), "输出设备 ID 无效。");
    assert_eq!(validate_device_id("a\rb").unwrap_err(), "输出设备 ID 无效。");
    assert_eq!(validate_device_name("x\ny").unwrap_err(), "输出设备名称无效。");
    assert!(validate_device_name("Speakers").is_ok());
}

#[test]
fn endpoint_guid_takes_the_last_braced_guid() {
    assert_eq!(
        endpoint_guid(GUID_ID).unwrap(),
        "{01234567-89AB-CDEF-0123-456789ABCDEF}"
    );
    assert_eq!(
        endpoint_guid("no guid").unwrap_err(),
        "输出设备 ID 中没有可供 Equalizer APO 匹配的 GUID。"
    );
    assert_eq!(
        endpoint_guid("{0.0.0.00000000}.{0123}").unwrap_err(),
        "输出设备 ID 中的 GUID 格式无效。"
    );
    assert_eq!(
        endpoint_guid("{0.0.0.00000000}.{01234567-89AB-CDEF-0123-456789ABCDEG}").unwrap_err(),
        "输出设备 ID 中的 GUID 格式无效。"
    );
}

#[test]
fn child_apo_key_names_the_registry_entry() {
    assert_eq!(
        child_apo_key(GUID_ID).unwrap(),
        "SOFTWARE\\EqualizerAPO\\Child APOs\\{01234567-89AB-CDEF-0123-456789ABCDEF}"
    );
    assert!(child_apo_key("plain").is_none());
}

#[test]
fn enabled_device_ids_keep_registered_devices_with_a_guid() {
    let ids = vec![
        GUID_ID.to_string(),
        "no guid".to_string(),
        "{0.0.0.00000000}.{89ABCDEF-0123-4567-89AB-CDEF01234567}".to_string(),
    ];
    let kept = enabled_device_ids(ids.clone(), vec![true, true, false]);
    assert_eq!(kept, vec![GUID_ID.to_string()]);
    let kept = enabled_device_ids(ids, vec![true, true, true]);
    assert_eq!(kept.len(), 2);
}

#[test]
fn connect_then_disconnect_gives_back_the_terminated_text() {
    let original = "Preamp: -3 dB";
    let connected = plan_connect(original).unwrap().unwrap();
    assert_eq!(
        connected,
        format!("Preamp: -3 dB\n{BEGIN_MARKER}\nInclude: audio-hub.txt\n{END_MARKER}\n")
    );
    assert_eq!(plan_connect(&connected).unwrap(), None);
    assert_eq!(plan_disconnect(&connected).unwrap().unwrap(), "Preamp: -3 dB\n");
    assert_eq!(plan_disconnect(original).unwrap(), None);
}

#[test]
fn incomplete_markers_are_refused() {
    let broken = format!("x\n{BEGIN_MARKER}\n");
    assert!(plan_connect(&broken).unwrap_err().contains("不完整"));
    assert!(plan_disconnect(&broken).unwrap_err().contains("不完整"));
}

#[test]
fn plugin_checks_report_what_is_missing() {
    let none = RnnoisePlugins { mono: None, stereo: None };
    assert_eq!(
        rnnoise_plugin_check(true, true, RnnoiseChannelMode::Stereo, &none).unwrap_err(),
        "未检测到 RNNoise 立体声插件。请将 rnnoise_stereo.dll 放入 Equalizer APO 的 VSTPlugins\\AudioHub 文件夹。"
    );
    assert!(rnnoise_plugin_check(true, false, RnnoiseChannelMode::Mono, &none).is_ok());
    let mono = RnnoisePlugins { mono: Some("D:\\rnnoise_mono.dll".to_string()), stereo: None };
    assert!(rnnoise_plugin_check(true, true, RnnoiseChannelMode::Mono, &mono).is_ok());
    assert_eq!(
        plugin_folder_check(false, false).unwrap_err(),
        "所选文件夹中没有 rnnoise_mono.dll 或 rnnoise_stereo.dll。"
    );
    assert!(plugin_folder_check(false, true).is_ok());
    assert!(require_equalizer_apo_enabled(true).is_ok());
    assert!(require_equalizer_apo_enabled(false).unwrap_err().contains("设备配置器"));
}

#[test]
fn configurator_launch_outcomes() {
    let mut status = EqualizerApoStatus {
        installed: true,
        connected: false,
        config_path: None,
        managed_config_path: None,
        configurator_path: None,
        backup_exists: false,
        rnnoise_mono_path: None,
        rnnoise_stereo_path: None,
        rnnoise_plugin_directory: None,
    };
    assert_eq!(
        open_configurator(&status).unwrap_err(),
        "未找到 Equalizer APO Configurator.exe。"
    );
    status.configurator_path = Some("C:\\EqualizerAPO\\DeviceSelector.exe".to_string());
    assert_eq!(
        open_configurator(&status).unwrap(),
        "C:\\EqualizerAPO\\DeviceSelector.exe"
    );
    assert!(launch_outcome(42).is_ok());
    assert_eq!(
        launch_outcome(5).unwrap_err(),
        "无法以管理员身份启动 Equalizer APO 设备配置器（ShellExecute 错误 5）。如果你取消了 UAC 确认，请重新点击并选择“是”。"
    );
}

#[test]
fn denied_write_suggests_running_as_administrator() {
    assert_eq!(
        permission_hint("写入 config.txt", true, "Access is denied."),
        "写入 config.txt失败：没有写入权限。请以管理员身份运行 Audio Hub 后重试一次。"
    );
    assert_eq!(
        permission_hint("写入 config.txt", false, "disk full"),
        "写入 config.txt失败：disk full"
    );
}
